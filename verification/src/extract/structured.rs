//! Structured data: the JSON-LD objects that describe a product or an
//! offer, and the meta tags that speak of one.

use crate::dom::{attr_or_empty, element_views, whole_text, Element, ElementModel};
use crate::json::{
    field, insert_text, inserted, map_fields, member, new_map, parse_json, parsed_json,
    text_member, trees, Field, Json, JsonValue,
};
use crate::text::{
    begins_with, chars_of, contains, has, lowercase, lowercased, starts_with, text_eq, trim,
    trimmed,
};
use vstd::prelude::*;

verus! {

/// The types of which an object at the top of a JSON-LD script is kept.
pub open spec fn is_product_type(t: Seq<char>) -> bool {
    t == "Product"@ || t == "Offer"@ || t == "AggregateOffer"@ || t == "ProductGroup"@
}

/// The types of which an item of a `@graph` is kept.
pub open spec fn is_graph_type(t: Seq<char>) -> bool {
    t == "Product"@ || t == "Offer"@ || t == "ProductGroup"@
}

/// An aggregate offer is kept at the top of a script and not in a `@graph`;
/// the other three product types are kept in both places.
pub proof fn lemma_aggregate_offer_only_at_top()
    ensures
        is_product_type("AggregateOffer"@),
        !is_graph_type("AggregateOffer"@),
        forall|t: Seq<char>| is_graph_type(t) ==> is_product_type(t),
{
    reveal_strlit("AggregateOffer");
    reveal_strlit("Product");
    reveal_strlit("Offer");
    reveal_strlit("ProductGroup");
    assert("AggregateOffer"@.len() == 14);
    assert("Product"@.len() == 7);
    assert("Offer"@.len() == 5);
    assert("ProductGroup"@.len() == 12);
}

/// Whether an item of a `@graph` is kept: an object whose `@type` is a text
/// and one of the graph types.
pub open spec fn kept_in_graph(item: Json) -> bool {
    item is Object && (text_member(item, "@type"@) matches Some(t) && is_graph_type(t))
}

/// The items of a `@graph` that are kept, in order.
pub open spec fn typed_items(items: Seq<Json>) -> Seq<Json>
    decreases items.len(),
{
    if items.len() == 0 {
        Seq::empty()
    } else if kept_in_graph(items.last()) {
        typed_items(items.drop_last()).push(items.last())
    } else {
        typed_items(items.drop_last())
    }
}

/// The object at the top of a JSON-LD script, where it is kept: where its
/// `@type` is a text and a product type.
pub open spec fn kept_at_top(tree: Json) -> Seq<Json> {
    match text_member(tree, "@type"@) {
        Some(t) => if is_product_type(t) {
            seq![tree]
        } else {
            Seq::empty()
        },
        None => Seq::empty(),
    }
}

/// The items of the `@graph` of an object that are kept, one level deep;
/// none where the object has no `@graph` or its `@graph` is no array.
pub open spec fn kept_of_graph(tree: Json) -> Seq<Json> {
    match member(tree, "@graph"@) {
        Some(Json::Array(items)) => typed_items(items),
        _ => Seq::empty(),
    }
}

/// What a parsed JSON-LD script contributes: of an object, the object itself
/// where it is kept, then the kept items of its `@graph`, whatever the type
/// of the object is; of anything else, nothing.
pub open spec fn json_ld_of_tree(tree: Json) -> Seq<Json> {
    if tree is Object {
        kept_at_top(tree) + kept_of_graph(tree)
    } else {
        Seq::empty()
    }
}

/// What the text of a JSON-LD script contributes; nothing where it is blank
/// or is no JSON.
pub open spec fn json_ld_in(text: Seq<char>) -> Seq<Json> {
    if trimmed(text).len() == 0 {
        Seq::empty()
    } else {
        match parsed_json(text) {
            Some(tree) => json_ld_of_tree(tree),
            None => Seq::empty(),
        }
    }
}

/// What the JSON-LD scripts of a page contribute, script after script.
pub open spec fn json_ld_of(scripts: Seq<ElementModel>) -> Seq<Json>
    decreases scripts.len(),
{
    if scripts.len() == 0 {
        Seq::empty()
    } else {
        json_ld_of(scripts.drop_last()) + json_ld_in(whole_text(scripts.last()))
    }
}

fn product_type(t: &str) -> (r: bool)
    ensures
        r == is_product_type(t@),
{
    text_eq(t, "Product") || text_eq(t, "Offer") || text_eq(t, "AggregateOffer") || text_eq(
        t,
        "ProductGroup",
    )
}

fn graph_type(t: &str) -> (r: bool)
    ensures
        r == is_graph_type(t@),
{
    text_eq(t, "Product") || text_eq(t, "Offer") || text_eq(t, "ProductGroup")
}

fn graph_keeps(item: &JsonValue) -> (r: bool)
    ensures
        r == kept_in_graph(item@),
{
    match item {
        JsonValue::Object(_) => match item.text_at("@type") {
            Some(t) => graph_type(t.as_str()),
            None => false,
        },
        _ => false,
    }
}

fn typed_of(items: &Vec<JsonValue>) -> (out: Vec<JsonValue>)
    ensures
        trees(out@) == typed_items(trees(items@)),
{
    let ghost all = trees(items@);
    let mut out: Vec<JsonValue> = Vec::new();
    let mut i: usize = 0;
    assert(all.take(0) == Seq::<Json>::empty());
    assert(trees(out@) =~= Seq::<Json>::empty());
    while i < items.len()
        invariant
            i <= items.len(),
            all == trees(items@),
            trees(out@) == typed_items(all.take(i as int)),
        decreases items.len() - i,
    {
        assert(all.take(i + 1).drop_last() == all.take(i as int));
        assert(all.take(i + 1).last() == items@[i as int]@);
        if graph_keeps(&items[i]) {
            let ghost shown = trees(out@);
            out.push(items[i].copy());
            assert(trees(out@) =~= shown.push(items@[i as int]@));
        }
        i += 1;
    }
    assert(all.take(items.len() as int) == all);
    out
}

/// What a parsed JSON-LD script contributes.
pub fn json_ld_from(tree: JsonValue) -> (out: Vec<JsonValue>)
    ensures
        trees(out@) == json_ld_of_tree(tree@),
{
    let mut out: Vec<JsonValue> = Vec::new();
    assert(trees(out@) =~= Seq::<Json>::empty());
    match &tree {
        JsonValue::Object(_) => {},
        _ => {
            return out;
        },
    }
    let mut graph: Vec<JsonValue> = match tree.get("@graph") {
        Some(found) => match found.as_items() {
            Some(items) => typed_of(items),
            None => Vec::new(),
        },
        None => Vec::new(),
    };
    assert(trees(graph@) =~= kept_of_graph(tree@));
    let at_top = match tree.text_at("@type") {
        Some(t) => product_type(t.as_str()),
        None => false,
    };
    if at_top {
        let ghost whole = tree@;
        out.push(tree);
        assert(trees(out@) =~= seq![whole]);
    }
    let ghost top = trees(out@);
    let ghost below = trees(graph@);
    out.append(&mut graph);
    assert(trees(out@) =~= top + below);
    out
}

/// The JSON-LD objects that the scripts of a page contribute.
pub fn collect_json_ld(scripts: &Vec<Element>) -> (out: Vec<JsonValue>)
    ensures
        trees(out@) == json_ld_of(element_views(scripts@)),
{
    let ghost all = element_views(scripts@);
    let mut out: Vec<JsonValue> = Vec::new();
    let mut i: usize = 0;
    assert(all.take(0) == Seq::<ElementModel>::empty());
    assert(trees(out@) =~= Seq::<Json>::empty());
    while i < scripts.len()
        invariant
            i <= scripts.len(),
            all == element_views(scripts@),
            trees(out@) == json_ld_of(all.take(i as int)),
        decreases scripts.len() - i,
    {
        assert(all.take(i + 1).drop_last() == all.take(i as int));
        assert(all.take(i + 1).last() == scripts@[i as int]@);
        let text = scripts[i].whole_text();
        let blank = trim(&chars_of(text.as_str())).len() == 0;
        let ghost shown = trees(out@);
        if !blank {
            if let Some(tree) = parse_json(text.as_str()) {
                let mut found = json_ld_from(tree);
                let ghost more = trees(found@);
                out.append(&mut found);
                assert(trees(out@) =~= shown + more);
            }
        }
        assert(trees(out@) =~= shown + json_ld_in(text@));
        i += 1;
    }
    assert(all.take(scripts.len() as int) == all);
    out
}

/// The meta tags that were kept, by kind: each kind a map from the name of a
/// tag to its content.
#[derive(Debug)]
pub struct MetaBuckets {
    pub meta_tags: serde_json::Map<String, serde_json::Value>,
    pub open_graph: serde_json::Map<String, serde_json::Value>,
    pub twitter_card: serde_json::Map<String, serde_json::Value>,
}

pub struct BucketsModel {
    pub meta_tags: Seq<Field>,
    pub open_graph: Seq<Field>,
    pub twitter_card: Seq<Field>,
}

impl View for MetaBuckets {
    type V = BucketsModel;

    open spec fn view(&self) -> BucketsModel {
        BucketsModel {
            meta_tags: map_fields(self.meta_tags),
            open_graph: map_fields(self.open_graph),
            twitter_card: map_fields(self.twitter_card),
        }
    }
}

/// The map with `name` set to `content`.
pub open spec fn with_tag(tags: Seq<Field>, name: Seq<char>, content: Seq<char>) -> Seq<Field> {
    inserted(tags, name, Json::Text(content))
}

/// The name of a meta element: its `name`, else its `property`, else empty.
/// The attributes asked for are `name`, `property`, `content`, in this order.
pub open spec fn meta_name(e: ElementModel) -> Seq<char> {
    match crate::dom::attr(e, 0) {
        Some(n) => n,
        None => attr_or_empty(e, 1),
    }
}

/// Whether a meta name speaks of a product or a price, in whatever case.
pub open spec fn speaks_of_product(name: Seq<char>) -> bool {
    contains(lowercased(name), "product"@) || contains(lowercased(name), "price"@)
}

/// The kinds of meta tags that are kept.
#[derive(Debug, Clone, Copy, PartialEq, Eq)]
pub enum TagKind {
    OpenGraph,
    TwitterCard,
    Meta,
}

/// The kind under which a meta element is kept: none where it has no name or
/// no content; Open Graph where its name begins with `og:`; Twitter card
/// where it begins with `twitter:`; a meta tag where it speaks of a product
/// or a price; else none.
pub open spec fn kind_of(e: ElementModel) -> Option<TagKind> {
    let name = meta_name(e);
    if name.len() == 0 || attr_or_empty(e, 2).len() == 0 {
        None
    } else if starts_with(name, "og:"@) {
        Some(TagKind::OpenGraph)
    } else if starts_with(name, "twitter:"@) {
        Some(TagKind::TwitterCard)
    } else if speaks_of_product(name) {
        Some(TagKind::Meta)
    } else {
        None
    }
}

/// The map of one kind.
pub open spec fn bucket(b: BucketsModel, kind: TagKind) -> Seq<Field> {
    match kind {
        TagKind::OpenGraph => b.open_graph,
        TagKind::TwitterCard => b.twitter_card,
        TagKind::Meta => b.meta_tags,
    }
}

/// The buckets after one more meta element: its content is set under its
/// name in the map of its kind; an element of no kind changes nothing.
pub open spec fn with_meta(b: BucketsModel, e: ElementModel) -> BucketsModel {
    let name = meta_name(e);
    let content = attr_or_empty(e, 2);
    match kind_of(e) {
        Some(TagKind::OpenGraph) => BucketsModel {
            open_graph: with_tag(b.open_graph, name, content),
            ..b
        },
        Some(TagKind::TwitterCard) => BucketsModel {
            twitter_card: with_tag(b.twitter_card, name, content),
            ..b
        },
        Some(TagKind::Meta) => BucketsModel {
            meta_tags: with_tag(b.meta_tags, name, content),
            ..b
        },
        None => b,
    }
}

/// The content that the tags of `kind` have under `name` after these meta
/// elements: that of the last element of this kind with this name, nothing
/// where there is no such element.
pub open spec fn tag_content(metas: Seq<ElementModel>, kind: TagKind, name: Seq<char>) -> Option<
    Json,
>
    decreases metas.len(),
{
    if metas.len() == 0 {
        None
    } else if kind_of(metas.last()) == Some(kind) && meta_name(metas.last()) == name {
        Some(Json::Text(attr_or_empty(metas.last(), 2)))
    } else {
        tag_content(metas.drop_last(), kind, name)
    }
}

/// Every name of every kind has in `b` the content that the meta elements
/// give it.
pub open spec fn holds_tags_of(b: BucketsModel, metas: Seq<ElementModel>) -> bool {
    forall|kind: TagKind, name: Seq<char>| #[trigger]
        field(bucket(b, kind), name) == tag_content(metas, kind, name)
}

/// The buckets that the meta elements of a page fill, element after element.
pub open spec fn meta_of(metas: Seq<ElementModel>) -> BucketsModel
    decreases metas.len(),
{
    if metas.len() == 0 {
        BucketsModel {
            meta_tags: Seq::empty(),
            open_graph: Seq::empty(),
            twitter_card: Seq::empty(),
        }
    } else {
        with_meta(meta_of(metas.drop_last()), metas.last())
    }
}

fn about_product(name: &str) -> (r: bool)
    ensures
        r == speaks_of_product(name@),
{
    let lower = chars_of(lowercase(name).as_str());
    has(&lower, &chars_of("product")) || has(&lower, &chars_of("price"))
}

/// The buckets that the meta elements of a page fill. Each map holds, for
/// every name, the content of the last element of its kind with that name.
pub fn collect_meta(metas: &Vec<Element>) -> (out: MetaBuckets)
    ensures
        out@ == meta_of(element_views(metas@)),
        holds_tags_of(out@, element_views(metas@)),
{
    let ghost all = element_views(metas@);
    let mut out = MetaBuckets {
        meta_tags: new_map(),
        open_graph: new_map(),
        twitter_card: new_map(),
    };
    let mut i: usize = 0;
    assert(all.take(0) == Seq::<ElementModel>::empty());
    while i < metas.len()
        invariant
            i <= metas.len(),
            all == element_views(metas@),
            out@ == meta_of(all.take(i as int)),
            holds_tags_of(out@, all.take(i as int)),
        decreases metas.len() - i,
    {
        let ghost before = out@;
        let ghost front = all.take(i as int);
        let ghost now = all.take(i + 1);
        assert(now.drop_last() == front);
        assert(now.last() == metas@[i as int]@);
        let e = &metas[i];
        let name = match e.attr_at(0) {
            Some(n) => n.clone(),
            None => e.attr_text(1),
        };
        let content = e.attr_text(2);
        let key = chars_of(name.as_str());
        if key.len() != 0 && content.as_str().unicode_len() != 0 {
            if begins_with(&key, &chars_of("og:")) {
                insert_text(&mut out.open_graph, name, content);
            } else if begins_with(&key, &chars_of("twitter:")) {
                insert_text(&mut out.twitter_card, name, content);
            } else if about_product(name.as_str()) {
                insert_text(&mut out.meta_tags, name, content);
            }
        }
        assert(holds_tags_of(out@, now)) by {
            assert forall|kind: TagKind, other: Seq<char>| #[trigger]
                field(bucket(out@, kind), other) == tag_content(now, kind, other) by {
                assert(field(bucket(before, kind), other) == tag_content(front, kind, other));
            }
        }
        i += 1;
    }
    assert(all.take(metas.len() as int) == all);
    out
}

} // verus!
