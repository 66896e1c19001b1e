//! The snapshot that the extractor hands on: its parts, its JSON form, and
//! how it is cut down when it is over budget.

use crate::json::{
    field_trees, lemma_array_view, lemma_object_view, map_fields, map_to_json, trees, Field, Json,
    JsonValue, Member,
};
use crate::seqs::first_items;
use crate::text::views;
use vstd::prelude::*;

verus! {

/// The structured data of a page: its JSON-LD objects and its meta tags by
/// kind, each kind a map from the name of a tag to its content.
#[derive(Debug)]
pub struct StructuredData {
    pub json_ld: Vec<JsonValue>,
    pub meta_tags: serde_json::Map<String, serde_json::Value>,
    pub open_graph: serde_json::Map<String, serde_json::Value>,
    pub twitter_card: serde_json::Map<String, serde_json::Value>,
}

pub struct StructuredModel {
    pub json_ld: Seq<Json>,
    pub meta_tags: Seq<Field>,
    pub open_graph: Seq<Field>,
    pub twitter_card: Seq<Field>,
}

impl View for StructuredData {
    type V = StructuredModel;

    open spec fn view(&self) -> StructuredModel {
        StructuredModel {
            json_ld: trees(self.json_ld@),
            meta_tags: map_fields(self.meta_tags),
            open_graph: map_fields(self.open_graph),
            twitter_card: map_fields(self.twitter_card),
        }
    }
}

/// The text of a page that describes the product.
#[derive(Debug)]
pub struct TextContent {
    pub title: String,
    pub headings: Vec<String>,
    pub breadcrumbs: Vec<String>,
    pub descriptions: Vec<String>,
    pub specifications: Vec<String>,
}

pub struct ContentModel {
    pub title: Seq<char>,
    pub headings: Seq<Seq<char>>,
    pub breadcrumbs: Seq<Seq<char>>,
    pub descriptions: Seq<Seq<char>>,
    pub specifications: Seq<Seq<char>>,
}

impl View for TextContent {
    type V = ContentModel;

    open spec fn view(&self) -> ContentModel {
        ContentModel {
            title: self.title@,
            headings: views(self.headings@),
            breadcrumbs: views(self.breadcrumbs@),
            descriptions: views(self.descriptions@),
            specifications: views(self.specifications@),
        }
    }
}

/// What the extractor makes of one page. `images` holds the source of each
/// image; in the JSON form each stands with an empty `alt` and the score 0.
#[derive(Debug)]
pub struct HtmlExtract {
    pub url: String,
    pub structured_data: StructuredData,
    pub price_signals: Vec<String>,
    pub images: Vec<String>,
    pub content: TextContent,
}

pub struct ExtractModel {
    pub url: Seq<char>,
    pub structured_data: StructuredModel,
    pub price_signals: Seq<Seq<char>>,
    pub images: Seq<Seq<char>>,
    pub content: ContentModel,
}

impl View for HtmlExtract {
    type V = ExtractModel;

    open spec fn view(&self) -> ExtractModel {
        ExtractModel {
            url: self.url@,
            structured_data: self.structured_data@,
            price_signals: views(self.price_signals@),
            images: views(self.images@),
            content: self.content@,
        }
    }
}

/// The snapshot cut down: at most two descriptions, two specifications and
/// eight images, each list from its front.
pub open spec fn cut_down(m: ExtractModel) -> ExtractModel {
    ExtractModel {
        images: first_items(m.images, 8),
        content: ContentModel {
            descriptions: first_items(m.content.descriptions, 2),
            specifications: first_items(m.content.specifications, 2),
            ..m.content
        },
        ..m
    }
}

/// Cutting down twice gives what cutting down once gives.
pub proof fn lemma_cut_down_settles(m: ExtractModel)
    ensures
        cut_down(cut_down(m)) == cut_down(m),
{
}

/// A snapshot that was cut down holds at most two descriptions, two
/// specifications and eight images.
pub proof fn lemma_cut_down_bounds(m: ExtractModel)
    ensures
        cut_down(m).content.descriptions.len() <= 2,
        cut_down(m).content.specifications.len() <= 2,
        cut_down(m).images.len() <= 8,
{
}

/// A list of texts as a JSON array.
pub open spec fn texts_tree(list: Seq<Seq<char>>) -> Json {
    Json::Array(Seq::new(list.len(), |i: int| Json::Text(list[i])))
}

/// An image as it stands in the JSON form.
pub open spec fn image_tree(src: Seq<char>) -> Json {
    Json::Object(
        seq![
            Field { key: "src"@, value: Json::Text(src) },
            Field { key: "alt"@, value: Json::Text(""@) },
            Field { key: "score"@, value: Json::Number("0"@) },
        ],
    )
}

pub open spec fn images_tree(list: Seq<Seq<char>>) -> Json {
    Json::Array(Seq::new(list.len(), |i: int| image_tree(list[i])))
}

pub open spec fn structured_tree(s: StructuredModel) -> Json {
    Json::Object(
        seq![
            Field { key: "json_ld"@, value: Json::Array(s.json_ld) },
            Field { key: "meta_tags"@, value: Json::Object(s.meta_tags) },
            Field { key: "open_graph"@, value: Json::Object(s.open_graph) },
            Field { key: "twitter_card"@, value: Json::Object(s.twitter_card) },
        ],
    )
}

pub open spec fn content_tree(c: ContentModel) -> Json {
    Json::Object(
        seq![
            Field { key: "title"@, value: Json::Text(c.title) },
            Field { key: "headings"@, value: texts_tree(c.headings) },
            Field { key: "breadcrumbs"@, value: texts_tree(c.breadcrumbs) },
            Field { key: "descriptions"@, value: texts_tree(c.descriptions) },
            Field { key: "specifications"@, value: texts_tree(c.specifications) },
        ],
    )
}

/// The JSON form of a snapshot.
pub open spec fn extract_tree(m: ExtractModel) -> Json {
    Json::Object(
        seq![
            Field { key: "url"@, value: Json::Text(m.url) },
            Field { key: "structured_data"@, value: structured_tree(m.structured_data) },
            Field { key: "price_signals"@, value: texts_tree(m.price_signals) },
            Field { key: "images"@, value: images_tree(m.images) },
            Field { key: "content"@, value: content_tree(m.content) },
        ],
    )
}

fn member(key: &str, value: JsonValue) -> (out: Member)
    ensures
        out.key@ == key@,
        out.value@ == value@,
{
    Member { key: key.to_string(), value }
}

fn object_of(members: Vec<Member>) -> (out: JsonValue)
    ensures
        out@ == Json::Object(field_trees(members@)),
{
    proof {
        lemma_object_view(members);
    }
    JsonValue::Object(members)
}

fn texts_json(list: &Vec<String>) -> (out: JsonValue)
    ensures
        out@ == texts_tree(views(list@)),
{
    let mut items: Vec<JsonValue> = Vec::new();
    let mut i: usize = 0;
    while i < list.len()
        invariant
            i <= list.len(),
            items.len() == i,
            forall|k: int| 0 <= k < i ==> items@[k]@ == Json::Text(list@[k]@),
        decreases list.len() - i,
    {
        items.push(JsonValue::Text(list[i].clone()));
        i += 1;
    }
    proof {
        lemma_array_view(items);
        assert(trees(items@) =~= texts_tree(views(list@))->Array_0);
    }
    JsonValue::Array(items)
}

fn image_json(src: &String) -> (out: JsonValue)
    ensures
        out@ == image_tree(src@),
{
    let mut members: Vec<Member> = Vec::new();
    members.push(member("src", JsonValue::Text(src.clone())));
    members.push(member("alt", JsonValue::Text("".to_string())));
    members.push(member("score", JsonValue::Number("0".to_string())));
    proof {
        assert(field_trees(members@) =~= image_tree(src@)->Object_0);
    }
    object_of(members)
}

fn images_json(list: &Vec<String>) -> (out: JsonValue)
    ensures
        out@ == images_tree(views(list@)),
{
    let mut items: Vec<JsonValue> = Vec::new();
    let mut i: usize = 0;
    while i < list.len()
        invariant
            i <= list.len(),
            items.len() == i,
            forall|k: int| 0 <= k < i ==> items@[k]@ == image_tree(list@[k]@),
        decreases list.len() - i,
    {
        items.push(image_json(&list[i]));
        i += 1;
    }
    proof {
        lemma_array_view(items);
        assert(trees(items@) =~= images_tree(views(list@))->Array_0);
    }
    JsonValue::Array(items)
}

fn copy_values(list: &Vec<JsonValue>) -> (out: Vec<JsonValue>)
    ensures
        trees(out@) == trees(list@),
{
    let mut out: Vec<JsonValue> = Vec::new();
    let mut i: usize = 0;
    while i < list.len()
        invariant
            i <= list.len(),
            out.len() == i,
            forall|k: int| 0 <= k < i ==> out@[k]@ == list@[k]@,
        decreases list.len() - i,
    {
        out.push(list[i].copy());
        i += 1;
    }
    assert(trees(out@) =~= trees(list@));
    out
}

impl StructuredData {
    pub fn to_json(&self) -> (out: JsonValue)
        ensures
            out@ == structured_tree(self@),
    {
        let mut members: Vec<Member> = Vec::new();
        let items = copy_values(&self.json_ld);
        proof {
            lemma_array_view(items);
        }
        members.push(member("json_ld", JsonValue::Array(items)));
        members.push(member("meta_tags", map_to_json(&self.meta_tags)));
        members.push(member("open_graph", map_to_json(&self.open_graph)));
        members.push(member("twitter_card", map_to_json(&self.twitter_card)));
        proof {
            assert(field_trees(members@) =~= structured_tree(self@)->Object_0);
        }
        object_of(members)
    }
}

impl TextContent {
    pub fn to_json(&self) -> (out: JsonValue)
        ensures
            out@ == content_tree(self@),
    {
        let mut members: Vec<Member> = Vec::new();
        members.push(member("title", JsonValue::Text(self.title.clone())));
        members.push(member("headings", texts_json(&self.headings)));
        members.push(member("breadcrumbs", texts_json(&self.breadcrumbs)));
        members.push(member("descriptions", texts_json(&self.descriptions)));
        members.push(member("specifications", texts_json(&self.specifications)));
        proof {
            assert(field_trees(members@) =~= content_tree(self@)->Object_0);
        }
        object_of(members)
    }
}

/// Shortens a list to its first `n` items.
fn keep_first(list: &mut Vec<String>, n: usize)
    ensures
        views(final(list)@) == first_items(views(old(list)@), n as nat),
{
    if list.len() > n {
        list.truncate(n);
        assert(views(list@) =~= views(old(list)@).take(n as int));
    }
}

impl HtmlExtract {
    /// The JSON form of the snapshot.
    pub fn to_json(&self) -> (out: JsonValue)
        ensures
            out@ == extract_tree(self@),
    {
        let mut members: Vec<Member> = Vec::new();
        members.push(member("url", JsonValue::Text(self.url.clone())));
        members.push(member("structured_data", self.structured_data.to_json()));
        members.push(member("price_signals", texts_json(&self.price_signals)));
        members.push(member("images", images_json(&self.images)));
        members.push(member("content", self.content.to_json()));
        proof {
            assert(field_trees(members@) =~= extract_tree(self@)->Object_0);
        }
        object_of(members)
    }

    /// Cuts the snapshot down to at most two descriptions, two
    /// specifications and eight images.
    pub fn trim_content(&mut self)
        ensures
            final(self)@ == cut_down(old(self)@),
            final(self)@.content.descriptions.len() <= 2,
            final(self)@.content.specifications.len() <= 2,
            final(self)@.images.len() <= 8,
    {
        keep_first(&mut self.content.descriptions, 2);
        keep_first(&mut self.content.specifications, 2);
        keep_first(&mut self.images, 8);
    }
}

} // verus!
