//! The images of a page: which `<img>` elements show the product, the
//! images that JSON-LD and preload links name, and the list made of them all.

use crate::dom::{
    attr, attr_or_empty, element_views, Ancestor, AncestorModel, Element, ElementModel,
};
use crate::json::{member, text_member, trees, Json, JsonValue};
use crate::numbers::{int_of_text, parse_int};
use crate::patterns::{is_match, regex_matches};
use crate::seqs::{first_items, listed, picked};
use crate::text::{
    chars_of, contains, distinct_nonempty, has, lowercase, lowercased, push_distinct, remove_all,
    removed, text_eq, views,
};
use crate::urls::{resolve_url, resolved_url};
use vstd::prelude::*;

verus! {

/// The number of `<img>` elements that are looked at.
pub const MAX_IMG_ELEMENTS: usize = 50;

/// The smallest width and height, where both are stated, of an image that is kept.
pub const MIN_SIDE: i32 = 100;

/// The lowest score with which an image is kept.
pub const MIN_SCORE: i32 = 2;

/// The highest score that an image can have.
pub const TOP_SCORE: i32 = 10;

/// The most ranked images that are kept.
pub const MAX_RANKED: usize = 15;

/// A text that ends in the extension of an image.
pub const IMAGE_EXT_PATTERN: &'static str = r"\.(jpg|jpeg|png|webp)$";

/// An image that was judged: its source, resolved against the page, its
/// `alt` text and its score.
#[derive(Debug)]
pub struct ImageInfo {
    pub src: String,
    pub alt: String,
    pub score: i32,
}

pub struct ImageModel {
    pub src: Seq<char>,
    pub alt: Seq<char>,
    pub score: int,
}

impl View for ImageInfo {
    type V = ImageModel;

    open spec fn view(&self) -> ImageModel {
        ImageModel { src: self.src@, alt: self.alt@, score: self.score as int }
    }
}

/// The views of a list of judged images.
pub open spec fn image_views(list: Seq<ImageInfo>) -> Seq<ImageModel> {
    Seq::new(list.len(), |i: int| list[i]@)
}

/// The source of an `<img>`: the first of `src`, `data-src`, `data-lazy-src`
/// that is there and not empty; the empty text where none is. The
/// attributes asked for are these three, then `width`, `height`, `alt`,
/// `itemprop`.
pub open spec fn image_source(e: ElementModel) -> Seq<char> {
    if attr_or_empty(e, 0).len() > 0 {
        attr_or_empty(e, 0)
    } else if attr_or_empty(e, 1).len() > 0 {
        attr_or_empty(e, 1)
    } else {
        attr_or_empty(e, 2)
    }
}

/// Whether a URL in lower case names something that is no product image.
pub open spec fn is_excluded(lower: Seq<char>) -> bool {
    ||| contains(lower, "logo"@)
    ||| contains(lower, "icon"@)
    ||| contains(lower, "favicon"@)
    ||| contains(lower, "sprite"@)
    ||| contains(lower, "loading"@)
    ||| contains(lower, "placeholder"@)
    ||| contains(lower, "social"@)
    ||| contains(lower, "facebook"@)
    ||| contains(lower, "twitter"@)
    ||| contains(lower, "instagram"@)
    ||| contains(lower, "youtube"@)
    ||| contains(lower, "payment"@)
    ||| contains(lower, "visa"@)
    ||| contains(lower, "mastercard"@)
    ||| contains(lower, "paypal"@)
    ||| contains(lower, "stripe"@)
    ||| contains(lower, "shipping"@)
    ||| contains(lower, "delivery"@)
    ||| contains(lower, "banner"@)
    ||| contains(lower, "advertisement"@)
}

/// The length that a `width` or `height` attribute states: the integer that
/// is left when `px` is taken out of it.
pub open spec fn side(value: Option<Seq<char>>) -> Option<int> {
    match value {
        Some(v) => int_of_text(removed(v, "px"@)),
        None => None,
    }
}

/// Whether an image states both its width and its height and one of them is
/// below a hundred.
pub open spec fn too_small(e: ElementModel) -> bool {
    match (side(attr(e, 3)), side(attr(e, 4))) {
        (Some(w), Some(h)) => w < MIN_SIDE || h < MIN_SIDE,
        _ => false,
    }
}

/// Whether the class of a node above speaks of a product or a gallery. The
/// attribute asked of the nodes above is `class`.
pub open spec fn class_hits(a: AncestorModel) -> bool {
    let class = lowercased(
        match a.attr {
            Some(c) => c,
            None => Seq::empty(),
        },
    );
    contains(class, "product"@) || contains(class, "gallery"@)
}

/// Whether one of the nearest three nodes above, as far as they are
/// elements, has a class that speaks of a product or a gallery. The walk up
/// ends at the first node that is no element.
pub open spec fn ancestor_bonus(up: Seq<AncestorModel>) -> bool {
    up.len() > 0 && up[0].is_element && (class_hits(up[0]) || (up.len() > 1 && up[1].is_element
        && (class_hits(up[1]) || (up.len() > 2 && up[2].is_element && class_hits(up[2])))))
}

pub open spec fn points(earned: bool, worth: int) -> int {
    if earned {
        worth
    } else {
        0
    }
}

/// The score of an image whose resolved source in lower case is `lower`.
pub open spec fn score_of(e: ElementModel, lower: Seq<char>) -> int {
    points(
        contains(lower, "product"@) || contains(lower, "item"@) || contains(lower, "gallery"@),
        2,
    ) + points(attr_or_empty(e, 5).len() > 10, 2) + points(
        contains(lower, "cdn"@) || contains(lower, "media"@) || contains(lower, "assets"@)
            || contains(lower, "images"@),
        1,
    ) + points(attr(e, 6) == Some("image"@), 3) + points(ancestor_bonus(e.ancestors), 2)
}

/// The source of an image resolved against the page; the source as it is
/// where it cannot be resolved.
pub open spec fn resolved_source(base: Seq<char>, raw: Seq<char>) -> Seq<char> {
    match resolved_url(base, raw) {
        Some(full) => full,
        None => raw,
    }
}

/// What is made of an `<img>`: nothing where it has no source, where the
/// source is excluded, where it is too small or where it scores below two;
/// else its resolved source, its `alt` and its score.
pub open spec fn image_of(base: Seq<char>, e: ElementModel) -> Option<ImageModel> {
    let raw = image_source(e);
    let src = resolved_source(base, raw);
    let lower = lowercased(src);
    if raw.len() == 0 || is_excluded(lower) || too_small(e) || score_of(e, lower) < MIN_SCORE {
        None
    } else {
        Some(ImageModel { src, alt: attr_or_empty(e, 5), score: score_of(e, lower) })
    }
}

pub open spec fn image_picker(base: Seq<char>) -> spec_fn(ElementModel) -> Option<ImageModel> {
    |e: ElementModel| image_of(base, e)
}

/// The images with the score `s`, in order.
pub open spec fn with_score(list: Seq<ImageModel>, s: int) -> Seq<ImageModel>
    decreases list.len(),
{
    if list.len() == 0 {
        Seq::empty()
    } else if list.last().score == s {
        with_score(list.drop_last(), s).push(list.last())
    } else {
        with_score(list.drop_last(), s)
    }
}

/// The images with a score from `s` down to two, the higher score first and
/// images of one score in the order in which they stand.
pub open spec fn by_score_from(list: Seq<ImageModel>, s: int) -> Seq<ImageModel>
    decreases s,
{
    if s < MIN_SCORE {
        Seq::empty()
    } else {
        with_score(list, s) + by_score_from(list, s - 1)
    }
}

/// Every image of [`with_score`] has the score asked for.
pub proof fn lemma_with_score(list: Seq<ImageModel>, s: int)
    ensures
        forall|i: int|
            0 <= i < with_score(list, s).len() ==> (#[trigger] with_score(list, s)[i]).score == s,
    decreases list.len(),
{
    if list.len() > 0 {
        let front = with_score(list.drop_last(), s);
        let all = with_score(list, s);
        lemma_with_score(list.drop_last(), s);
        assert forall|i: int| 0 <= i < all.len() implies (#[trigger] all[i]).score == s by {
            if i < front.len() {
                assert(all[i] == front[i]);
            }
        }
    }
}

/// The order by score is an order: no image stands before one with a higher
/// score, and every image has a score between two and `s`.
pub proof fn lemma_by_score_is_ordered(list: Seq<ImageModel>, s: int)
    ensures
        forall|i: int|
            0 <= i < by_score_from(list, s).len() ==> MIN_SCORE <= (#[trigger] by_score_from(
                list,
                s,
            )[i]).score <= s,
        forall|i: int, j: int|
            0 <= i < j < by_score_from(list, s).len() ==> by_score_from(list, s)[i].score
                >= by_score_from(list, s)[j].score,
    decreases s,
{
    if s >= MIN_SCORE {
        lemma_with_score(list, s);
        lemma_by_score_is_ordered(list, s - 1);
        let head = with_score(list, s);
        let tail = by_score_from(list, s - 1);
        let all = by_score_from(list, s);
        assert forall|i: int| 0 <= i < all.len() implies MIN_SCORE <= (#[trigger] all[i]).score
            <= s by {
            if i < head.len() {
                assert(all[i] == head[i]);
            } else {
                assert(all[i] == tail[i - head.len()]);
            }
        }
        assert forall|i: int, j: int| 0 <= i < j < all.len() implies all[i].score
            >= all[j].score by {
            if i < head.len() {
                assert(all[i] == head[i]);
            } else {
                assert(all[i] == tail[i - head.len()]);
            }
            if j < head.len() {
                assert(all[j] == head[j]);
            } else {
                assert(all[j] == tail[j - head.len()]);
            }
        }
    }
}

/// The ranked images of a page: of its first fifty `<img>` elements those
/// that are kept, the higher score first, at most fifteen.
pub open spec fn ranked_images(base: Seq<char>, elements: Seq<ElementModel>) -> Seq<ImageModel> {
    first_items(
        by_score_from(
            picked(first_items(elements, MAX_IMG_ELEMENTS as nat), image_picker(base)),
            TOP_SCORE as int,
        ),
        MAX_RANKED as nat,
    )
}

/// The sources of a list of images.
pub open spec fn sources(list: Seq<ImageModel>) -> Seq<Seq<char>> {
    Seq::new(list.len(), |i: int| list[i].src)
}

/// Whether a URL in lower case names something that is no product image.
pub fn excluded(lower: &Vec<char>) -> (r: bool)
    ensures
        r == is_excluded(lower@),
{
    has(lower, &chars_of("logo")) || has(lower, &chars_of("icon")) || has(
        lower,
        &chars_of("favicon"),
    ) || has(lower, &chars_of("sprite")) || has(lower, &chars_of("loading")) || has(
        lower,
        &chars_of("placeholder"),
    ) || has(lower, &chars_of("social")) || has(lower, &chars_of("facebook")) || has(
        lower,
        &chars_of("twitter"),
    ) || has(lower, &chars_of("instagram")) || has(lower, &chars_of("youtube")) || has(
        lower,
        &chars_of("payment"),
    ) || has(lower, &chars_of("visa")) || has(lower, &chars_of("mastercard")) || has(
        lower,
        &chars_of("paypal"),
    ) || has(lower, &chars_of("stripe")) || has(lower, &chars_of("shipping")) || has(
        lower,
        &chars_of("delivery"),
    ) || has(lower, &chars_of("banner")) || has(lower, &chars_of("advertisement"))
}

fn stated_side(value: Option<&String>) -> (out: Option<i32>)
    ensures
        match out {
            Some(v) => side(
                match value {
                    Some(s) => Some(s@),
                    None => None,
                },
            ) == Some(v as int),
            None => side(
                match value {
                    Some(s) => Some(s@),
                    None => None,
                },
            ) is None,
        },
{
    match value {
        Some(v) => parse_int(&remove_all(&chars_of(v.as_str()), &chars_of("px"))),
        None => None,
    }
}

/// Whether an image states both its width and its height and one of them is
/// below a hundred.
pub fn is_too_small(e: &Element) -> (r: bool)
    ensures
        r == too_small(e@),
{
    match (stated_side(e.attr_at(3)), stated_side(e.attr_at(4))) {
        (Some(w), Some(h)) => w < MIN_SIDE || h < MIN_SIDE,
        _ => false,
    }
}

fn hits(a: &Ancestor) -> (r: bool)
    ensures
        r == class_hits(a@),
{
    let class = match &a.attr {
        Some(c) => lowercase(c.as_str()),
        None => lowercase(""),
    };
    proof {
        reveal_strlit("");
        assert(""@ =~= Seq::<char>::empty());
    }
    let chars = chars_of(class.as_str());
    has(&chars, &chars_of("product")) || has(&chars, &chars_of("gallery"))
}

fn has_ancestor_bonus(up: &Vec<Ancestor>) -> (r: bool)
    ensures
        r == ancestor_bonus(Seq::new(up.len() as nat, |i: int| up@[i]@)),
{
    up.len() > 0 && up[0].is_element && (hits(&up[0]) || (up.len() > 1 && up[1].is_element && (
    hits(&up[1]) || (up.len() > 2 && up[2].is_element && hits(&up[2])))))
}

/// The score of an image whose resolved source in lower case is `lower`.
pub fn score(e: &Element, lower: &Vec<char>) -> (out: i32)
    ensures
        out == score_of(e@, lower@),
        0 <= out <= TOP_SCORE,
{
    let mut out: i32 = 0;
    if has(lower, &chars_of("product")) || has(lower, &chars_of("item")) || has(
        lower,
        &chars_of("gallery"),
    ) {
        out += 2;
    }
    if e.attr_text(5).as_str().unicode_len() > 10 {
        out += 2;
    }
    if has(lower, &chars_of("cdn")) || has(lower, &chars_of("media")) || has(
        lower,
        &chars_of("assets"),
    ) || has(lower, &chars_of("images")) {
        out += 1;
    }
    let marked = match e.attr_at(6) {
        Some(v) => text_eq(v.as_str(), "image"),
        None => false,
    };
    if marked {
        out += 3;
    }
    assert(e@.ancestors =~= Seq::new(e.ancestors.len() as nat, |i: int| e.ancestors@[i]@));
    if has_ancestor_bonus(&e.ancestors) {
        out += 2;
    }
    out
}

/// The source of an `<img>`.
pub fn source_of(e: &Element) -> (out: String)
    ensures
        out@ == image_source(e@),
{
    let first = e.attr_text(0);
    if first.as_str().unicode_len() > 0 {
        return first;
    }
    let second = e.attr_text(1);
    if second.as_str().unicode_len() > 0 {
        return second;
    }
    e.attr_text(2)
}

/// What is made of one `<img>` of the page at `base_url`.
pub fn judge_image(base_url: &str, e: &Element) -> (out: Option<ImageInfo>)
    ensures
        match out {
            Some(img) => image_of(base_url@, e@) == Some(img@),
            None => image_of(base_url@, e@) is None,
        },
{
    let raw = source_of(e);
    if raw.as_str().unicode_len() == 0 {
        return None;
    }
    let src = match resolve_url(base_url, raw.as_str()) {
        Some(full) => full,
        None => raw,
    };
    let lower = chars_of(lowercase(src.as_str()).as_str());
    if excluded(&lower) || is_too_small(e) {
        return None;
    }
    let points = score(e, &lower);
    if points < MIN_SCORE {
        return None;
    }
    Some(ImageInfo { src, alt: e.attr_text(5), score: points })
}

fn copy_image(img: &ImageInfo) -> (out: ImageInfo)
    ensures
        out@ == img@,
{
    ImageInfo { src: img.src.clone(), alt: img.alt.clone(), score: img.score }
}

fn append_with_score(out: &mut Vec<ImageInfo>, list: &Vec<ImageInfo>, s: i32)
    ensures
        image_views(final(out)@) == image_views(old(out)@) + with_score(
            image_views(list@),
            s as int,
        ),
{
    let ghost all = image_views(list@);
    let ghost before = image_views(out@);
    let mut i: usize = 0;
    assert(all.take(0) == Seq::<ImageModel>::empty());
    assert(before + Seq::<ImageModel>::empty() == before);
    while i < list.len()
        invariant
            i <= list.len(),
            all == image_views(list@),
            image_views(out@) == before + with_score(all.take(i as int), s as int),
        decreases list.len() - i,
    {
        assert(all.take(i + 1).drop_last() == all.take(i as int));
        assert(all.take(i + 1).last() == list@[i as int]@);
        if list[i].score == s {
            let ghost shown = image_views(out@);
            out.push(copy_image(&list[i]));
            assert(image_views(out@) =~= shown.push(list@[i as int]@));
            assert(shown.push(list@[i as int]@) =~= before + with_score(
                all.take(i as int),
                s as int,
            ).push(list@[i as int]@));
        }
        i += 1;
    }
    assert(all.take(list.len() as int) == all);
}

/// Orders images by score, the higher first, and keeps the order among
/// images of one score.
pub fn order_by_score(list: &Vec<ImageInfo>) -> (out: Vec<ImageInfo>)
    ensures
        image_views(out@) == by_score_from(image_views(list@), TOP_SCORE as int),
{
    let ghost all = image_views(list@);
    let mut out: Vec<ImageInfo> = Vec::new();
    let mut s: i32 = MIN_SCORE;
    assert(image_views(out@) =~= by_score_from(all, MIN_SCORE - 1));
    while s <= TOP_SCORE
        invariant
            MIN_SCORE <= s <= TOP_SCORE + 1,
            all == image_views(list@),
            image_views(out@) == by_score_from(all, s - 1),
        decreases TOP_SCORE + 1 - s,
    {
        let mut next: Vec<ImageInfo> = Vec::new();
        assert(image_views(next@) =~= Seq::<ImageModel>::empty());
        append_with_score(&mut next, list, s);
        let ghost head = image_views(next@);
        let ghost tail = image_views(out@);
        assert(head =~= with_score(all, s as int));
        next.append(&mut out);
        assert(image_views(next@) =~= head + tail);
        out = next;
        s += 1;
    }
    out
}

/// The ranked images of the page at `base_url`, given its `<img>` elements.
pub fn rank_images(base_url: &str, elements: &Vec<Element>) -> (out: Vec<ImageInfo>)
    ensures
        image_views(out@) == ranked_images(base_url@, element_views(elements@)),
{
    let ghost all = element_views(elements@);
    let ghost pick = image_picker(base_url@);
    let n: usize = if elements.len() <= MAX_IMG_ELEMENTS {
        elements.len()
    } else {
        MAX_IMG_ELEMENTS
    };
    let mut kept: Vec<ImageInfo> = Vec::new();
    let mut i: usize = 0;
    assert(all.take(0) == Seq::<ElementModel>::empty());
    assert(image_views(kept@) =~= Seq::<ImageModel>::empty());
    while i < n
        invariant
            i <= n <= elements.len(),
            all == element_views(elements@),
            pick == image_picker(base_url@),
            image_views(kept@) == picked(all.take(i as int), pick),
        decreases n - i,
    {
        assert(all.take(i + 1).drop_last() == all.take(i as int));
        assert(all.take(i + 1).last() == elements@[i as int]@);
        if let Some(img) = judge_image(base_url, &elements[i]) {
            let ghost shown = image_views(kept@);
            kept.push(img);
            assert(image_views(kept@) =~= shown.push(img@));
        }
        i += 1;
    }
    assert(all.take(elements.len() as int) == all);
    let mut out = order_by_score(&kept);
    if out.len() > MAX_RANKED {
        let ghost whole = image_views(out@);
        out.truncate(MAX_RANKED);
        assert(image_views(out@) =~= whole.take(MAX_RANKED as int));
    }
    out
}

/// The URL that an item of an `image` field names: a text itself, of an
/// object its `contentUrl`, else its `url`, where these are texts.
pub open spec fn image_ref(v: Json) -> Option<Seq<char>> {
    match v {
        Json::Text(t) => Some(t),
        Json::Object(_) => match text_member(v, "contentUrl"@) {
            Some(u) => Some(u),
            None => text_member(v, "url"@),
        },
        _ => None,
    }
}

pub open spec fn ref_picker() -> spec_fn(Json) -> Option<Seq<char>> {
    |v: Json| image_ref(v)
}

/// The URLs that an `image` field names: those of its items where it is an
/// array, else the one it names itself.
pub open spec fn images_in_field(v: Json) -> Seq<Seq<char>> {
    match v {
        Json::Array(items) => picked(items, ref_picker()),
        _ => listed(image_ref(v)),
    }
}

/// The URLs that the `image` field of a JSON-LD object names.
pub open spec fn images_of_object(v: Json) -> Seq<Seq<char>> {
    if v is Object {
        match member(v, "image"@) {
            Some(field) => images_in_field(field),
            None => Seq::empty(),
        }
    } else {
        Seq::empty()
    }
}

/// The URLs that the JSON-LD objects of a page name, object after object.
pub open spec fn linked_images(objects: Seq<Json>) -> Seq<Seq<char>>
    decreases objects.len(),
{
    if objects.len() == 0 {
        Seq::empty()
    } else {
        linked_images(objects.drop_last()) + images_of_object(objects.last())
    }
}

fn image_ref_of(v: &JsonValue) -> (out: Option<String>)
    ensures
        match out {
            Some(t) => image_ref(v@) == Some(t@),
            None => image_ref(v@) is None,
        },
{
    match v {
        JsonValue::Text(t) => Some(t.clone()),
        JsonValue::Object(_) => match v.text_at("contentUrl") {
            Some(u) => Some(u.clone()),
            None => match v.text_at("url") {
                Some(u) => Some(u.clone()),
                None => None,
            },
        },
        _ => None,
    }
}

fn images_in(v: &JsonValue) -> (out: Vec<String>)
    ensures
        views(out@) == images_in_field(v@),
{
    let mut out: Vec<String> = Vec::new();
    assert(views(out@) =~= Seq::<Seq<char>>::empty());
    match v.as_items() {
        Some(items) => {
            let ghost all = trees(items@);
            let ghost pick = ref_picker();
            let mut i: usize = 0;
            assert(all.take(0) == Seq::<Json>::empty());
            while i < items.len()
                invariant
                    i <= items.len(),
                    all == trees(items@),
                    pick == ref_picker(),
                    views(out@) == picked(all.take(i as int), pick),
                decreases items.len() - i,
            {
                assert(all.take(i + 1).drop_last() == all.take(i as int));
                assert(all.take(i + 1).last() == items@[i as int]@);
                if let Some(u) = image_ref_of(&items[i]) {
                    let ghost shown = views(out@);
                    out.push(u);
                    assert(views(out@) =~= shown.push(u@));
                }
                i += 1;
            }
            assert(all.take(items.len() as int) == all);
            out
        },
        None => {
            if let Some(u) = image_ref_of(v) {
                out.push(u);
                assert(views(out@) =~= seq![u@]);
            }
            out
        },
    }
}

/// The URLs that the JSON-LD objects of a page name.
pub fn flatten_json_ld_images(objects: &Vec<JsonValue>) -> (out: Vec<String>)
    ensures
        views(out@) == linked_images(trees(objects@)),
{
    let ghost all = trees(objects@);
    let mut out: Vec<String> = Vec::new();
    let mut i: usize = 0;
    assert(all.take(0) == Seq::<Json>::empty());
    assert(views(out@) =~= Seq::<Seq<char>>::empty());
    while i < objects.len()
        invariant
            i <= objects.len(),
            all == trees(objects@),
            views(out@) == linked_images(all.take(i as int)),
        decreases objects.len() - i,
    {
        assert(all.take(i + 1).drop_last() == all.take(i as int));
        assert(all.take(i + 1).last() == objects@[i as int]@);
        let ghost shown = views(out@);
        let mut found: Vec<String> = Vec::new();
        assert(views(found@) =~= Seq::<Seq<char>>::empty());
        if let JsonValue::Object(_) = &objects[i] {
            if let Some(field) = objects[i].get("image") {
                found = images_in(field);
            }
        }
        let ghost more = views(found@);
        out.append(&mut found);
        assert(views(out@) =~= shown + more);
        i += 1;
    }
    assert(all.take(objects.len() as int) == all);
    out
}

/// The image that a preload link names: where its `as` is `image` and its
/// `href` is not empty, the `href` resolved against the page, if that can
/// be done and the result ends, in lower case, in the extension of an
/// image. The attributes asked for are `as` and `href`.
pub open spec fn preload_of(base: Seq<char>, e: ElementModel) -> Option<Seq<char>> {
    if attr_or_empty(e, 0) == "image"@ && attr_or_empty(e, 1).len() > 0 {
        match resolved_url(base, attr_or_empty(e, 1)) {
            Some(full) => if regex_matches(IMAGE_EXT_PATTERN@, lowercased(full)) {
                Some(full)
            } else {
                None
            },
            None => None,
        }
    } else {
        None
    }
}

pub open spec fn preload_picker(base: Seq<char>) -> spec_fn(ElementModel) -> Option<Seq<char>> {
    |e: ElementModel| preload_of(base, e)
}

/// The images that the preload links of a page name.
pub open spec fn preload_images(base: Seq<char>, links: Seq<ElementModel>) -> Seq<Seq<char>> {
    picked(links, preload_picker(base))
}

fn preload_from(base_url: &str, e: &Element) -> (out: Option<String>)
    ensures
        match out {
            Some(t) => preload_of(base_url@, e@) == Some(t@),
            None => preload_of(base_url@, e@) is None,
        },
{
    let kind = e.attr_text(0);
    let href = e.attr_text(1);
    if !text_eq(kind.as_str(), "image") || href.as_str().unicode_len() == 0 {
        return None;
    }
    match resolve_url(base_url, href.as_str()) {
        Some(full) => {
            if is_match(IMAGE_EXT_PATTERN, lowercase(full.as_str()).as_str()) {
                Some(full)
            } else {
                None
            }
        },
        None => None,
    }
}

/// The images that the preload links of the page at `base_url` name.
pub fn collect_preload_images(base_url: &str, links: &Vec<Element>) -> (out: Vec<String>)
    ensures
        views(out@) == preload_images(base_url@, element_views(links@)),
{
    let ghost all = element_views(links@);
    let ghost pick = preload_picker(base_url@);
    let mut out: Vec<String> = Vec::new();
    let mut i: usize = 0;
    assert(all.take(0) == Seq::<ElementModel>::empty());
    assert(views(out@) =~= Seq::<Seq<char>>::empty());
    while i < links.len()
        invariant
            i <= links.len(),
            all == element_views(links@),
            pick == preload_picker(base_url@),
            views(out@) == picked(all.take(i as int), pick),
        decreases links.len() - i,
    {
        assert(all.take(i + 1).drop_last() == all.take(i as int));
        assert(all.take(i + 1).last() == links@[i as int]@);
        if let Some(u) = preload_from(base_url, &links[i]) {
            let ghost shown = views(out@);
            out.push(u);
            assert(views(out@) =~= shown.push(u@));
        }
        i += 1;
    }
    assert(all.take(links.len() as int) == all);
    out
}

/// The images of a page: all that were found, without the empty ones and
/// without repeats, in the order in which they were found.
pub fn unique_images(found: &Vec<String>) -> (out: Vec<String>)
    ensures
        views(out@) == distinct_nonempty(views(found@)),
{
    let ghost all = views(found@);
    let mut out: Vec<String> = Vec::new();
    let mut i: usize = 0;
    assert(all.take(0) == Seq::<Seq<char>>::empty());
    assert(views(out@) =~= Seq::<Seq<char>>::empty());
    while i < found.len()
        invariant
            i <= found.len(),
            all == views(found@),
            views(out@) == distinct_nonempty(all.take(i as int)),
        decreases found.len() - i,
    {
        assert(all.take(i + 1) == all.take(i as int).push(found@[i as int]@));
        push_distinct(&mut out, found[i].clone(), Ghost(all.take(i as int)));
        i += 1;
    }
    assert(all.take(found.len() as int) == all);
    out
}

/// The sources of a list of judged images.
pub fn sources_of(list: &Vec<ImageInfo>) -> (out: Vec<String>)
    ensures
        views(out@) == sources(image_views(list@)),
{
    let mut out: Vec<String> = Vec::new();
    let mut i: usize = 0;
    while i < list.len()
        invariant
            i <= list.len(),
            out.len() == i,
            forall|k: int| 0 <= k < i ==> out@[k]@ == list@[k].src@,
        decreases list.len() - i,
    {
        out.push(list[i].src.clone());
        i += 1;
    }
    assert(views(out@) =~= sources(image_views(list@)));
    out
}

} // verus!
