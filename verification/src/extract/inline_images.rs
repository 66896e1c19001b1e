//! Image URLs that stand in the data which a page hands to its scripts.

use crate::dom::{attr, element_views, whole_text, Element, ElementModel};
use crate::json::{parse_json, parsed_json, Json, JsonValue};
use crate::patterns::{find_matches, first_groups, opt_views, regex_captured, regex_found};
use crate::text::{chars_of, contains, has, replace_all, replaced, text_of, views};
use vstd::prelude::*;
use vstd::string::StringExecFns;

verus! {

/// The body of an array under the key `image` or `images`.
pub const IMAGES_PATTERN: &'static str = r#""images?"\s*:\s*\[([^\]]+)\]"#;

/// The body of an array under the key `imageUrl` or `imageUrls`.
pub const IMAGE_URLS_PATTERN: &'static str = r#""imageUrls?"\s*:\s*\[([^\]]+)\]"#;

/// The body of an array under the key `img`.
pub const IMG_PATTERN: &'static str = r#""img"\s*:\s*\[([^\]]+)\]"#;

/// An http or https URL that ends in the extension of an image.
pub const IMAGE_URL_PATTERN: &'static str = r#"https?://[^"']+\.(?:jpg|jpeg|png|webp)"#;

/// The fewest characters of script text that are looked at.
pub const MIN_SCRIPT_CHARS: usize = 500;

/// Whether a script text names one of the stores of page data.
pub open spec fn has_marker(content: Seq<char>) -> bool {
    ||| contains(content, "window.INITIAL_STATE"@)
    ||| contains(content, "window.__INITIAL_DATA__"@)
    ||| contains(content, "window.__NEXT_DATA__"@)
    ||| contains(content, "window.__PRODUCT_DATA__"@)
    ||| contains(content, "__INITIAL_STATE__"@)
}

/// Whether a script is looked at: it has no `type` attribute (the one
/// attribute asked for), at least 500 characters of text, and a marker.
pub open spec fn considered(e: ElementModel) -> bool {
    &&& attr(e, 0) is None
    &&& whole_text(e).len() >= MIN_SCRIPT_CHARS
    &&& has_marker(whole_text(e))
}

/// The body of an array with the escapes of a JSON string resolved; the body
/// as it is where it is no JSON string between quotes.
pub open spec fn decoded(body: Seq<char>) -> Seq<char> {
    match parsed_json(seq!['"'] + body + seq!['"']) {
        Some(Json::Text(t)) => t,
        _ => body,
    }
}

/// A URL with the token `__IMAGE_PARAMS__` replaced by `f_auto`.
pub open spec fn with_params(url: Seq<char>) -> Seq<char> {
    replaced(url, "__IMAGE_PARAMS__"@, "f_auto"@)
}

/// The image URLs in the body of an array, in order.
pub open spec fn urls_in(body: Seq<char>) -> Seq<Seq<char>> {
    let found = regex_found(IMAGE_URL_PATTERN@, decoded(body));
    Seq::new(found.len(), |i: int| with_params(found[i]))
}

/// The image URLs in what the first group has captured, match after match.
pub open spec fn urls_of_captures(captures: Seq<Option<Seq<char>>>) -> Seq<Seq<char>>
    decreases captures.len(),
{
    if captures.len() == 0 {
        Seq::empty()
    } else {
        urls_of_captures(captures.drop_last()) + match captures.last() {
            Some(body) => urls_in(body),
            None => Seq::empty(),
        }
    }
}

/// The image URLs that one pattern finds in a script text.
pub open spec fn urls_by_pattern(content: Seq<char>, pattern: Seq<char>) -> Seq<Seq<char>> {
    urls_of_captures(regex_captured(pattern, content))
}

/// The image URLs in a script text: those of the three patterns, one
/// pattern after the other. A URL may stand more than once.
pub open spec fn inline_images_in(content: Seq<char>) -> Seq<Seq<char>> {
    urls_by_pattern(content, IMAGES_PATTERN@) + urls_by_pattern(content, IMAGE_URLS_PATTERN@)
        + urls_by_pattern(content, IMG_PATTERN@)
}

/// The image URLs in the scripts of a page that are looked at.
pub open spec fn inline_images_of(scripts: Seq<ElementModel>) -> Seq<Seq<char>>
    decreases scripts.len(),
{
    if scripts.len() == 0 {
        Seq::empty()
    } else {
        inline_images_of(scripts.drop_last()) + if considered(scripts.last()) {
            inline_images_in(whole_text(scripts.last()))
        } else {
            Seq::empty()
        }
    }
}

fn marked(content: &Vec<char>) -> (r: bool)
    ensures
        r == has_marker(content@),
{
    has(content, &chars_of("window.INITIAL_STATE")) || has(
        content,
        &chars_of("window.__INITIAL_DATA__"),
    ) || has(content, &chars_of("window.__NEXT_DATA__")) || has(
        content,
        &chars_of("window.__PRODUCT_DATA__"),
    ) || has(content, &chars_of("__INITIAL_STATE__"))
}

fn decode(body: &String) -> (out: String)
    ensures
        out@ == decoded(body@),
{
    let mut quoted = String::new();
    proof {
        reveal_strlit("\"");
    }
    quoted.append("\"");
    quoted.append(body.as_str());
    quoted.append("\"");
    assert(quoted@ =~= seq!['"'] + body@ + seq!['"']);
    match parse_json(quoted.as_str()) {
        Some(JsonValue::Text(t)) => t,
        _ => body.clone(),
    }
}

/// Appends a list of texts to another.
pub fn extend_texts(out: &mut Vec<String>, more: Vec<String>)
    ensures
        views(final(out)@) == views(old(out)@) + views(more@),
{
    let ghost before = views(out@);
    let mut more = more;
    let ghost added = views(more@);
    out.append(&mut more);
    assert(views(out@) =~= before + added);
}

fn urls_of(body: &String) -> (out: Vec<String>)
    ensures
        views(out@) == urls_in(body@),
{
    let text = decode(body);
    let found = find_matches(IMAGE_URL_PATTERN, text.as_str());
    let token = chars_of("__IMAGE_PARAMS__");
    let auto = chars_of("f_auto");
    let mut out: Vec<String> = Vec::new();
    let mut i: usize = 0;
    while i < found.len()
        invariant
            i <= found.len(),
            out.len() == i,
            token@ == "__IMAGE_PARAMS__"@,
            auto@ == "f_auto"@,
            forall|k: int| 0 <= k < i ==> out@[k]@ == with_params(found@[k]@),
        decreases found.len() - i,
    {
        out.push(text_of(&replace_all(&chars_of(found[i].as_str()), &token, &auto)));
        i += 1;
    }
    assert(views(out@) =~= urls_in(body@));
    out
}

fn urls_found_by(content: &str, pattern: &str) -> (out: Vec<String>)
    ensures
        views(out@) == urls_by_pattern(content@, pattern@),
{
    let captures = first_groups(pattern, content);
    let ghost all = opt_views(captures@);
    let mut out: Vec<String> = Vec::new();
    let mut i: usize = 0;
    assert(all.take(0) == Seq::<Option<Seq<char>>>::empty());
    assert(views(out@) =~= Seq::<Seq<char>>::empty());
    while i < captures.len()
        invariant
            i <= captures.len(),
            all == opt_views(captures@),
            views(out@) == urls_of_captures(all.take(i as int)),
        decreases captures.len() - i,
    {
        assert(all.take(i + 1).drop_last() == all.take(i as int));
        assert(all.take(i + 1).last() == all[i as int]);
        let ghost shown = views(out@);
        match &captures[i] {
            Some(body) => {
                extend_texts(&mut out, urls_of(body));
            },
            None => {
                assert(shown + Seq::<Seq<char>>::empty() == shown);
            },
        }
        i += 1;
    }
    assert(all.take(captures.len() as int) == all);
    out
}

/// The image URLs in a script text.
pub fn inline_images_from(content: &str) -> (out: Vec<String>)
    ensures
        views(out@) == inline_images_in(content@),
{
    let mut out = urls_found_by(content, IMAGES_PATTERN);
    extend_texts(&mut out, urls_found_by(content, IMAGE_URLS_PATTERN));
    extend_texts(&mut out, urls_found_by(content, IMG_PATTERN));
    out
}

/// The image URLs in the scripts of a page that are looked at.
pub fn collect_inline_images(scripts: &Vec<Element>) -> (out: Vec<String>)
    ensures
        views(out@) == inline_images_of(element_views(scripts@)),
{
    let ghost all = element_views(scripts@);
    let mut out: Vec<String> = Vec::new();
    let mut i: usize = 0;
    assert(all.take(0) == Seq::<ElementModel>::empty());
    assert(views(out@) =~= Seq::<Seq<char>>::empty());
    while i < scripts.len()
        invariant
            i <= scripts.len(),
            all == element_views(scripts@),
            views(out@) == inline_images_of(all.take(i as int)),
        decreases scripts.len() - i,
    {
        assert(all.take(i + 1).drop_last() == all.take(i as int));
        assert(all.take(i + 1).last() == scripts@[i as int]@);
        let ghost shown = views(out@);
        let mut taken = false;
        if scripts[i].attr_at(0).is_none() {
            let content = scripts[i].whole_text();
            let chars = chars_of(content.as_str());
            if chars.len() >= MIN_SCRIPT_CHARS && marked(&chars) {
                extend_texts(&mut out, inline_images_from(content.as_str()));
                taken = true;
            }
        }
        if !taken {
            assert(shown + Seq::<Seq<char>>::empty() == shown);
        }
        i += 1;
    }
    assert(all.take(scripts.len() as int) == all);
    out
}

} // verus!
