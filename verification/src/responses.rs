//! What the language model answers: the text of a reply, freed of its code
//! fence, read as JSON and turned into a payload for the merge.

use crate::json::{
    item, member, parse_json, parsed_json, text_member, text_of_tree, Field, Json, JsonValue,
};
use crate::merge::Payload;
use crate::patterns::{regex_replaced, replace_matches};
use crate::text::{
    begins_with, chars_of, ends_with, finishes_with, starts_with, text_of, trim, trimmed,
};
use vstd::prelude::*;

verus! {

/// A comma before a closing bracket or brace, with the white space between them.
pub const TRAILING_COMMA_PATTERN: &'static str = r",(\s*[}\]])";

/// The member `key` of a tree that may be absent.
pub open spec fn then_member(tree: Option<Json>, key: Seq<char>) -> Option<Json> {
    match tree {
        Some(t) => member(t, key),
        None => None,
    }
}

/// The first item of a tree that may be absent.
pub open spec fn then_first(tree: Option<Json>) -> Option<Json> {
    match tree {
        Some(t) => item(t, 0),
        None => None,
    }
}

/// The text of a reply: `candidates[0].content.parts[0].text`, where all of
/// this is there and the last is a text.
pub open spec fn reply_text(reply: Json) -> Option<Seq<char>> {
    let part = then_first(
        then_member(then_member(then_first(member(reply, "candidates"@)), "content"@), "parts"@),
    );
    match then_member(part, "text"@) {
        Some(t) => text_of_tree(t),
        None => None,
    }
}

/// A text without the code fence around it: trimmed; where it then begins
/// with three backticks, without them and without a `json` tag behind them,
/// without three backticks at its end, and trimmed again.
pub open spec fn unfenced(raw: Seq<char>) -> Seq<char> {
    let t = trimmed(raw);
    if starts_with(t, "```"@) {
        let open = if starts_with(t, "```json"@) {
            t.skip(7)
        } else {
            t.skip(3)
        };
        let inner = if ends_with(open, "```"@) {
            open.take(open.len() - 3)
        } else {
            open
        };
        trimmed(inner)
    } else {
        t
    }
}

/// A JSON text with the commas before closing brackets and braces taken out.
pub open spec fn repaired(text: Seq<char>) -> Seq<char> {
    regex_replaced(TRAILING_COMMA_PATTERN@, text, "$1"@)
}

/// The tree that a text is read as: as it stands, or, where that fails,
/// after one repair.
pub open spec fn lenient_tree(text: Seq<char>) -> Option<Json> {
    match parsed_json(text) {
        Some(t) => Some(t),
        None => parsed_json(repaired(text)),
    }
}

/// The fields that say the page is a product page: `is_product_page` is
/// there and is `true`.
pub open spec fn is_product_page(tree: Json) -> bool {
    member(tree, "is_product_page"@) == Some(Json::Bool(true))
}

/// The field `key` of `tree` as a payload field, where it is a text.
pub open spec fn text_field(tree: Json, key: Seq<char>, name: Seq<char>) -> Seq<Field> {
    match text_member(tree, key) {
        Some(t) => seq![Field { key: name, value: Json::Text(t) }],
        None => Seq::empty(),
    }
}

/// The field `key` of `tree` as a payload field, whatever it is.
pub open spec fn any_field(tree: Json, key: Seq<char>) -> Seq<Field> {
    match member(tree, key) {
        Some(v) => seq![Field { key, value: v }],
        None => Seq::empty(),
    }
}

/// The field `key` of `tree` as a payload field, where it is an array.
pub open spec fn array_field(tree: Json, key: Seq<char>) -> Seq<Field> {
    match member(tree, key) {
        Some(Json::Array(items)) => seq![Field { key, value: Json::Array(items) }],
        _ => Seq::empty(),
    }
}

/// The payload of a full extraction: nothing unless the page is a product
/// page; else name, brand and garment type where they are texts, the price
/// as it stands, and the image list where it is an array.
pub open spec fn extraction_fields(tree: Json) -> Option<Seq<Field>> {
    if is_product_page(tree) {
        Some(
            text_field(tree, "product_name"@, "product_name"@) + text_field(
                tree,
                "brand"@,
                "brand"@,
            ) + any_field(tree, "price"@) + text_field(tree, "garment_type"@, "garment_type"@)
                + array_field(tree, "image_urls"@),
        )
    } else {
        None
    }
}

/// The tree that a reply text is read as: without its code fence, as JSON,
/// after one repair where it does not parse as it stands.
pub open spec fn reply_tree(raw: Seq<char>) -> Option<Json> {
    lenient_tree(unfenced(raw))
}

/// The payload that the reply text of a full extraction yields.
pub open spec fn extraction_of(raw: Seq<char>) -> Option<Seq<Field>> {
    match reply_tree(raw) {
        Some(tree) => extraction_fields(tree),
        None => None,
    }
}

/// The payload that the reply text of a fast classification yields.
/// Nothing where the reply is no JSON.
pub open spec fn fast_classification_of(raw: Seq<char>) -> Option<Seq<Field>> {
    match reply_tree(raw) {
        Some(tree) => Some(fast_classification_fields(tree)),
        None => None,
    }
}

/// The payload of a fast classification: the garment type that the reply
/// names, `unsupported` where it names none.
pub open spec fn fast_classification_fields(tree: Json) -> Seq<Field> {
    seq![
        Field {
            key: "garment_type"@,
            value: Json::Text(
                match text_member(tree, "garment_type"@) {
                    Some(t) => t,
                    None => "unsupported"@,
                },
            ),
        },
    ]
}

/// The payload of a classification by title: name, brand and garment type
/// where they are texts; nothing where the reply names none of them.
pub open spec fn classification_fields(tree: Json) -> Option<Seq<Field>> {
    let fields = text_field(tree, "name"@, "name"@) + text_field(tree, "brand"@, "brand"@)
        + text_field(tree, "garment_type"@, "garment_type"@);
    if fields.len() == 0 {
        None
    } else {
        Some(fields)
    }
}

/// The payload that the reply text of a classification by title yields.
/// Nothing where the reply is no JSON or names none of the three fields.
pub open spec fn classification_of(raw: Seq<char>) -> Option<Seq<Field>> {
    match reply_tree(raw) {
        Some(tree) => classification_fields(tree),
        None => None,
    }
}

fn then_get<'a>(tree: Option<&'a JsonValue>, key: &str) -> (out: Option<&'a JsonValue>)
    ensures
        match out {
            Some(v) => then_member(
                match tree {
                    Some(t) => Some(t@),
                    None => None,
                },
                key@,
            ) == Some(v@),
            None => then_member(
                match tree {
                    Some(t) => Some(t@),
                    None => None,
                },
                key@,
            ) is None,
        },
{
    match tree {
        Some(t) => t.get(key),
        None => None,
    }
}

fn then_head<'a>(tree: Option<&'a JsonValue>) -> (out: Option<&'a JsonValue>)
    ensures
        match out {
            Some(v) => then_first(
                match tree {
                    Some(t) => Some(t@),
                    None => None,
                },
            ) == Some(v@),
            None => then_first(
                match tree {
                    Some(t) => Some(t@),
                    None => None,
                },
            ) is None,
        },
{
    match tree {
        Some(t) => t.at(0),
        None => None,
    }
}

/// The text of a reply.
pub fn response_text(reply: &JsonValue) -> (out: Option<&String>)
    ensures
        match out {
            Some(t) => reply_text(reply@) == Some(t@),
            None => reply_text(reply@) is None,
        },
{
    let candidate = then_head(reply.get("candidates"));
    let parts = then_get(then_get(candidate, "content"), "parts");
    match then_get(then_head(parts), "text") {
        Some(t) => t.as_text(),
        None => None,
    }
}

fn slice(s: &Vec<char>, from: usize, to: usize) -> (out: Vec<char>)
    requires
        from <= to <= s.len(),
    ensures
        out@ == s@.subrange(from as int, to as int),
{
    let mut out: Vec<char> = Vec::new();
    let mut i: usize = from;
    while i < to
        invariant
            from <= i <= to <= s.len(),
            out@ == s@.subrange(from as int, i as int),
        decreases to - i,
    {
        out.push(s[i]);
        assert(s@.subrange(from as int, i + 1) == s@.subrange(from as int, i as int).push(
            s@[i as int],
        ));
        i += 1;
    }
    out
}

/// A text without the code fence around it.
pub fn strip_code_fence(raw: &str) -> (out: String)
    ensures
        out@ == unfenced(raw@),
{
    let t = trim(&chars_of(raw));
    let fence = chars_of("```");
    let tagged = chars_of("```json");
    proof {
        reveal_strlit("```");
        reveal_strlit("```json");
    }
    if begins_with(&t, &fence) {
        let from: usize = if begins_with(&t, &tagged) { 7 } else { 3 };
        let open = slice(&t, from, t.len());
        assert(open@ == t@.skip(from as int));
        let inner = if finishes_with(&open, &fence) {
            let cut = slice(&open, 0, open.len() - 3);
            assert(cut@ == open@.take(open.len() - 3));
            cut
        } else {
            open
        };
        text_of(&trim(&inner))
    } else {
        text_of(&t)
    }
}

/// A JSON text with the commas before closing brackets and braces taken out.
pub fn repair_trailing_commas(text: &str) -> (out: String)
    ensures
        out@ == repaired(text@),
{
    replace_matches(TRAILING_COMMA_PATTERN, text, "$1")
}

/// Reads a text as JSON, after one repair where it does not parse as it stands.
pub fn parse_lenient(text: &str) -> (out: Option<JsonValue>)
    ensures
        match out {
            Some(v) => lenient_tree(text@) == Some(v@),
            None => lenient_tree(text@) is None,
        },
{
    match parse_json(text) {
        Some(v) => Some(v),
        None => parse_json(repair_trailing_commas(text).as_str()),
    }
}

fn push_text(out: &mut Payload, tree: &JsonValue, key: &str, name: &str)
    ensures
        final(out)@ == old(out)@ + text_field(tree@, key@, name@),
{
    match tree.text_at(key) {
        Some(t) => {
            out.push(name.to_string(), JsonValue::Text(t.clone()));
            assert(out@ =~= old(out)@ + text_field(tree@, key@, name@));
        },
        None => {
            assert(out@ =~= old(out)@ + text_field(tree@, key@, name@));
        },
    }
}

/// The payload of a full extraction.
pub fn extraction_payload(tree: &JsonValue) -> (out: Option<Payload>)
    ensures
        match out {
            Some(p) => extraction_fields(tree@) == Some(p@),
            None => extraction_fields(tree@) is None,
        },
{
    let product_page = match tree.get("is_product_page") {
        Some(v) => v.as_bool(),
        None => None,
    };
    if product_page != Some(true) {
        return None;
    }
    let mut out = Payload::new();
    push_text(&mut out, tree, "product_name", "product_name");
    push_text(&mut out, tree, "brand", "brand");
    let ghost before = out@;
    match tree.get("price") {
        Some(v) => {
            out.push("price".to_string(), v.copy());
        },
        None => {},
    }
    assert(out@ =~= before + any_field(tree@, "price"@));
    push_text(&mut out, tree, "garment_type", "garment_type");
    let ghost before = out@;
    match tree.get("image_urls") {
        Some(v) => match v {
            JsonValue::Array(_) => {
                out.push("image_urls".to_string(), v.copy());
            },
            _ => {},
        },
        None => {},
    }
    assert(out@ =~= before + array_field(tree@, "image_urls"@));
    Some(out)
}

/// Reads a reply text: without its code fence, as JSON, after one repair
/// where it does not parse as it stands.
pub fn parse_reply(raw: &str) -> (out: Option<JsonValue>)
    ensures
        match out {
            Some(v) => reply_tree(raw@) == Some(v@),
            None => reply_tree(raw@) is None,
        },
{
    parse_lenient(strip_code_fence(raw).as_str())
}

/// The payload that the reply text of a full extraction yields.
pub fn decode_extraction(raw: &str) -> (out: Option<Payload>)
    ensures
        match out {
            Some(p) => extraction_of(raw@) == Some(p@),
            None => extraction_of(raw@) is None,
        },
{
    match parse_reply(raw) {
        Some(tree) => extraction_payload(&tree),
        None => None,
    }
}

/// The payload that the reply text of a fast classification yields.
pub fn decode_fast_classification(raw: &str) -> (out: Option<Payload>)
    ensures
        match out {
            Some(p) => fast_classification_of(raw@) == Some(p@),
            None => fast_classification_of(raw@) is None,
        },
{
    match parse_reply(raw) {
        Some(tree) => Some(fast_classification_payload(&tree)),
        None => None,
    }
}

/// The payload of a fast classification.
pub fn fast_classification_payload(tree: &JsonValue) -> (out: Payload)
    ensures
        out@ == fast_classification_fields(tree@),
{
    let garment = match tree.text_at("garment_type") {
        Some(t) => t.clone(),
        None => "unsupported".to_string(),
    };
    let mut out = Payload::new();
    out.push("garment_type".to_string(), JsonValue::Text(garment));
    assert(out@ =~= fast_classification_fields(tree@));
    out
}

/// The payload of a classification by title.
pub fn classification_payload(tree: &JsonValue) -> (out: Option<Payload>)
    ensures
        match out {
            Some(p) => classification_fields(tree@) == Some(p@),
            None => classification_fields(tree@) is None,
        },
{
    let mut out = Payload::new();
    push_text(&mut out, tree, "name", "name");
    push_text(&mut out, tree, "brand", "brand");
    push_text(&mut out, tree, "garment_type", "garment_type");
    assert(Seq::<Field>::empty() + text_field(tree@, "name"@, "name"@) == text_field(
        tree@,
        "name"@,
        "name"@,
    ));
    if out.fields.len() == 0 {
        None
    } else {
        Some(out)
    }
}

/// The payload that the reply text of a classification by title yields.
pub fn decode_classification(raw: &str) -> (out: Option<Payload>)
    ensures
        match out {
            Some(p) => classification_of(raw@) == Some(p@),
            None => classification_of(raw@) is None,
        },
{
    match parse_reply(raw) {
        Some(tree) => classification_payload(&tree),
        None => None,
    }
}

} // verus!
