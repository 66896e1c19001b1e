//! The search service and the remote worker: what is asked of them, and
//! what is taken from their answers.

use crate::json::{lemma_array_view, member, text_member, trees, Field, Json, JsonValue};
use crate::merge::Payload;
use crate::responses::{text_field, then_first, then_member};
use crate::seqs::{first_picked, lemma_first_picked_front};
use crate::urls::{
    clean_product_url, MAX_URL_CHARS, normalize_url_path, normalized_url, pair_views,
    percent_encode, percent_encoded, urls_match, urls_match_product, PairModel, QueryPair,
};
use crate::text::{opt_view};
use vstd::prelude::*;
use vstd::string::StringExecFns;
use vstd::utf8::encode_utf8;

verus! {

/// The address of the search service.
pub const SEARCH_ENDPOINT: &'static str = "https://serpapi.com/search";

/// The serialisation of the URL read from `text` after `key` and `value`
/// were appended to its query by `query_pairs_mut().append_pair`. `None`
/// where the text is no absolute URL.
pub uninterp spec fn url_with_pair(text: Seq<char>, key: Seq<char>, value: Seq<char>) -> Option<
    Seq<char>,
>;

/// `url::Url::parse`, then `query_pairs_mut` and `append_pair`, then the
/// serialisation. The bounds keep the URL within the 32 bits in which the
/// `url` crate counts.
#[verifier::external_body]
fn append_pair(text: &str, key: &str, value: &str) -> (out: Option<String>)
    requires
        text@.len() <= MAX_URL_CHARS,
        key@.len() <= MAX_URL_CHARS,
        value@.len() <= MAX_URL_CHARS,
    ensures
        opt_view(out) == url_with_pair(text@, key@, value@),
{
    let mut u = url::Url::parse(text).ok()?;
    u.query_pairs_mut().append_pair(key, value);
    Some(u.to_string())
}

/// The URL `url` with the pairs of `pairs` appended to its query, one after
/// the other. `None` where a URL on the way cannot be read, or where a text
/// on the way is longer than [`MAX_URL_CHARS`].
pub open spec fn with_pairs(url: Seq<char>, pairs: Seq<PairModel>) -> Option<Seq<char>>
    decreases pairs.len(),
{
    if pairs.len() == 0 {
        Some(url)
    } else {
        match with_pairs(url, pairs.drop_last()) {
            Some(front) => {
                let last = pairs.last();
                if front.len() > MAX_URL_CHARS || last.key.len() > MAX_URL_CHARS
                    || last.value.len() > MAX_URL_CHARS {
                    None
                } else {
                    url_with_pair(front, last.key, last.value)
                }
            },
            None => None,
        }
    }
}

/// The URL `url` with `pairs` appended to its query.
pub fn add_query_pairs(url: &str, pairs: &Vec<QueryPair>) -> (out: Option<String>)
    ensures
        opt_view(out) == with_pairs(url@, pair_views(pairs@)),
{
    let ghost all = pair_views(pairs@);
    let mut out = url.to_string();
    let mut i: usize = 0;
    assert(all.take(0) == Seq::<PairModel>::empty());
    while i < pairs.len()
        invariant
            i <= pairs.len(),
            all == pair_views(pairs@),
            with_pairs(url@, all.take(i as int)) == Some(out@),
        decreases pairs.len() - i,
    {
        assert(all.take(i + 1).drop_last() == all.take(i as int));
        assert(all.take(i + 1).last() == pairs@[i as int]@);
        let key = pairs[i].key.as_str();
        let value = pairs[i].value.as_str();
        if out.as_str().unicode_len() > MAX_URL_CHARS || key.unicode_len() > MAX_URL_CHARS
            || value.unicode_len() > MAX_URL_CHARS {
            proof {
                lemma_with_pairs_stays_none(url@, all, i + 1);
            }
            return None;
        }
        match append_pair(out.as_str(), key, value) {
            Some(next) => {
                out = next;
            },
            None => {
                proof {
                    lemma_with_pairs_stays_none(url@, all, i + 1);
                }
                return None;
            },
        }
        i += 1;
    }
    assert(all.take(pairs.len() as int) == all);
    Some(out)
}

/// Once appending has failed it has failed for every longer list.
pub proof fn lemma_with_pairs_stays_none(url: Seq<char>, pairs: Seq<PairModel>, i: int)
    requires
        0 <= i <= pairs.len(),
        with_pairs(url, pairs.take(i)) is None,
    ensures
        with_pairs(url, pairs) is None,
    decreases pairs.len(),
{
    if i == pairs.len() {
        assert(pairs.take(i) == pairs);
    } else {
        assert(pairs.drop_last().take(i) == pairs.take(i));
        lemma_with_pairs_stays_none(url, pairs.drop_last(), i);
    }
}

fn pair(key: &str, value: &str) -> (out: QueryPair)
    ensures
        out@ == (PairModel { key: key@, value: value@ }),
{
    QueryPair { key: key.to_string(), value: value.to_string() }
}

/// The parameters of a search: the engine, the query, the country `us`, the
/// language `en` and the key of the service.
pub open spec fn search_pairs(engine: Seq<char>, query: Seq<char>, api_key: Seq<char>) -> Seq<
    PairModel,
> {
    seq![
        PairModel { key: "engine"@, value: engine },
        PairModel { key: "q"@, value: query },
        PairModel { key: "gl"@, value: "us"@ },
        PairModel { key: "hl"@, value: "en"@ },
        PairModel { key: "api_key"@, value: api_key },
    ]
}

/// The parameters of a shopping search: those of a search on the engine
/// `google_shopping_light`, and the domain `google.com`.
pub open spec fn shopping_pairs(query: Seq<char>, api_key: Seq<char>) -> Seq<PairModel> {
    search_pairs("google_shopping_light"@, query, api_key).push(
        PairModel { key: "google_domain"@, value: "google.com"@ },
    )
}

/// The parameters of an image search: those of a search on the engine
/// `google_images_light`.
pub open spec fn image_pairs(query: Seq<char>, api_key: Seq<char>) -> Seq<PairModel> {
    search_pairs("google_images_light"@, query, api_key)
}

fn search_params(engine: &str, query: &str, api_key: &str) -> (out: Vec<QueryPair>)
    ensures
        pair_views(out@) == search_pairs(engine@, query@, api_key@),
{
    let mut out: Vec<QueryPair> = Vec::new();
    out.push(pair("engine", engine));
    out.push(pair("q", query));
    out.push(pair("gl", "us"));
    out.push(pair("hl", "en"));
    out.push(pair("api_key", api_key));
    assert(pair_views(out@) =~= search_pairs(engine@, query@, api_key@));
    out
}

/// The URL of a shopping search for `query`.
pub fn shopping_search_url(query: &str, api_key: &str) -> (out: Option<String>)
    ensures
        opt_view(out) == with_pairs(SEARCH_ENDPOINT@, shopping_pairs(query@, api_key@)),
{
    let mut params = search_params("google_shopping_light", query, api_key);
    let ghost shown = pair_views(params@);
    params.push(pair("google_domain", "google.com"));
    assert(pair_views(params@) =~= shown.push(
        PairModel { key: "google_domain"@, value: "google.com"@ },
    ));
    add_query_pairs(SEARCH_ENDPOINT, &params)
}

/// The URL of an image search for `query`.
pub fn image_search_url(query: &str, api_key: &str) -> (out: Option<String>)
    ensures
        opt_view(out) == with_pairs(SEARCH_ENDPOINT@, image_pairs(query@, api_key@)),
{
    add_query_pairs(SEARCH_ENDPOINT, &search_params("google_images_light", query, api_key))
}

/// The second query of a shopping search, which is tried where the answer
/// to the first holds no `shopping_results`: the normalised form of the
/// first query, where there is one and it differs.
pub open spec fn second_query(answer: Option<Json>, first: Seq<char>) -> Option<Seq<char>> {
    if then_member(answer, "shopping_results"@) is None {
        match normalized_url(first) {
            Some(n) => if n != first {
                Some(n)
            } else {
                None
            },
            None => None,
        }
    } else {
        None
    }
}

/// The view of a value that may be absent.
pub open spec fn opt_tree(v: Option<&JsonValue>) -> Option<Json> {
    match v {
        Some(t) => Some(t@),
        None => None,
    }
}

/// The second query of a shopping search, if one is to be tried.
pub fn shopping_retry_query(answer: Option<&JsonValue>, first: &str) -> (out: Option<String>)
    ensures
        opt_view(out) == second_query(opt_tree(answer), first@),
{
    let found = match answer {
        Some(a) => a.get("shopping_results").is_some(),
        None => false,
    };
    if found {
        return None;
    }
    match normalize_url_path(first) {
        Some(n) => {
            if crate::text::text_eq(n.as_str(), first) {
                None
            } else {
                Some(n)
            }
        },
        None => None,
    }
}

/// The first shopping result of an answer.
pub open spec fn first_result(answer: Json) -> Option<Json> {
    then_first(member(answer, "shopping_results"@))
}

/// The price of a result: its `price`, else its `extracted_price`, whatever it is.
pub open spec fn price_field(result: Json) -> Seq<Field> {
    match member(result, "price"@) {
        Some(v) => seq![Field { key: "price"@, value: v }],
        None => match member(result, "extracted_price"@) {
            Some(v) => seq![Field { key: "price"@, value: v }],
            None => Seq::empty(),
        },
    }
}

/// The payload of a shopping search: of the first result the title as the
/// product name, where it is a text, and the price. `None` where there is
/// no first result.
pub open spec fn shopping_fields(answer: Json) -> Option<Seq<Field>> {
    match first_result(answer) {
        Some(result) => Some(text_field(result, "title"@, "product_name"@) + price_field(result)),
        None => None,
    }
}

/// The first shopping result of an answer.
pub fn first_shopping_result(answer: &JsonValue) -> (out: Option<&JsonValue>)
    ensures
        opt_tree(out) == first_result(answer@),
{
    match answer.get("shopping_results") {
        Some(results) => results.at(0),
        None => None,
    }
}

/// The payload of a shopping search.
pub fn shopping_payload(answer: &JsonValue) -> (out: Option<Payload>)
    ensures
        match out {
            Some(p) => shopping_fields(answer@) == Some(p@),
            None => shopping_fields(answer@) is None,
        },
{
    match first_shopping_result(answer) {
        Some(result) => {
            let mut out = Payload::new();
            match result.text_at("title") {
                Some(t) => {
                    out.push("product_name".to_string(), JsonValue::Text(t.clone()));
                },
                None => {},
            }
            let ghost named = out@;
            assert(named =~= text_field(result@, "title"@, "product_name"@));
            let price = match result.get("price") {
                Some(v) => Some(v),
                None => result.get("extracted_price"),
            };
            match price {
                Some(v) => {
                    out.push("price".to_string(), v.copy());
                },
                None => {},
            }
            assert(out@ =~= named + price_field(result@));
            Some(out)
        },
        None => None,
    }
}

/// What a classification by title is asked with: the title of a result,
/// where it is a text and not empty, and its snippet, where that is a text.
#[derive(Debug)]
pub struct TitleQuestion {
    pub title: String,
    pub snippet: Option<String>,
}

pub struct QuestionModel {
    pub title: Seq<char>,
    pub snippet: Option<Seq<char>>,
}

impl View for TitleQuestion {
    type V = QuestionModel;

    open spec fn view(&self) -> QuestionModel {
        QuestionModel { title: self.title@, snippet: opt_view(self.snippet) }
    }
}

pub open spec fn question_of(result: Json) -> Option<QuestionModel> {
    match text_member(result, "title"@) {
        Some(title) => if title.len() > 0 {
            Some(QuestionModel { title, snippet: text_member(result, "snippet"@) })
        } else {
            None
        },
        None => None,
    }
}

/// What a classification by title is asked with, if it is to be asked.
pub fn title_question(result: &JsonValue) -> (out: Option<TitleQuestion>)
    ensures
        match out {
            Some(q) => question_of(result@) == Some(q@),
            None => question_of(result@) is None,
        },
{
    match result.text_at("title") {
        Some(title) => {
            if title.as_str().unicode_len() > 0 {
                let snippet = match result.text_at("snippet") {
                    Some(s) => Some(s.clone()),
                    None => None,
                };
                Some(TitleQuestion { title: title.clone(), snippet })
            } else {
                None
            }
        },
        None => None,
    }
}

/// The text of the member `key`, the empty text where it is no text.
pub open spec fn text_or_empty(v: Json, key: Seq<char>) -> Seq<char> {
    match text_member(v, key) {
        Some(t) => t,
        None => Seq::empty(),
    }
}

/// The image of a result that shows the page `url`: its `original`, where
/// that and its `link` are not empty and the link matches the page.
pub open spec fn image_matching(url: Seq<char>, result: Json) -> Option<Seq<char>> {
    let link = text_or_empty(result, "link"@);
    let original = text_or_empty(result, "original"@);
    if link.len() > 0 && original.len() > 0 && urls_match(url, link) {
        Some(original)
    } else {
        None
    }
}

pub open spec fn matching_picker(url: Seq<char>) -> spec_fn(Json) -> Option<Seq<char>> {
    |result: Json| image_matching(url, result)
}

/// The image of a result: its `original`, where that is a text.
pub open spec fn original_picker() -> spec_fn(Json) -> Option<Seq<char>> {
    |result: Json| text_member(result, "original"@)
}

/// The image results of an answer; none where it has no array of them.
pub open spec fn image_results(answer: Json) -> Option<Seq<Json>> {
    match member(answer, "images_results"@) {
        Some(Json::Array(items)) => Some(items),
        _ => None,
    }
}

/// A payload that holds one image.
pub open spec fn one_image(url: Seq<char>) -> Seq<Field> {
    seq![Field { key: "image_urls"@, value: Json::Array(seq![Json::Text(url)]) }]
}

/// The payload of an image search by URL: the image of the first result
/// that shows the page.
pub open spec fn image_by_url(url: Seq<char>, answer: Json) -> Option<Seq<Field>> {
    match image_results(answer) {
        Some(items) => match first_picked(items, matching_picker(url)) {
            Some(image) => Some(one_image(image)),
            None => None,
        },
        None => None,
    }
}

/// The payload of an image search by title: the image of the first result
/// that has one.
pub open spec fn image_by_title(answer: Json) -> Option<Seq<Field>> {
    match image_results(answer) {
        Some(items) => match first_picked(items, original_picker()) {
            Some(image) => Some(one_image(image)),
            None => None,
        },
        None => None,
    }
}

fn image_payload(image: &String) -> (out: Payload)
    ensures
        out@ == one_image(image@),
{
    let mut items: Vec<JsonValue> = Vec::new();
    items.push(JsonValue::Text(image.clone()));
    proof {
        lemma_array_view(items);
        assert(trees(items@) =~= seq![Json::Text(image@)]);
    }
    let mut out = Payload::new();
    out.push("image_urls".to_string(), JsonValue::Array(items));
    assert(out@ =~= one_image(image@));
    out
}

fn results_of(answer: &JsonValue) -> (out: Option<&Vec<JsonValue>>)
    ensures
        match out {
            Some(items) => image_results(answer@) == Some(trees(items@)),
            None => image_results(answer@) is None,
        },
{
    match answer.get("images_results") {
        Some(v) => v.as_items(),
        None => None,
    }
}

fn text_or_blank(v: &JsonValue, key: &str) -> (out: String)
    ensures
        out@ == text_or_empty(v@, key@),
{
    match v.text_at(key) {
        Some(t) => t.clone(),
        None => String::new(),
    }
}

/// The payload of an image search by URL.
pub fn pick_image_by_url(url: &str, answer: &JsonValue) -> (out: Option<Payload>)
    ensures
        match out {
            Some(p) => image_by_url(url@, answer@) == Some(p@),
            None => image_by_url(url@, answer@) is None,
        },
{
    let items = match results_of(answer) {
        Some(items) => items,
        None => {
            return None;
        },
    };
    let ghost all = trees(items@);
    let ghost pick = matching_picker(url@);
    let mut i: usize = 0;
    assert(all.take(0) == Seq::<Json>::empty());
    while i < items.len()
        invariant
            i <= items.len(),
            all == trees(items@),
            pick == matching_picker(url@),
            image_results(answer@) == Some(all),
            first_picked(all.take(i as int), pick) is None,
        decreases items.len() - i,
    {
        assert(all.take(i + 1).drop_last() == all.take(i as int));
        assert(all.take(i + 1).last() == items@[i as int]@);
        let link = text_or_blank(&items[i], "link");
        let original = text_or_blank(&items[i], "original");
        if link.as_str().unicode_len() > 0 && original.as_str().unicode_len() > 0
            && urls_match_product(url, link.as_str()) {
            proof {
                assert(pick(items@[i as int]@) == Some(original@));
                assert(first_picked(all.take(i + 1), pick) == Some(original@));
                lemma_first_picked_front(all, pick, i + 1);
            }
            return Some(image_payload(&original));
        }
        i += 1;
    }
    assert(all.take(items.len() as int) == all);
    None
}

/// The payload of an image search by title.
pub fn pick_image_by_title(answer: &JsonValue) -> (out: Option<Payload>)
    ensures
        match out {
            Some(p) => image_by_title(answer@) == Some(p@),
            None => image_by_title(answer@) is None,
        },
{
    let items = match results_of(answer) {
        Some(items) => items,
        None => {
            return None;
        },
    };
    let ghost all = trees(items@);
    let ghost pick = original_picker();
    let mut i: usize = 0;
    assert(all.take(0) == Seq::<Json>::empty());
    while i < items.len()
        invariant
            i <= items.len(),
            all == trees(items@),
            pick == original_picker(),
            image_results(answer@) == Some(all),
            first_picked(all.take(i as int), pick) is None,
        decreases items.len() - i,
    {
        assert(all.take(i + 1).drop_last() == all.take(i as int));
        assert(all.take(i + 1).last() == items@[i as int]@);
        if let Some(original) = items[i].text_at("original") {
            proof {
                assert(pick(items@[i as int]@) == Some(original@));
                assert(first_picked(all.take(i + 1), pick) == Some(original@));
                lemma_first_picked_front(all, pick, i + 1);
            }
            return Some(image_payload(original));
        }
        i += 1;
    }
    assert(all.take(items.len() as int) == all);
    None
}

/// The address at which the remote worker is asked for the page `url`: the
/// address of the worker, `?url=`, and the percent-encoded URL.
pub open spec fn worker_address(worker: Seq<char>, url: Seq<char>) -> Seq<char> {
    worker + "?url="@ + percent_encoded(encode_utf8(url))
}

/// The address at which the remote worker is asked for the page `url`.
pub fn worker_request_url(worker: &str, url: &str) -> (out: String)
    ensures
        out@ == worker_address(worker@, url@),
{
    let mut out = worker.to_string();
    out.append("?url=");
    out.append(percent_encode(url).as_str());
    out
}

/// Whether an answer of the remote worker reports an error: it has a member `error`.
pub open spec fn reports_error(answer: Json) -> bool {
    member(answer, "error"@) is Some
}

/// What the remote worker has delivered: its answer, unless that reports an error.
pub fn worker_data(answer: JsonValue) -> (out: Option<JsonValue>)
    ensures
        match out {
            Some(v) => !reports_error(answer@) && v@ == answer@,
            None => reports_error(answer@),
        },
{
    if answer.get("error").is_some() {
        None
    } else {
        Some(answer)
    }
}

/// The query of the first shopping search for a page: its cleaned URL.
pub fn shopping_query(url: &str) -> (out: String)
    ensures
        out@ == crate::urls::cleaned_url(url@),
{
    clean_product_url(url)
}

} // verus!
