//! URLs: the domain and the path by which two product URLs are compared, and
//! the query that identifies a product.
//!
//! Parsing and serialising a URL is the work of the `url` crate; what is
//! decided about its parts is decided here.

use crate::text::{
    append, begins_with, chars_of, is_ascii_letter, join, joined, lemma_nonempty_keeps,
    lemma_segments_of_joined, lemma_split_pieces_hold_no_sep, lowercase, lowercased, only, opt_view,
    plain_pieces, segments, split_by, split_segments, starts_with, text_eq, text_of, vec_views,
};
use vstd::prelude::*;
use vstd::string::{StringExecFns, StringSliceAdditionalSpecFns};
use vstd::utf8::encode_utf8;

verus! {

/// The longest URL, in characters, that is taken apart and put together
/// again. The `url` crate keeps positions in 32 bits; a text within this
/// bound stays far below them, whatever is escaped in it.
pub const MAX_URL_CHARS: usize = 0x100_0000;

/// One name and value of a query, both decoded.
#[derive(Debug)]
pub struct QueryPair {
    pub key: String,
    pub value: String,
}

pub struct PairModel {
    pub key: Seq<char>,
    pub value: Seq<char>,
}

/// What the library reads of a parsed URL: its serialisation, its scheme,
/// its host, its path and the pairs of its query.
#[derive(Debug)]
pub struct UrlParts {
    pub text: String,
    pub scheme: String,
    pub host: Option<String>,
    pub path: String,
    pub pairs: Vec<QueryPair>,
}

pub struct UrlModel {
    pub text: Seq<char>,
    pub scheme: Seq<char>,
    pub host: Option<Seq<char>>,
    pub path: Seq<char>,
    pub pairs: Seq<PairModel>,
}

impl View for QueryPair {
    type V = PairModel;

    open spec fn view(&self) -> PairModel {
        PairModel { key: self.key@, value: self.value@ }
    }
}

/// The views of a list of pairs.
pub open spec fn pair_views(pairs: Seq<QueryPair>) -> Seq<PairModel> {
    Seq::new(pairs.len(), |i: int| pairs[i]@)
}

impl View for UrlParts {
    type V = UrlModel;

    open spec fn view(&self) -> UrlModel {
        UrlModel {
            text: self.text@,
            scheme: self.scheme@,
            host: match self.host {
                Some(h) => Some(h@),
                None => None,
            },
            path: self.path@,
            pairs: pair_views(self.pairs@),
        }
    }
}

/// The parts of the URL that `url::Url::parse` reads from a text: its
/// serialisation and what its `scheme`, `host_str`, `path` and `query_pairs`
/// return. `None` where the text is no absolute URL.
pub uninterp spec fn url_parts(text: Seq<char>) -> Option<UrlModel>;

/// The serialisation of the URL read from `text` after its path was set to
/// `path` and its query and fragment were removed. `None` where the text is
/// no absolute URL.
pub uninterp spec fn repathed_url(text: Seq<char>, path: Seq<char>) -> Option<Seq<char>>;

/// The serialisation of the URL read from `text` after its query was set to
/// `query` and its fragment was removed. `None` where the text is no absolute URL.
pub uninterp spec fn requeried_url(text: Seq<char>, query: Option<Seq<char>>) -> Option<
    Seq<char>,
>;

/// The serialisation of the URL that `reference` denotes when it is read
/// against the base URL `base`. `None` where either cannot be read.
pub uninterp spec fn resolved_url(base: Seq<char>, reference: Seq<char>) -> Option<Seq<char>>;

/// `url::Url::parse`, and of the URL read its serialisation and what
/// `scheme`, `host_str`, `path` and `query_pairs` return. The parts are
/// named, not described.
#[verifier::external_body]
pub(crate) fn split_url(text: &str) -> (out: Option<UrlParts>)
    ensures
        match out {
            Some(parts) => url_parts(text@) == Some(parts@),
            None => url_parts(text@) is None,
        },
{
    let u = url::Url::parse(text).ok()?;
    Some(UrlParts {
        text: u.to_string(),
        scheme: u.scheme().to_string(),
        host: u.host_str().map(String::from),
        path: u.path().to_string(),
        pairs: u
            .query_pairs()
            .map(|(k, v)| QueryPair { key: k.into_owned(), value: v.into_owned() })
            .collect(),
    })
}

/// `url::Url::parse`, then `set_path`, `set_query(None)` and
/// `set_fragment(None)`, then the serialisation. The bounds keep the setters
/// within the 32 bits in which they count.
#[verifier::external_body]
fn url_with_path(text: &str, path: &str) -> (out: Option<String>)
    requires
        text@.len() <= MAX_URL_CHARS,
        path@.len() <= MAX_URL_CHARS,
    ensures
        opt_view(out) == repathed_url(text@, path@),
{
    let mut u = url::Url::parse(text).ok()?;
    u.set_path(path);
    u.set_query(None);
    u.set_fragment(None);
    Some(u.to_string())
}

/// `url::Url::parse`, then `set_query` and `set_fragment(None)`, then the
/// serialisation. The bounds keep the setters within the 32 bits in which
/// they count.
#[verifier::external_body]
fn url_with_query(text: &str, query: Option<&str>) -> (out: Option<String>)
    requires
        text@.len() <= MAX_URL_CHARS,
        query matches Some(q) ==> q@.len() <= MAX_URL_CHARS,
    ensures
        opt_view(out) == requeried_url(
            text@,
            match query {
                Some(q) => Some(q@),
                None => None,
            },
        ),
{
    let mut u = url::Url::parse(text).ok()?;
    u.set_query(query);
    u.set_fragment(None);
    Some(u.to_string())
}

/// `url::Url::parse` on the base, then `join` with the reference, then the
/// serialisation.
#[verifier::external_body]
pub(crate) fn resolve_url(base: &str, reference: &str) -> (out: Option<String>)
    ensures
        opt_view(out) == resolved_url(base@, reference@),
{
    Some(url::Url::parse(base).ok()?.join(reference).ok()?.to_string())
}

/// Whether a byte is written as it is in a percent-encoded text: a letter, a
/// digit, `-`, `.`, `_` or `~`.
pub open spec fn unreserved(b: u8) -> bool {
    ||| 0x30 <= b <= 0x39
    ||| 0x41 <= b <= 0x5A
    ||| 0x61 <= b <= 0x7A
    ||| b == 0x2D
    ||| b == 0x2E
    ||| b == 0x5F
    ||| b == 0x7E
}

/// The hexadecimal digit for a number below sixteen, in upper case.
pub open spec fn hex_digit(d: int) -> char {
    if d < 10 {
        (0x30 + d) as char
    } else {
        (0x41 + d - 10) as char
    }
}

/// The percent-encoding of a run of bytes: an unreserved byte as its
/// character, any other as `%` and its two hexadecimal digits.
pub open spec fn percent_encoded(bytes: Seq<u8>) -> Seq<char>
    decreases bytes.len(),
{
    if bytes.len() == 0 {
        Seq::empty()
    } else {
        let b = bytes.last();
        let front = percent_encoded(bytes.drop_last());
        if unreserved(b) {
            front.push(b as char)
        } else {
            front + seq!['%', hex_digit(b as int / 16), hex_digit(b as int % 16)]
        }
    }
}

/// `urlencoding::encode`: the percent-encoding of the UTF-8 bytes of a text.
#[verifier::external_body]
pub(crate) fn percent_encode(s: &str) -> (out: String)
    ensures
        out@ == percent_encoded(s.spec_bytes()),
{
    urlencoding::encode(s).into_owned()
}

/// Whether a path segment looks like a locale: two letters, `-` or `_`, two letters.
pub open spec fn is_locale(seg: Seq<char>) -> bool {
    &&& seg.len() == 5
    &&& is_ascii_letter(seg[0])
    &&& is_ascii_letter(seg[1])
    &&& (seg[2] == '-' || seg[2] == '_')
    &&& is_ascii_letter(seg[3])
    &&& is_ascii_letter(seg[4])
}

/// The segments that do not look like a locale, in order.
pub open spec fn without_locales(segs: Seq<Seq<char>>) -> Seq<Seq<char>>
    decreases segs.len(),
{
    if segs.len() == 0 {
        Seq::empty()
    } else if is_locale(segs.last()) {
        without_locales(segs.drop_last())
    } else {
        without_locales(segs.drop_last()).push(segs.last())
    }
}

/// A path without its empty segments and its locale segments, with one `/`
/// before each segment that is left, and `/` alone where none is left.
pub open spec fn clean_path(path: Seq<char>) -> Seq<char> {
    seq!['/'] + joined(without_locales(segments(path, '/')), seq!['/'])
}

/// A host without a leading `www.`.
pub open spec fn without_www(host: Seq<char>) -> Seq<char> {
    if starts_with(host, "www."@) {
        host.skip(4)
    } else {
        host
    }
}

/// The host of a URL in lower case, without a leading `www.`. `None` where
/// the text is no URL or the URL has no host.
pub open spec fn normalized_domain(url: Seq<char>) -> Option<Seq<char>> {
    match url_parts(url) {
        Some(parts) => match parts.host {
            Some(host) => Some(without_www(lowercased(host))),
            None => None,
        },
        None => None,
    }
}

/// A URL with its path cleaned and without query and fragment. `None` where
/// the text is no URL, or is longer than [`MAX_URL_CHARS`].
pub open spec fn normalized_url(url: Seq<char>) -> Option<Seq<char>> {
    if url.len() > MAX_URL_CHARS {
        None
    } else {
        match url_parts(url) {
            Some(parts) => if clean_path(parts.path).len() > MAX_URL_CHARS {
                None
            } else {
                repathed_url(url, clean_path(parts.path))
            },
            None => None,
        }
    }
}

/// The cleaned path of a URL. `None` where the text is no URL.
pub open spec fn normalized_path(url: Seq<char>) -> Option<Seq<char>> {
    match url_parts(url) {
        Some(parts) => Some(clean_path(parts.path)),
        None => None,
    }
}

/// Whether two URLs name the same product page: both have a domain, the
/// domains are equal, and so are the cleaned paths. Scheme, query and
/// fragment play no part.
pub open spec fn urls_match(a: Seq<char>, b: Seq<char>) -> bool {
    &&& normalized_domain(a) is Some
    &&& normalized_domain(b) is Some
    &&& normalized_domain(a) == normalized_domain(b)
    &&& normalized_path(a) == normalized_path(b)
}

/// The segments that [`without_locales`] keeps are segments of `segs`, and
/// none of them looks like a locale.
pub proof fn lemma_without_locales_keeps(segs: Seq<Seq<char>>)
    ensures
        forall|i: int|
            0 <= i < without_locales(segs).len() ==> !is_locale(#[trigger] without_locales(segs)[i])
                && segs.contains(without_locales(segs)[i]),
    decreases segs.len(),
{
    if segs.len() > 0 {
        let front = segs.drop_last();
        lemma_without_locales_keeps(front);
        let out = without_locales(segs);
        assert forall|i: int| 0 <= i < out.len() implies !is_locale(#[trigger] out[i])
            && segs.contains(out[i]) by {
            if i < without_locales(front).len() {
                assert(out[i] == without_locales(front)[i]);
                let k = choose|k: int| 0 <= k < front.len() && front[k] == out[i];
                assert(segs[k] == out[i]);
            } else {
                assert(segs[segs.len() - 1] == out[i]);
            }
        }
    }
}

/// A list without locale segments is kept whole.
pub proof fn lemma_without_locales_settles(segs: Seq<Seq<char>>)
    requires
        forall|i: int| 0 <= i < segs.len() ==> !is_locale(#[trigger] segs[i]),
    ensures
        without_locales(segs) == segs,
    decreases segs.len(),
{
    if segs.len() > 0 {
        let front = segs.drop_last();
        assert forall|i: int| 0 <= i < front.len() implies !is_locale(#[trigger] front[i]) by {
            assert(front[i] == segs[i]);
        }
        lemma_without_locales_settles(front);
        assert(!is_locale(segs[segs.len() - 1]));
        assert(front.push(segs.last()) == segs);
    }
}

/// Cleaning a path twice gives what cleaning it once gives:
/// `clean_path(clean_path(p)) == clean_path(p)` for every path `p`.
pub proof fn lemma_clean_path_settles(path: Seq<char>)
    ensures
        clean_path(clean_path(path)) == clean_path(path),
{
    let pieces = split_by(path, only('/'));
    let segs = segments(path, '/');
    let kept = without_locales(segs);
    lemma_split_pieces_hold_no_sep(path, '/');
    lemma_nonempty_keeps(pieces);
    lemma_without_locales_keeps(segs);
    assert(plain_pieces(kept, '/')) by {
        assert forall|i: int| 0 <= i < kept.len() implies (#[trigger] kept[i]).len() > 0
            && !kept[i].contains('/') by {
            assert(segs.contains(kept[i]));
            let k = choose|k: int| 0 <= k < segs.len() && segs[k] == kept[i];
            assert(segs[k].len() > 0 && pieces.contains(segs[k]));
            let m = choose|m: int| 0 <= m < pieces.len() && pieces[m] == segs[k];
            assert(!pieces[m].contains('/'));
        }
    }
    lemma_segments_of_joined(kept, '/');
    lemma_without_locales_settles(kept);
}

/// The `url` crate reads a normalised URL back as it wrote it: the path that
/// it reads from it is the cleaned path that was set, and setting that path
/// again changes nothing.
pub open spec fn reads_back(url: Seq<char>) -> bool {
    match (url_parts(url), normalized_url(url)) {
        (Some(parts), Some(n)) => {
            &&& n.len() <= MAX_URL_CHARS
            &&& url_parts(n) matches Some(again) && again.path == clean_path(parts.path)
            &&& repathed_url(n, clean_path(parts.path)) == Some(n)
        },
        _ => false,
    }
}

/// Normalising twice gives what normalising once gives, for every URL that
/// the `url` crate reads back as it wrote it:
/// `normalized_url(normalized_url(u)) == normalized_url(u)`.
pub proof fn lemma_normalized_url_settles(url: Seq<char>)
    requires
        reads_back(url),
    ensures
        normalized_url(normalized_url(url)->0) == normalized_url(url),
{
    lemma_clean_path_settles(url_parts(url)->0.path);
}

/// Every URL that has a domain matches itself.
pub proof fn lemma_url_matches_itself(url: Seq<char>)
    requires
        normalized_domain(url) is Some,
    ensures
        urls_match(url, url),
{
}

fn letter(c: char) -> (r: bool)
    ensures
        r == is_ascii_letter(c),
{
    ('a' <= c && c <= 'z') || ('A' <= c && c <= 'Z')
}

fn looks_like_locale(seg: &Vec<char>) -> (r: bool)
    ensures
        r == is_locale(seg@),
{
    seg.len() == 5 && letter(seg[0]) && letter(seg[1]) && (seg[2] == '-' || seg[2] == '_')
        && letter(seg[3]) && letter(seg[4])
}

/// Cleans a path: see [`clean_path`].
pub fn clean_url_path(path: &str) -> (out: String)
    ensures
        out@ == clean_path(path@),
{
    let segs = split_segments(&chars_of(path), '/');
    let ghost all = vec_views(segs@);
    let mut kept: Vec<Vec<char>> = Vec::new();
    let mut i: usize = 0;
    assert(all.take(0) == Seq::<Seq<char>>::empty());
    assert(vec_views(kept@) =~= Seq::<Seq<char>>::empty());
    while i < segs.len()
        invariant
            i <= segs.len(),
            all == vec_views(segs@),
            vec_views(kept@) == without_locales(all.take(i as int)),
        decreases segs.len() - i,
    {
        assert(all.take(i + 1).drop_last() == all.take(i as int));
        assert(all.take(i + 1).last() == segs@[i as int]@);
        if !looks_like_locale(&segs[i]) {
            let ghost shown = vec_views(kept@);
            kept.push(segs[i].clone());
            assert(vec_views(kept@) =~= shown.push(segs@[i as int]@));
        }
        i += 1;
    }
    assert(all.take(segs.len() as int) == all);
    let slash: Vec<char> = vec!['/'];
    assert(slash@ =~= seq!['/']);
    let mut out: Vec<char> = vec!['/'];
    assert(out@ =~= seq!['/']);
    append(&mut out, &join(&kept, &slash));
    text_of(&out)
}

/// A host without a leading `www.`.
pub fn strip_www(host: &str) -> (out: String)
    ensures
        out@ == without_www(host@),
{
    let chars = chars_of(host);
    let www = chars_of("www.");
    proof {
        reveal_strlit("www.");
    }
    if begins_with(&chars, &www) {
        let mut rest: Vec<char> = Vec::new();
        let mut i: usize = 4;
        assert(chars@.subrange(4, 4) == Seq::<char>::empty());
        while i < chars.len()
            invariant
                4 <= i <= chars.len(),
                rest@ == chars@.subrange(4, i as int),
            decreases chars.len() - i,
        {
            rest.push(chars[i]);
            assert(chars@.subrange(4, i + 1) == chars@.subrange(4, i as int).push(
                chars@[i as int],
            ));
            i += 1;
        }
        assert(chars@.subrange(4, chars.len() as int) == chars@.skip(4));
        text_of(&rest)
    } else {
        host.to_string()
    }
}

/// The host of a URL in lower case, without a leading `www.`.
pub fn normalize_domain(url: &str) -> (out: Option<String>)
    ensures
        opt_view(out) == normalized_domain(url@),
{
    match split_url(url) {
        Some(parts) => match parts.host {
            Some(host) => Some(strip_www(lowercase(host.as_str()).as_str())),
            None => None,
        },
        None => None,
    }
}

/// A URL with its path cleaned and without query and fragment.
pub fn normalize_url_path(url: &str) -> (out: Option<String>)
    ensures
        opt_view(out) == normalized_url(url@),
{
    if url.unicode_len() > MAX_URL_CHARS {
        return None;
    }
    match split_url(url) {
        Some(parts) => {
            let path = clean_url_path(parts.path.as_str());
            if path.as_str().unicode_len() > MAX_URL_CHARS {
                None
            } else {
                url_with_path(url, path.as_str())
            }
        },
        None => None,
    }
}

/// The cleaned path of a URL.
pub fn normalize_path(url: &str) -> (out: Option<String>)
    ensures
        opt_view(out) == normalized_path(url@),
{
    match split_url(url) {
        Some(parts) => Some(clean_url_path(parts.path.as_str())),
        None => None,
    }
}

/// Whether two URLs name the same product page.
pub fn urls_match_product(url1: &str, url2: &str) -> (r: bool)
    ensures
        r == urls_match(url1@, url2@),
{
    let domain1 = match normalize_domain(url1) {
        Some(d) => d,
        None => {
            return false;
        },
    };
    let domain2 = match normalize_domain(url2) {
        Some(d) => d,
        None => {
            return false;
        },
    };
    if !text_eq(domain1.as_str(), domain2.as_str()) {
        return false;
    }
    match (normalize_path(url1), normalize_path(url2)) {
        (Some(path1), Some(path2)) => text_eq(path1.as_str(), path2.as_str()),
        (None, None) => true,
        _ => false,
    }
}

/// Whether a query name identifies a product: in lower case it is one of
/// `pid`, `productid`, `product_id`, `id`, `item`, `itemid`, `product_no`,
/// `products_id`, `main_page`.
pub open spec fn is_product_key(key: Seq<char>) -> bool {
    let k = lowercased(key);
    ||| k == "pid"@
    ||| k == "productid"@
    ||| k == "product_id"@
    ||| k == "id"@
    ||| k == "item"@
    ||| k == "itemid"@
    ||| k == "product_no"@
    ||| k == "products_id"@
    ||| k == "main_page"@
}

/// The pairs whose name identifies a product, in order.
pub open spec fn product_pairs(pairs: Seq<PairModel>) -> Seq<PairModel>
    decreases pairs.len(),
{
    if pairs.len() == 0 {
        Seq::empty()
    } else if is_product_key(pairs.last().key) {
        product_pairs(pairs.drop_last()).push(pairs.last())
    } else {
        product_pairs(pairs.drop_last())
    }
}

/// A pair as it is written in a query: name and value percent-encoded, `=`
/// between them.
pub open spec fn encoded_pair(p: PairModel) -> Seq<char> {
    percent_encoded(encode_utf8(p.key)) + seq!['='] + percent_encoded(encode_utf8(p.value))
}

/// The query that writes `pairs`, with `&` between each two of them.
pub open spec fn encoded_query(pairs: Seq<PairModel>) -> Seq<char>
    decreases pairs.len(),
{
    if pairs.len() == 0 {
        Seq::empty()
    } else if pairs.len() == 1 {
        encoded_pair(pairs[0])
    } else {
        encoded_query(pairs.drop_last()) + seq!['&'] + encoded_pair(pairs.last())
    }
}

/// The query left to a product URL: the pairs that identify the product, or
/// none where there is no such pair.
pub open spec fn product_query(pairs: Seq<PairModel>) -> Option<Seq<char>> {
    if product_pairs(pairs).len() == 0 {
        None
    } else {
        Some(encoded_query(product_pairs(pairs)))
    }
}

/// A URL without its fragment and with only those pairs of its query that
/// identify a product. A text that is no URL, or is longer than
/// [`MAX_URL_CHARS`], or whose query would be, is left as it is.
pub open spec fn cleaned_url(url: Seq<char>) -> Seq<char> {
    if url.len() > MAX_URL_CHARS {
        url
    } else {
        match url_parts(url) {
            Some(parts) => {
                let query = product_query(parts.pairs);
                if query matches Some(q) && q.len() > MAX_URL_CHARS {
                    url
                } else {
                    match requeried_url(url, query) {
                        Some(t) => t,
                        None => url,
                    }
                }
            },
            None => url,
        }
    }
}

/// The URL that a page is classified by: scheme, host and path alone, as the
/// `url` crate serialises them. A text that is no URL is left as it is.
pub open spec fn classification_url(url: Seq<char>) -> Seq<char> {
    match url_parts(url) {
        Some(parts) => match url_parts(bare_address(parts)) {
            Some(bare) => bare.text,
            None => url,
        },
        None => url,
    }
}

/// Scheme, `://`, host and path of a URL, one after the other; a URL
/// without a host has an empty one.
pub open spec fn bare_address(parts: UrlModel) -> Seq<char> {
    parts.scheme + "://"@ + match parts.host {
        Some(h) => h,
        None => Seq::empty(),
    } + parts.path
}

fn identifies_product(key: &str) -> (r: bool)
    ensures
        r == is_product_key(key@),
{
    let k = lowercase(key);
    text_eq(k.as_str(), "pid") || text_eq(k.as_str(), "productid") || text_eq(
        k.as_str(),
        "product_id",
    ) || text_eq(k.as_str(), "id") || text_eq(k.as_str(), "item") || text_eq(k.as_str(), "itemid")
        || text_eq(k.as_str(), "product_no") || text_eq(k.as_str(), "products_id") || text_eq(
        k.as_str(),
        "main_page",
    )
}

/// The query left to a product URL, given the pairs of its query.
pub fn write_product_query(pairs: &Vec<QueryPair>) -> (out: Option<String>)
    ensures
        opt_view(out) == product_query(pair_views(pairs@)),
{
    let ghost all = pair_views(pairs@);
    let mut query = String::new();
    let mut any = false;
    let mut i: usize = 0;
    assert(all.take(0) == Seq::<PairModel>::empty());
    proof {
        reveal_strlit("&");
        reveal_strlit("=");
    }
    while i < pairs.len()
        invariant
            i <= pairs.len(),
            all == pair_views(pairs@),
            any == (product_pairs(all.take(i as int)).len() > 0),
            query@ == encoded_query(product_pairs(all.take(i as int))),
            "&"@ == seq!['&'],
            "="@ == seq!['='],
        decreases pairs.len() - i,
    {
        let ghost front = product_pairs(all.take(i as int));
        assert(all.take(i + 1).drop_last() == all.take(i as int));
        assert(all.take(i + 1).last() == pairs@[i as int]@);
        if identifies_product(pairs[i].key.as_str()) {
            assert(front.push(pairs@[i as int]@).drop_last() == front);
            if any {
                query.append("&");
            }
            query.append(percent_encode(pairs[i].key.as_str()).as_str());
            query.append("=");
            query.append(percent_encode(pairs[i].value.as_str()).as_str());
            any = true;
            assert(query@ == encoded_query(front.push(pairs@[i as int]@))) by {
                let pair = encoded_pair(pairs@[i as int]@);
                if front.len() == 0 {
                    assert(query@ =~= pair);
                } else {
                    assert(query@ =~= encoded_query(front) + seq!['&'] + pair);
                }
            }
        }
        i += 1;
    }
    assert(all.take(pairs.len() as int) == all);
    if any {
        Some(query)
    } else {
        None
    }
}

/// A URL without its fragment and with only those pairs of its query that
/// identify a product.
pub fn clean_product_url(url: &str) -> (out: String)
    ensures
        out@ == cleaned_url(url@),
{
    if url.unicode_len() > MAX_URL_CHARS {
        return url.to_string();
    }
    match split_url(url) {
        Some(parts) => {
            let query = write_product_query(&parts.pairs);
            let rebuilt = match &query {
                Some(q) => {
                    if q.as_str().unicode_len() > MAX_URL_CHARS {
                        return url.to_string();
                    }
                    url_with_query(url, Some(q.as_str()))
                },
                None => url_with_query(url, None),
            };
            match rebuilt {
                Some(t) => t,
                None => url.to_string(),
            }
        },
        None => url.to_string(),
    }
}

/// The URL that a page is classified by: scheme, host and path alone.
pub fn strip_to_path(url: &str) -> (out: String)
    ensures
        out@ == classification_url(url@),
{
    match split_url(url) {
        Some(parts) => match split_url(bare_address_of(&parts).as_str()) {
            Some(bare) => bare.text,
            None => url.to_string(),
        },
        None => url.to_string(),
    }
}

/// Scheme, `://`, host and path of a URL, one after the other.
pub fn bare_address_of(parts: &UrlParts) -> (out: String)
    ensures
        out@ == bare_address(parts@),
{
    let mut out = parts.scheme.clone();
    out.append("://");
    match &parts.host {
        Some(h) => {
            out.append(h.as_str());
        },
        None => {
            assert(out@ + Seq::<char>::empty() == out@);
        },
    }
    out.append(parts.path.as_str());
    out
}

} // verus!
