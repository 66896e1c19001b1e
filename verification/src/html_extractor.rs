//! The extractor that turns a page into a compact snapshot: structured
//! data, price signals, text and images, cut down where it is over budget.

use crate::dom::{element_views, select_elements, selection, Element, ElementModel};
use crate::extract::content::{
    blocks_of, collect_blocks, collect_headings, crumb_among, first_crumb, headings_of, page_title,
    title_of,
};
use crate::extract::images::{
    collect_preload_images, flatten_json_ld_images, image_views, linked_images, preload_images,
    rank_images, ranked_images, sources, sources_of, unique_images, ImageInfo, ImageModel,
};
use crate::extract::inline_images::{collect_inline_images, extend_texts, inline_images_of};
use crate::extract::price_signals::{
    collect_signals, keep_signals, kept_signals, lemma_kept_signals, lemma_signals_are_short,
    signals_of,
};
use crate::extract::snapshot::{
    cut_down, extract_tree, ContentModel, ExtractModel, HtmlExtract, StructuredData,
    StructuredModel, TextContent,
};
use crate::extract::structured::{
    collect_json_ld, collect_meta, holds_tags_of, json_ld_of, meta_of, BucketsModel,
};
use crate::json::{render_json, rendered, settled};
use crate::seqs::listed;
use crate::text::{
    distinct_nonempty, lemma_distinct_nonempty, no_empties, no_repeats, str_views, views,
};
use vstd::prelude::*;
use vstd::string::StringSliceAdditionalSpecFns;
use vstd::utf8::encode_utf8;

verus! {

/// The number of bytes of serialised text that count as one token.
pub const TOKEN_BYTES: usize = 4;

/// Extracts product data from pages, within a budget of tokens.
#[derive(Debug)]
pub struct ProductDataExtractor {
    max_tokens: usize,
}

/// The number of tokens that a text of `len` bytes is counted as: one for
/// every four bytes, a started one counted whole.
pub open spec fn tokens_for(len: nat) -> nat {
    if len % 4 == 0 {
        len / 4
    } else {
        len / 4 + 1
    }
}

/// The elements of `selector` in `html` with the attributes `names`; of the
/// nodes above them nothing is asked but whether they are elements.
pub open spec fn selected(
    html: Seq<char>,
    selector: Seq<char>,
    names: Seq<Seq<char>>,
) -> Seq<ElementModel> {
    selection(html, selector, names, Seq::empty())
}

/// The elements of `selector` in `html`, with no attribute asked for.
pub open spec fn chosen(html: Seq<char>, selector: Seq<char>) -> Seq<ElementModel> {
    selected(html, selector, Seq::empty())
}

/// The meta elements of a page, each with its `name`, `property` and `content`.
pub open spec fn meta_elements(html: Seq<char>) -> Seq<ElementModel> {
    selected(html, "meta"@, seq!["name"@, "property"@, "content"@])
}

/// The meta tags of the structured data, by kind.
pub open spec fn buckets_of(s: StructuredModel) -> BucketsModel {
    BucketsModel {
        meta_tags: s.meta_tags,
        open_graph: s.open_graph,
        twitter_card: s.twitter_card,
    }
}

/// The structured data of a page.
pub open spec fn structured_of(html: Seq<char>) -> StructuredModel {
    let buckets = meta_of(meta_elements(html));
    StructuredModel {
        json_ld: json_ld_of(chosen(html, "script[type='application/ld+json']"@)),
        meta_tags: buckets.meta_tags,
        open_graph: buckets.open_graph,
        twitter_card: buckets.twitter_card,
    }
}

/// The image URLs in the data that a page hands to its scripts.
pub open spec fn inline_images(html: Seq<char>) -> Seq<Seq<char>> {
    inline_images_of(selected(html, "script"@, seq!["type"@]))
}

/// The images that the preload links of a page name.
pub open spec fn preloaded(base: Seq<char>, html: Seq<char>) -> Seq<Seq<char>> {
    preload_images(base, selected(html, "link[rel='preload']"@, seq!["as"@, "href"@]))
}

/// The signals of all selectors of a page, selector after selector: first
/// what names a price by class, id or attribute, then every `span`, `div`, `p`.
pub open spec fn signals_found(html: Seq<char>) -> Seq<Seq<char>> {
    signals_of(chosen(html, "[class*=\"price\"]"@)) + signals_of(chosen(html, "[id*=\"price\"]"@))
        + signals_of(chosen(html, "[data-price]"@)) + signals_of(
        chosen(html, "[itemprop=\"price\"]"@),
    ) + signals_of(chosen(html, "span"@)) + signals_of(chosen(html, "div"@)) + signals_of(
        chosen(html, "p"@),
    )
}

/// The price signals of a page.
pub open spec fn price_signals_of(html: Seq<char>) -> Seq<Seq<char>> {
    kept_signals(signals_found(html))
}

/// The breadcrumbs of a page, one at most from each selector.
pub open spec fn breadcrumbs_of(html: Seq<char>) -> Seq<Seq<char>> {
    listed(crumb_among(chosen(html, "[class*=\"breadcrumb\"]"@))) + listed(
        crumb_among(chosen(html, "[id*=\"breadcrumb\"]"@)),
    ) + listed(crumb_among(chosen(html, "[itemtype*=\"BreadcrumbList\"]"@))) + listed(
        crumb_among(chosen(html, "nav"@)),
    )
}

/// The descriptions of a page: blocks of more than 20 and fewer than 1000 characters.
pub open spec fn descriptions_of(html: Seq<char>) -> Seq<Seq<char>> {
    blocks_of(chosen(html, "[class*=\"description\"]"@), 20, 1000) + blocks_of(
        chosen(html, "[id*=\"description\"]"@),
        20,
        1000,
    ) + blocks_of(chosen(html, "[itemprop=\"description\"]"@), 20, 1000) + blocks_of(
        chosen(html, "[class*=\"product-info\"]"@),
        20,
        1000,
    ) + blocks_of(chosen(html, "[class*=\"product-detail\"]"@), 20, 1000)
}

/// The specifications of a page: blocks of more than 10 and fewer than 500 characters.
pub open spec fn specifications_of(html: Seq<char>) -> Seq<Seq<char>> {
    blocks_of(chosen(html, "[class*=\"spec\"]"@), 10, 500) + blocks_of(
        chosen(html, "[class*=\"feature\"]"@),
        10,
        500,
    ) + blocks_of(chosen(html, "[class*=\"attribute\"]"@), 10, 500) + blocks_of(
        chosen(html, "table"@),
        10,
        500,
    ) + blocks_of(chosen(html, "dl"@), 10, 500)
}

/// The text content of a page.
pub open spec fn content_of(html: Seq<char>) -> ContentModel {
    ContentModel {
        title: title_of(chosen(html, "title"@)),
        headings: headings_of(chosen(html, "h1, h2"@)),
        breadcrumbs: breadcrumbs_of(html),
        descriptions: descriptions_of(html),
        specifications: specifications_of(html),
    }
}

/// The ranked `<img>` elements of the page at `base`.
pub open spec fn product_images(base: Seq<char>, html: Seq<char>) -> Seq<ImageModel> {
    ranked_images(
        base,
        selection(
            html,
            "img"@,
            seq![
                "src"@,
                "data-src"@,
                "data-lazy-src"@,
                "width"@,
                "height"@,
                "alt"@,
                "itemprop"@,
            ],
            "class"@,
        ),
    )
}

/// The images of a page: the ranked `<img>` sources, the images that JSON-LD
/// names, those of the script data and those of the preload links, in this
/// order, without the empty ones and without repeats.
pub open spec fn images_of(url: Seq<char>, html: Seq<char>) -> Seq<Seq<char>> {
    distinct_nonempty(
        sources(product_images(url, html)) + linked_images(structured_of(html).json_ld)
            + inline_images(html) + preloaded(url, html),
    )
}

/// The snapshot of a page before its size is looked at.
pub open spec fn assembled(url: Seq<char>, html: Seq<char>) -> ExtractModel {
    ExtractModel {
        url,
        structured_data: structured_of(html),
        price_signals: price_signals_of(html),
        images: images_of(url, html),
        content: content_of(html),
    }
}

/// The number of tokens that the JSON form of a snapshot is counted as.
pub open spec fn tokens_of(m: ExtractModel) -> nat {
    tokens_for(encode_utf8(rendered(settled(extract_tree(m)))).len())
}

/// The snapshot of a page: as assembled where that is within the budget,
/// else cut down.
pub open spec fn extracted(url: Seq<char>, html: Seq<char>, budget: nat) -> ExtractModel {
    let full = assembled(url, html);
    if tokens_of(full) > budget {
        cut_down(full)
    } else {
        full
    }
}

/// The images of a snapshot hold no URL twice and no empty URL, whether it
/// was cut down or not.
pub proof fn lemma_images_are_clean(url: Seq<char>, html: Seq<char>, budget: nat)
    ensures
        no_repeats(extracted(url, html, budget).images),
        no_empties(extracted(url, html, budget).images),
{
    let found = sources(product_images(url, html)) + linked_images(structured_of(html).json_ld)
        + inline_images(html) + preloaded(url, html);
    lemma_distinct_nonempty(found);
    let all = distinct_nonempty(found);
    let kept = extracted(url, html, budget).images;
    assert forall|i: int, j: int| 0 <= i < j < kept.len() implies kept[i] != kept[j] by {
        assert(kept[i] == all[i] && kept[j] == all[j]);
    }
    assert forall|i: int| 0 <= i < kept.len() implies (#[trigger] kept[i]).len() > 0 by {
        assert(kept[i] == all[i]);
    }
}

/// The price signals of a page are at most ten, of at most a hundred
/// characters each.
pub proof fn lemma_price_signals_are_bounded(html: Seq<char>)
    ensures
        price_signals_of(html).len() <= 10,
        forall|i: int|
            0 <= i < price_signals_of(html).len() ==> (#[trigger] price_signals_of(html)[i]).len()
                <= 100,
{
    let a = signals_of(chosen(html, "[class*=\"price\"]"@));
    let b = signals_of(chosen(html, "[id*=\"price\"]"@));
    let c = signals_of(chosen(html, "[data-price]"@));
    let d = signals_of(chosen(html, "[itemprop=\"price\"]"@));
    let e = signals_of(chosen(html, "span"@));
    let f = signals_of(chosen(html, "div"@));
    let g = signals_of(chosen(html, "p"@));
    lemma_signals_are_short(chosen(html, "[class*=\"price\"]"@));
    lemma_signals_are_short(chosen(html, "[id*=\"price\"]"@));
    lemma_signals_are_short(chosen(html, "[data-price]"@));
    lemma_signals_are_short(chosen(html, "[itemprop=\"price\"]"@));
    lemma_signals_are_short(chosen(html, "span"@));
    lemma_signals_are_short(chosen(html, "div"@));
    lemma_signals_are_short(chosen(html, "p"@));
    let found = signals_found(html);
    assert(found == a + b + c + d + e + f + g);
    assert forall|k: int| 0 <= k < found.len() implies (#[trigger] found[k]).len() <= 100 by {
        if k < a.len() {
            assert(found[k] == a[k]);
        } else if k < a.len() + b.len() {
            assert(found[k] == b[k - a.len()]);
        } else if k < a.len() + b.len() + c.len() {
            assert(found[k] == c[k - a.len() - b.len()]);
        } else if k < a.len() + b.len() + c.len() + d.len() {
            assert(found[k] == d[k - a.len() - b.len() - c.len()]);
        } else if k < a.len() + b.len() + c.len() + d.len() + e.len() {
            assert(found[k] == e[k - a.len() - b.len() - c.len() - d.len()]);
        } else if k < a.len() + b.len() + c.len() + d.len() + e.len() + f.len() {
            assert(found[k] == f[k - a.len() - b.len() - c.len() - d.len() - e.len()]);
        } else {
            assert(found[k] == g[k - a.len() - b.len() - c.len() - d.len() - e.len() - f.len()]);
        }
    }
    lemma_kept_signals(found);
    assert forall|i: int| 0 <= i < price_signals_of(html).len() implies (
    #[trigger] price_signals_of(html)[i]).len() <= 100 by {
        let t = price_signals_of(html)[i];
        assert(found.contains(t));
        let k = choose|k: int| 0 <= k < found.len() && found[k] == t;
        assert(found[k].len() <= 100);
    }
}

/// A page that shows no image gives a snapshot without images: where no
/// `<img>` is kept and neither JSON-LD nor script data nor preload links
/// name an image, the image list is empty.
pub proof fn lemma_no_images(url: Seq<char>, html: Seq<char>, budget: nat)
    requires
        product_images(url, html).len() == 0,
        linked_images(structured_of(html).json_ld).len() == 0,
        inline_images(html).len() == 0,
        preloaded(url, html).len() == 0,
    ensures
        extracted(url, html, budget).images.len() == 0,
{
    let found = sources(product_images(url, html)) + linked_images(structured_of(html).json_ld)
        + inline_images(html) + preloaded(url, html);
    assert(found.len() == 0);
    lemma_distinct_nonempty(found);
}

fn no_names() -> (out: Vec<&'static str>)
    ensures
        str_views(out@) == Seq::<Seq<char>>::empty(),
{
    let out: Vec<&'static str> = Vec::new();
    assert(str_views(out@) =~= Seq::<Seq<char>>::empty());
    out
}

fn select_with(html: &str, selector: &str, names: &Vec<&'static str>) -> (out: Vec<Element>)
    ensures
        element_views(out@) == selected(html@, selector@, str_views(names@)),
{
    proof {
        reveal_strlit("");
        assert(""@ =~= Seq::<char>::empty());
    }
    select_elements(html, selector, names, "")
}

fn choose_elements(html: &str, selector: &str) -> (out: Vec<Element>)
    ensures
        element_views(out@) == chosen(html@, selector@),
{
    select_with(html, selector, &no_names())
}

fn signals_for(html: &str, selector: &str) -> (out: Vec<String>)
    ensures
        views(out@) == signals_of(chosen(html@, selector@)),
{
    collect_signals(&choose_elements(html, selector))
}

fn crumb_for(html: &str, selector: &str) -> (out: Vec<String>)
    ensures
        views(out@) == listed(crumb_among(chosen(html@, selector@))),
{
    let mut out: Vec<String> = Vec::new();
    assert(views(out@) =~= Seq::<Seq<char>>::empty());
    if let Some(t) = first_crumb(&choose_elements(html, selector)) {
        out.push(t);
        assert(views(out@) =~= seq![t@]);
    }
    out
}

fn blocks_for(html: &str, selector: &str, low: usize, high: usize) -> (out: Vec<String>)
    ensures
        views(out@) == blocks_of(chosen(html@, selector@), low as nat, high as nat),
{
    collect_blocks(&choose_elements(html, selector), low, high)
}

impl ProductDataExtractor {
    /// The budget of tokens.
    pub closed spec fn budget(&self) -> nat {
        self.max_tokens as nat
    }

    /// An extractor with the given budget of tokens.
    pub fn new(max_tokens: usize) -> (out: Self)
        ensures
            out.budget() == max_tokens,
    {
        ProductDataExtractor { max_tokens }
    }

    /// The number of tokens that `text` is counted as.
    pub fn estimate_tokens(&self, text: &str) -> (out: usize)
        ensures
            out == tokens_for(text.spec_bytes().len()),
    {
        let len: usize = text.as_bytes().len();
        if len % TOKEN_BYTES == 0 {
            len / TOKEN_BYTES
        } else {
            len / TOKEN_BYTES + 1
        }
    }

    /// The structured data of a page. Each map of meta tags holds, for every
    /// name, the content of the last meta element of its kind with that name.
    pub fn extract_structured_data(&self, html: &str) -> (out: StructuredData)
        ensures
            out@ == structured_of(html@),
            holds_tags_of(buckets_of(out@), meta_elements(html@)),
    {
        let scripts = choose_elements(html, "script[type='application/ld+json']");
        let json_ld = collect_json_ld(&scripts);
        let names: Vec<&'static str> = vec!["name", "property", "content"];
        assert(str_views(names@) =~= seq!["name"@, "property"@, "content"@]);
        let buckets = collect_meta(&select_with(html, "meta", &names));
        assert(buckets_of(structured_of(html@)) == buckets@);
        StructuredData {
            json_ld,
            meta_tags: buckets.meta_tags,
            open_graph: buckets.open_graph,
            twitter_card: buckets.twitter_card,
        }
    }

    /// The image URLs in the data that a page hands to its scripts.
    pub fn extract_inline_json(&self, html: &str) -> (out: Vec<String>)
        ensures
            views(out@) == inline_images(html@),
    {
        let names: Vec<&'static str> = vec!["type"];
        assert(str_views(names@) =~= seq!["type"@]);
        collect_inline_images(&select_with(html, "script", &names))
    }

    /// The image URLs that the JSON-LD objects of the structured data name.
    pub fn flatten_json_ld_images(&self, structured_data: &StructuredData) -> (out: Vec<String>)
        ensures
            views(out@) == linked_images(structured_data@.json_ld),
    {
        flatten_json_ld_images(&structured_data.json_ld)
    }

    /// The images that the preload links of the page at `base_url` name.
    pub fn extract_preload_images(&self, html: &str, base_url: &str) -> (out: Vec<String>)
        ensures
            views(out@) == preloaded(base_url@, html@),
    {
        let names: Vec<&'static str> = vec!["as", "href"];
        assert(str_views(names@) =~= seq!["as"@, "href"@]);
        collect_preload_images(base_url, &select_with(html, "link[rel='preload']", &names))
    }

    /// The price signals of a page.
    pub fn extract_price_signals(&self, html: &str) -> (out: Vec<String>)
        ensures
            views(out@) == price_signals_of(html@),
    {
        let mut found = signals_for(html, "[class*=\"price\"]");
        extend_texts(&mut found, signals_for(html, "[id*=\"price\"]"));
        extend_texts(&mut found, signals_for(html, "[data-price]"));
        extend_texts(&mut found, signals_for(html, "[itemprop=\"price\"]"));
        extend_texts(&mut found, signals_for(html, "span"));
        extend_texts(&mut found, signals_for(html, "div"));
        extend_texts(&mut found, signals_for(html, "p"));
        keep_signals(&found)
    }

    /// The text content of a page.
    pub fn extract_text_content(&self, html: &str) -> (out: TextContent)
        ensures
            out@ == content_of(html@),
    {
        let title = page_title(&choose_elements(html, "title"));
        let headings = collect_headings(&choose_elements(html, "h1, h2"));
        let mut breadcrumbs = crumb_for(html, "[class*=\"breadcrumb\"]");
        extend_texts(&mut breadcrumbs, crumb_for(html, "[id*=\"breadcrumb\"]"));
        extend_texts(&mut breadcrumbs, crumb_for(html, "[itemtype*=\"BreadcrumbList\"]"));
        extend_texts(&mut breadcrumbs, crumb_for(html, "nav"));
        let mut descriptions = blocks_for(html, "[class*=\"description\"]", 20, 1000);
        extend_texts(&mut descriptions, blocks_for(html, "[id*=\"description\"]", 20, 1000));
        extend_texts(&mut descriptions, blocks_for(html, "[itemprop=\"description\"]", 20, 1000));
        extend_texts(&mut descriptions, blocks_for(html, "[class*=\"product-info\"]", 20, 1000));
        extend_texts(&mut descriptions, blocks_for(html, "[class*=\"product-detail\"]", 20, 1000));
        let mut specifications = blocks_for(html, "[class*=\"spec\"]", 10, 500);
        extend_texts(&mut specifications, blocks_for(html, "[class*=\"feature\"]", 10, 500));
        extend_texts(&mut specifications, blocks_for(html, "[class*=\"attribute\"]", 10, 500));
        extend_texts(&mut specifications, blocks_for(html, "table", 10, 500));
        extend_texts(&mut specifications, blocks_for(html, "dl", 10, 500));
        TextContent { title, headings, breadcrumbs, descriptions, specifications }
    }

    /// The ranked `<img>` elements of the page at `base_url`.
    pub fn filter_product_images(&self, html: &str, base_url: &str) -> (out: Vec<ImageInfo>)
        ensures
            image_views(out@) == product_images(base_url@, html@),
    {
        let names: Vec<&'static str> = vec![
            "src",
            "data-src",
            "data-lazy-src",
            "width",
            "height",
            "alt",
            "itemprop",
        ];
        assert(str_views(names@) =~= seq![
            "src"@,
            "data-src"@,
            "data-lazy-src"@,
            "width"@,
            "height"@,
            "alt"@,
            "itemprop"@,
        ]);
        rank_images(base_url, &select_elements(html, "img", &names, "class"))
    }

    /// Cuts a snapshot down to at most two descriptions, two specifications
    /// and eight images.
    pub fn trim_content(&self, value: &mut HtmlExtract)
        ensures
            final(value)@ == cut_down(old(value)@),
            final(value)@.content.descriptions.len() <= 2,
            final(value)@.content.specifications.len() <= 2,
            final(value)@.images.len() <= 8,
    {
        value.trim_content()
    }

    /// The snapshot of the page `html` that was fetched from `url`. A
    /// snapshot whose JSON form is counted as more tokens than the budget
    /// is cut down.
    pub fn extract_product_data(&self, url: &str, html: &str) -> (out: HtmlExtract)
        ensures
            out@ == extracted(url@, html@, self.budget()),
            tokens_of(assembled(url@, html@)) > self.budget() ==> {
                &&& out@.content.descriptions.len() <= 2
                &&& out@.content.specifications.len() <= 2
                &&& out@.images.len() <= 8
            },
    {
        let structured_data = self.extract_structured_data(html);
        let inline = self.extract_inline_json(html);
        let price_signals = self.extract_price_signals(html);
        let content = self.extract_text_content(html);
        let mut all_images = sources_of(&self.filter_product_images(html, url));
        extend_texts(&mut all_images, self.flatten_json_ld_images(&structured_data));
        extend_texts(&mut all_images, inline);
        extend_texts(&mut all_images, self.extract_preload_images(html, url));
        let images = unique_images(&all_images);
        let mut out = HtmlExtract {
            url: url.to_string(),
            structured_data,
            price_signals,
            images,
            content,
        };
        let text = render_json(&out.to_json());
        if self.estimate_tokens(text.as_str()) > self.max_tokens {
            self.trim_content(&mut out);
        }
        out
    }
}

} // verus!
