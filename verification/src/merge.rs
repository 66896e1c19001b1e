//! The shared state of one scrape: the product record, the source that each
//! field was taken from, and the rule by which an arriving payload is merged.

use crate::json::{field, field_trees, find_field, trees, Field, Json, JsonValue, Member};
use crate::price::{parse_price, price_of_tree, Price, PriceModel};
use crate::product::{complete, empty_product, has_amount, ProductData, ProductModel};
use crate::text::{
    distinct_nonempty, lemma_distinct_nonempty, no_empties, no_repeats, opt_view, push_distinct,
    text_eq, views,
};
use vstd::prelude::*;

verus! {

/// The source that each field of the record was last taken from.
#[derive(Debug)]
pub struct Attribution {
    pub product_name: Option<String>,
    pub brand: Option<String>,
    pub price: Option<String>,
    pub image_urls: Option<String>,
    pub garment_type: Option<String>,
    pub availability: Option<String>,
}

pub struct AttributionModel {
    pub product_name: Option<Seq<char>>,
    pub brand: Option<Seq<char>>,
    pub price: Option<Seq<char>>,
    pub image_urls: Option<Seq<char>>,
    pub garment_type: Option<Seq<char>>,
    pub availability: Option<Seq<char>>,
}

impl View for Attribution {
    type V = AttributionModel;

    open spec fn view(&self) -> AttributionModel {
        AttributionModel {
            product_name: opt_view(self.product_name),
            brand: opt_view(self.brand),
            price: opt_view(self.price),
            image_urls: opt_view(self.image_urls),
            garment_type: opt_view(self.garment_type),
            availability: opt_view(self.availability),
        }
    }
}

/// The record and its attribution, which change together.
#[derive(Debug)]
pub struct ScrapeState {
    pub product: ProductData,
    pub attribution: Attribution,
}

pub struct StateModel {
    pub product: ProductModel,
    pub attribution: AttributionModel,
}

impl View for ScrapeState {
    type V = StateModel;

    open spec fn view(&self) -> StateModel {
        StateModel { product: self.product@, attribution: self.attribution@ }
    }
}

/// What one source reports: named values, looked up from the front.
#[derive(Debug)]
pub struct Payload {
    pub fields: Vec<Member>,
}

impl View for Payload {
    type V = Seq<Field>;

    open spec fn view(&self) -> Seq<Field> {
        field_trees(self.fields@)
    }
}

/// The tier of a source: the lower, the stronger.
pub open spec fn priority(source: Seq<char>) -> nat {
    if source == "curlcffi_gemini"@ || source == "curlcffi_gemini_proxy"@ || source
        == "requests_gemini"@ || source == "cloudflare_gemini"@ {
        0
    } else if source == "gemini_classification"@ {
        1
    } else if source == "serpapi_google"@ {
        2
    } else if source == "gemini_fast"@ {
        3
    } else if source == "serpapi_images_url"@ || source == "serpapi_images_title"@ {
        4
    } else {
        5
    }
}

/// A strong source is one of the tier 0.
pub open spec fn strong(source: Seq<char>) -> bool {
    priority(source) == 0
}

/// Whether a value from `source` replaces what a field holds: always where
/// the field is empty, else only where the field's holder is known and
/// `source` is strictly stronger than it.
pub open spec fn overrides(source: Seq<char>, holder: Option<Seq<char>>, empty: bool) -> bool {
    empty || match holder {
        Some(h) => priority(source) < priority(h),
        None => false,
    }
}

/// The first value found under `product_name`, `name`, `title`, where it is a text.
pub open spec fn offered_name(p: Seq<Field>) -> Option<Seq<char>> {
    let found = match field(p, "product_name"@) {
        Some(v) => Some(v),
        None => match field(p, "name"@) {
            Some(v) => Some(v),
            None => field(p, "title"@),
        },
    };
    match found {
        Some(Json::Text(t)) => Some(t),
        _ => None,
    }
}

/// The value under `key`, where it is a text.
pub open spec fn offered_text(p: Seq<Field>, key: Seq<char>) -> Option<Seq<char>> {
    match field(p, key) {
        Some(Json::Text(t)) => Some(t),
        _ => None,
    }
}

/// The price under `price`, where it states an amount.
pub open spec fn offered_price(p: Seq<Field>) -> Option<PriceModel> {
    match field(p, "price"@) {
        Some(v) => if price_of_tree(v).amount is Some {
            Some(price_of_tree(v))
        } else {
            None
        },
        None => None,
    }
}

/// The texts among the items of an array, in order.
pub open spec fn texts_among(items: Seq<Json>) -> Seq<Seq<char>>
    decreases items.len(),
{
    if items.len() == 0 {
        Seq::empty()
    } else {
        match items.last() {
            Json::Text(t) => texts_among(items.drop_last()).push(t),
            _ => texts_among(items.drop_last()),
        }
    }
}

/// The image list found under `image_urls`, else under `images`, where it is
/// an array: its texts, without the empty ones and without repeats.
pub open spec fn offered_images(p: Seq<Field>) -> Option<Seq<Seq<char>>> {
    let found = match field(p, "image_urls"@) {
        Some(v) => Some(v),
        None => field(p, "images"@),
    };
    match found {
        Some(Json::Array(items)) => Some(distinct_nonempty(texts_among(items))),
        _ => None,
    }
}

/// Whether an offered text is taken into a field.
pub open spec fn taken<T>(
    offered: Option<T>,
    source: Seq<char>,
    holder: Option<Seq<char>>,
    empty: bool,
) -> bool {
    offered is Some && overrides(source, holder, empty)
}

/// Whether an offered image list is taken: where it is longer than the list
/// held, or as long and allowed to override.
pub open spec fn images_taken(
    offered: Option<Seq<Seq<char>>>,
    source: Seq<char>,
    holder: Option<Seq<char>>,
    held: Seq<Seq<char>>,
) -> bool {
    offered matches Some(list) && (list.len() > held.len() || (list.len() == held.len()
        && overrides(source, holder, held.len() == 0)))
}

/// The state after the payload `p` of `source` has been merged into `st`.
/// Each field is decided on its own; a field that is taken gets `source` as
/// its holder in the same step.
pub open spec fn merged(st: StateModel, p: Seq<Field>, source: Seq<char>) -> StateModel {
    let old = st.product;
    let by = st.attribution;
    let name = taken(offered_name(p), source, by.product_name, old.product_name is None);
    let brand = taken(offered_text(p, "brand"@), source, by.brand, old.brand is None);
    let price = taken(offered_price(p), source, by.price, !has_amount(old));
    let images = images_taken(offered_images(p), source, by.image_urls, old.image_urls);
    let garment = taken(
        offered_text(p, "garment_type"@),
        source,
        by.garment_type,
        old.garment_type is None,
    );
    let availability = taken(
        offered_text(p, "availability"@),
        source,
        by.availability,
        old.availability is None,
    );
    StateModel {
        product: ProductModel {
            product_name: if name {
                offered_name(p)
            } else {
                old.product_name
            },
            brand: if brand {
                offered_text(p, "brand"@)
            } else {
                old.brand
            },
            price: if price {
                offered_price(p)
            } else {
                old.price
            },
            image_urls: if images {
                offered_images(p)->0
            } else {
                old.image_urls
            },
            garment_type: if garment {
                offered_text(p, "garment_type"@)
            } else {
                old.garment_type
            },
            availability: if availability {
                offered_text(p, "availability"@)
            } else {
                old.availability
            },
        },
        attribution: AttributionModel {
            product_name: if name {
                Some(source)
            } else {
                by.product_name
            },
            brand: if brand {
                Some(source)
            } else {
                by.brand
            },
            price: if price {
                Some(source)
            } else {
                by.price
            },
            image_urls: if images {
                Some(source)
            } else {
                by.image_urls
            },
            garment_type: if garment {
                Some(source)
            } else {
                by.garment_type
            },
            availability: if availability {
                Some(source)
            } else {
                by.availability
            },
        },
    }
}

/// The state before anything has arrived.
pub open spec fn initial_state() -> StateModel {
    StateModel {
        product: empty_product(),
        attribution: AttributionModel {
            product_name: None,
            brand: None,
            price: None,
            image_urls: None,
            garment_type: None,
            availability: None,
        },
    }
}

/// A state is well formed when every field that holds a value has a holder,
/// a price that is held has an amount, and the image list holds no URL twice
/// and no empty URL.
pub open spec fn well_formed(st: StateModel) -> bool {
    &&& st.product.product_name is Some ==> st.attribution.product_name is Some
    &&& st.product.brand is Some ==> st.attribution.brand is Some
    &&& st.product.price is Some ==> has_amount(st.product) && st.attribution.price is Some
    &&& st.product.image_urls.len() > 0 ==> st.attribution.image_urls is Some
    &&& st.product.garment_type is Some ==> st.attribution.garment_type is Some
    &&& st.product.availability is Some ==> st.attribution.availability is Some
    &&& no_repeats(st.product.image_urls)
    &&& no_empties(st.product.image_urls)
}

/// Whether any field is held by a strong source.
pub open spec fn has_strong(by: AttributionModel) -> bool {
    ||| by.product_name matches Some(s) && strong(s)
    ||| by.brand matches Some(s) && strong(s)
    ||| by.price matches Some(s) && strong(s)
    ||| by.image_urls matches Some(s) && strong(s)
    ||| by.garment_type matches Some(s) && strong(s)
    ||| by.availability matches Some(s) && strong(s)
}

/// The tier of a source.
pub fn source_priority(source: &str) -> (tier: u8)
    ensures
        tier == priority(source@),
{
    if text_eq(source, "curlcffi_gemini") || text_eq(source, "curlcffi_gemini_proxy") || text_eq(
        source,
        "requests_gemini",
    ) || text_eq(source, "cloudflare_gemini") {
        0
    } else if text_eq(source, "gemini_classification") {
        1
    } else if text_eq(source, "serpapi_google") {
        2
    } else if text_eq(source, "gemini_fast") {
        3
    } else if text_eq(source, "serpapi_images_url") || text_eq(source, "serpapi_images_title") {
        4
    } else {
        5
    }
}

/// Whether a value from `source` replaces what a field holds.
pub fn should_override_field(source: &str, holder: &Option<String>, is_empty: bool) -> (r: bool)
    ensures
        r == overrides(source@, opt_view(*holder), is_empty),
{
    if is_empty {
        return true;
    }
    match holder {
        Some(h) => source_priority(source) < source_priority(h.as_str()),
        None => false,
    }
}

fn holder_is_strong(holder: &Option<String>) -> (r: bool)
    ensures
        r == (opt_view(*holder) matches Some(s) && strong(s)),
{
    match holder {
        Some(h) => source_priority(h.as_str()) == 0,
        None => false,
    }
}

impl Payload {
    pub fn new() -> (out: Self)
        ensures
            out@ == Seq::<Field>::empty(),
    {
        let out = Payload { fields: Vec::new() };
        assert(out@ =~= Seq::<Field>::empty());
        out
    }

    /// Appends a named value. A name that is already there keeps its first value.
    pub fn push(&mut self, key: String, value: JsonValue)
        ensures
            final(self)@ == old(self)@.push(Field { key: key@, value: value@ }),
    {
        self.fields.push(Member { key, value });
        assert(self@ =~= old(self)@.push(Field { key: key@, value: value@ }));
    }

    /// The first value named `key`.
    pub fn get(&self, key: &str) -> (out: Option<&JsonValue>)
        ensures
            match out {
                Some(v) => field(self@, key@) == Some(v@),
                None => field(self@, key@) is None,
            },
    {
        find_field(&self.fields, key)
    }

    fn name(&self) -> (out: Option<&String>)
        ensures
            match out {
                Some(t) => offered_name(self@) == Some(t@),
                None => offered_name(self@) is None,
            },
    {
        let found = match self.get("product_name") {
            Some(v) => Some(v),
            None => match self.get("name") {
                Some(v) => Some(v),
                None => self.get("title"),
            },
        };
        match found {
            Some(v) => v.as_text(),
            None => None,
        }
    }

    fn text(&self, key: &str) -> (out: Option<&String>)
        ensures
            match out {
                Some(t) => offered_text(self@, key@) == Some(t@),
                None => offered_text(self@, key@) is None,
            },
    {
        match self.get(key) {
            Some(v) => v.as_text(),
            None => None,
        }
    }

    fn price(&self) -> (out: Option<Price>)
        ensures
            match out {
                Some(p) => offered_price(self@) == Some(p@),
                None => offered_price(self@) is None,
            },
    {
        match self.get("price") {
            Some(v) => {
                let parsed = parse_price(v);
                if parsed.amount.is_some() {
                    Some(parsed)
                } else {
                    None
                }
            },
            None => None,
        }
    }

    fn images(&self) -> (out: Option<Vec<String>>)
        ensures
            match out {
                Some(list) => offered_images(self@) == Some(views(list@)),
                None => offered_images(self@) is None,
            },
    {
        let found = match self.get("image_urls") {
            Some(v) => Some(v),
            None => self.get("images"),
        };
        match found {
            Some(v) => match v.as_items() {
                Some(items) => Some(distinct_texts(items)),
                None => None,
            },
            None => None,
        }
    }
}

/// The texts among `items`, without the empty ones and without repeats.
pub fn distinct_texts(items: &Vec<JsonValue>) -> (out: Vec<String>)
    ensures
        views(out@) == distinct_nonempty(texts_among(trees(items@))),
{
    let mut out: Vec<String> = Vec::new();
    let ghost all = trees(items@);
    let mut i: usize = 0;
    assert(all.take(0) == Seq::<Json>::empty());
    assert(views(out@) =~= Seq::<Seq<char>>::empty());
    while i < items.len()
        invariant
            i <= items.len(),
            all == trees(items@),
            views(out@) == distinct_nonempty(texts_among(all.take(i as int))),
        decreases items.len() - i,
    {
        assert(all.take(i + 1).drop_last() == all.take(i as int));
        assert(all.take(i + 1).last() == items@[i as int]@);
        match &items[i] {
            JsonValue::Text(t) => {
                push_distinct(&mut out, t.clone(), Ghost(texts_among(all.take(i as int))));
            },
            _ => {},
        }
        i += 1;
    }
    assert(all.take(items.len() as int) == all);
    out
}

/// The view of a price that may be absent.
pub open spec fn opt_price(p: Option<Price>) -> Option<PriceModel> {
    match p {
        Some(x) => Some(x@),
        None => None,
    }
}

fn merge_text(
    value: &mut Option<String>,
    holder: &mut Option<String>,
    offered: Option<&String>,
    source: &str,
)
    ensures
        ({
            let gets = match offered {
                Some(t) => Some(t@),
                None => None,
            };
            let take = taken(gets, source@, opt_view(*old(holder)), *old(value) is None);
            &&& opt_view(*final(value)) == if take {
                gets
            } else {
                opt_view(*old(value))
            }
            &&& opt_view(*final(holder)) == if take {
                Some(source@)
            } else {
                opt_view(*old(holder))
            }
        }),
{
    if let Some(t) = offered {
        let empty = value.is_none();
        if should_override_field(source, holder, empty) {
            *value = Some(t.clone());
            *holder = Some(source.to_string());
        }
    }
}

fn merge_price(
    value: &mut Option<Price>,
    holder: &mut Option<String>,
    offered: Option<Price>,
    source: &str,
)
    ensures
        ({
            let held = opt_price(*old(value));
            let empty = !(held matches Some(p) && p.amount is Some);
            let take = taken(opt_price(offered), source@, opt_view(*old(holder)), empty);
            &&& opt_price(*final(value)) == if take {
                opt_price(offered)
            } else {
                held
            }
            &&& opt_view(*final(holder)) == if take {
                Some(source@)
            } else {
                opt_view(*old(holder))
            }
        }),
{
    if let Some(p) = offered {
        let empty = match value {
            Some(held) => held.amount.is_none(),
            None => true,
        };
        if should_override_field(source, holder, empty) {
            *value = Some(p);
            *holder = Some(source.to_string());
        }
    }
}

fn merge_images(
    value: &mut Vec<String>,
    holder: &mut Option<String>,
    offered: Option<Vec<String>>,
    source: &str,
)
    ensures
        ({
            let gets = match offered {
                Some(list) => Some(views(list@)),
                None => None,
            };
            let take = images_taken(gets, source@, opt_view(*old(holder)), views(old(value)@));
            &&& views(final(value)@) == if take {
                gets->0
            } else {
                views(old(value)@)
            }
            &&& opt_view(*final(holder)) == if take {
                Some(source@)
            } else {
                opt_view(*old(holder))
            }
        }),
{
    if let Some(urls) = offered {
        let held: usize = value.len();
        let take = urls.len() > held || (urls.len() == held && should_override_field(
            source,
            holder,
            held == 0,
        ));
        if take {
            *value = urls;
            *holder = Some(source.to_string());
        }
    }
}

impl ScrapeState {
    pub fn new() -> (out: Self)
        ensures
            out@ == initial_state(),
            well_formed(out@),
    {
        ScrapeState {
            product: ProductData::new(),
            attribution: Attribution {
                product_name: None,
                brand: None,
                price: None,
                image_urls: None,
                garment_type: None,
                availability: None,
            },
        }
    }

    /// Merges what `source` reports into the state, field by field.
    pub fn merge_data(&mut self, incoming: &Payload, source: &str)
        ensures
            final(self)@ == merged(old(self)@, incoming@, source@),
            well_formed(old(self)@) ==> well_formed(final(self)@),
    {
        let ghost before = self@;
        merge_text(
            &mut self.product.product_name,
            &mut self.attribution.product_name,
            incoming.name(),
            source,
        );
        merge_text(
            &mut self.product.brand,
            &mut self.attribution.brand,
            incoming.text("brand"),
            source,
        );
        merge_price(&mut self.product.price, &mut self.attribution.price, incoming.price(), source);
        merge_images(
            &mut self.product.image_urls,
            &mut self.attribution.image_urls,
            incoming.images(),
            source,
        );
        merge_text(
            &mut self.product.garment_type,
            &mut self.attribution.garment_type,
            incoming.text("garment_type"),
            source,
        );
        merge_text(
            &mut self.product.availability,
            &mut self.attribution.availability,
            incoming.text("availability"),
            source,
        );
        proof {
            if well_formed(before) {
                lemma_merge_keeps_well_formed(before, incoming@, source@);
            }
        }
    }

    pub fn is_complete(&self) -> (r: bool)
        ensures
            r == complete(self@.product),
    {
        self.product.is_complete()
    }

    pub fn has_strong_source(&self) -> (r: bool)
        ensures
            r == has_strong(self@.attribution),
    {
        holder_is_strong(&self.attribution.product_name) || holder_is_strong(
            &self.attribution.brand,
        ) || holder_is_strong(&self.attribution.price) || holder_is_strong(
            &self.attribution.image_urls,
        ) || holder_is_strong(&self.attribution.garment_type) || holder_is_strong(
            &self.attribution.availability,
        )
    }
}

/// Merging keeps a state well formed: among other things the image list
/// never holds a URL twice, nor an empty URL.
pub proof fn lemma_merge_keeps_well_formed(st: StateModel, p: Seq<Field>, source: Seq<char>)
    requires
        well_formed(st),
    ensures
        well_formed(merged(st, p, source)),
{
    match offered_images(p) {
        Some(list) => {
            let found = match field(p, "image_urls"@) {
                Some(v) => Some(v),
                None => field(p, "images"@),
            };
            lemma_distinct_nonempty(texts_among(found->0->Array_0));
        },
        None => {},
    }
}

/// Two states agree on every field but the image list, value and holder alike.
pub open spec fn same_but_images(a: StateModel, b: StateModel) -> bool {
    &&& a.product.product_name == b.product.product_name
    &&& a.product.brand == b.product.brand
    &&& a.product.price == b.product.price
    &&& a.product.garment_type == b.product.garment_type
    &&& a.product.availability == b.product.availability
    &&& a.attribution.product_name == b.attribution.product_name
    &&& a.attribution.brand == b.attribution.brand
    &&& a.attribution.price == b.attribution.price
    &&& a.attribution.garment_type == b.attribution.garment_type
    &&& a.attribution.availability == b.attribution.availability
}

/// Whether a payload offers an image list that is not empty.
pub open spec fn offers_images(p: Seq<Field>) -> bool {
    offered_images(p) matches Some(list) && list.len() > 0
}

/// Priority decides, not the order of arrival: two payloads from sources of
/// different tiers give, merged into any state in either order, the same
/// value and the same holder for every field but the image list, and the
/// same image list. The holder of the image list is the same too, unless
/// neither payload offers an image: of two empty lists the later one gives
/// its name.
pub proof fn lemma_merge_order(
    st: StateModel,
    one: Seq<Field>,
    source_one: Seq<char>,
    other: Seq<Field>,
    source_other: Seq<char>,
)
    requires
        priority(source_one) != priority(source_other),
    ensures
        same_but_images(
            merged(merged(st, one, source_one), other, source_other),
            merged(merged(st, other, source_other), one, source_one),
        ),
        merged(merged(st, one, source_one), other, source_other).product.image_urls == merged(
            merged(st, other, source_other),
            one,
            source_one,
        ).product.image_urls,
        offers_images(one) || offers_images(other) ==> merged(
            merged(st, one, source_one),
            other,
            source_other,
        ).attribution.image_urls == merged(
            merged(st, other, source_other),
            one,
            source_one,
        ).attribution.image_urls,
{
}

/// A field that holds a value keeps holding one, so a record that is
/// complete stays complete whatever is merged into it.
pub proof fn lemma_complete_stays(st: StateModel, p: Seq<Field>, source: Seq<char>)
    requires
        complete(st.product),
    ensures
        complete(merged(st, p, source).product),
{
}

/// One payload and the source that reported it.
pub struct Arrival {
    pub payload: Seq<Field>,
    pub source: Seq<char>,
}

/// The state after the arrivals of `history` were merged, one after the
/// other, into the initial state.
pub open spec fn replay(history: Seq<Arrival>) -> StateModel
    decreases history.len(),
{
    if history.len() == 0 {
        initial_state()
    } else {
        merged(replay(history.drop_last()), history.last().payload, history.last().source)
    }
}

/// What a payload offers for the name.
pub open spec fn pick_name() -> spec_fn(Seq<Field>) -> Option<Seq<char>> {
    |p: Seq<Field>| offered_name(p)
}

/// What a payload offers for the text field `key`.
pub open spec fn pick_text(key: Seq<char>) -> spec_fn(Seq<Field>) -> Option<Seq<char>> {
    |p: Seq<Field>| offered_text(p, key)
}

/// What a payload offers for the price.
pub open spec fn pick_price() -> spec_fn(Seq<Field>) -> Option<PriceModel> {
    |p: Seq<Field>| offered_price(p)
}

/// What a payload offers for the image list.
pub open spec fn pick_images() -> spec_fn(Seq<Field>) -> Option<Seq<Seq<char>>> {
    |p: Seq<Field>| offered_images(p)
}

/// The arrival `k` of `history` came from `holder` and offered `value`.
pub open spec fn offers<T>(
    history: Seq<Arrival>,
    k: int,
    holder: Seq<char>,
    value: T,
    pick: spec_fn(Seq<Field>) -> Option<T>,
) -> bool {
    0 <= k < history.len() && history[k].source == holder && pick(history[k].payload) == Some(
        value,
    )
}

/// A field with its holder: without a holder the field is empty; with one,
/// some arrival from that very source offered the value that the field holds.
pub open spec fn accounted<T>(
    history: Seq<Arrival>,
    value: Option<T>,
    holder: Option<Seq<char>>,
    pick: spec_fn(Seq<Field>) -> Option<T>,
) -> bool {
    match holder {
        Some(h) => value is Some && exists|k: int| #[trigger] offers(history, k, h, value->0, pick),
        None => value is None,
    }
}

/// As [`accounted`], for the image list, which is empty where it has no holder.
pub open spec fn images_accounted(
    history: Seq<Arrival>,
    list: Seq<Seq<char>>,
    holder: Option<Seq<char>>,
) -> bool {
    match holder {
        Some(_) => accounted(history, Some(list), holder, pick_images()),
        None => list.len() == 0,
    }
}

/// Every field of `st` is accounted for by `history`.
pub open spec fn all_accounted(history: Seq<Arrival>, st: StateModel) -> bool {
    &&& accounted(
        history,
        st.product.product_name,
        st.attribution.product_name,
        pick_name(),
    )
    &&& accounted(
        history,
        st.product.brand,
        st.attribution.brand,
        pick_text("brand"@),
    )
    &&& accounted(
        history,
        st.product.price,
        st.attribution.price,
        pick_price(),
    )
    &&& images_accounted(history, st.product.image_urls, st.attribution.image_urls)
    &&& accounted(
        history,
        st.product.garment_type,
        st.attribution.garment_type,
        pick_text("garment_type"@),
    )
    &&& accounted(
        history,
        st.product.availability,
        st.attribution.availability,
        pick_text("availability"@),
    )
}

proof fn lemma_accounted_step<T>(
    history: Seq<Arrival>,
    before: Option<T>,
    holder_before: Option<Seq<char>>,
    after: Option<T>,
    holder_after: Option<Seq<char>>,
    pick: spec_fn(Seq<Field>) -> Option<T>,
)
    requires
        history.len() > 0,
        accounted(history.drop_last(), before, holder_before, pick),
        (after == before && holder_after == holder_before) || (after is Some && after == pick(
            history.last().payload,
        ) && holder_after == Some(history.last().source)),
    ensures
        accounted(history, after, holder_after, pick),
{
    if after == before && holder_after == holder_before {
        if let Some(h) = holder_before {
            let k = choose|k: int| offers(history.drop_last(), k, h, before->0, pick);
            assert(history.drop_last()[k] == history[k]);
            assert(offers(history, k, holder_after->0, after->0, pick));
        }
    } else {
        assert(offers(history, history.len() - 1, holder_after->0, after->0, pick));
    }
}

/// The attribution of a field names the source of its current value:
/// whatever arrived, in whatever order, each field of the resulting state
/// that has a holder holds a value which an arrival from that holder offered,
/// and a field without a holder is empty.
pub proof fn lemma_attribution_names_the_source(history: Seq<Arrival>)
    ensures
        all_accounted(history, replay(history)),
        well_formed(replay(history)),
    decreases history.len(),
{
    if history.len() == 0 {
    } else {
        let front = history.drop_last();
        let st = replay(front);
        let p = history.last().payload;
        let source = history.last().source;
        let next = merged(st, p, source);
        lemma_attribution_names_the_source(front);
        lemma_merge_keeps_well_formed(st, p, source);
        lemma_accounted_step(
            history,
            st.product.product_name,
            st.attribution.product_name,
            next.product.product_name,
            next.attribution.product_name,
            pick_name(),
        );
        lemma_accounted_step(
            history,
            st.product.brand,
            st.attribution.brand,
            next.product.brand,
            next.attribution.brand,
            pick_text("brand"@),
        );
        lemma_accounted_step(
            history,
            st.product.price,
            st.attribution.price,
            next.product.price,
            next.attribution.price,
            pick_price(),
        );
        lemma_accounted_step(
            history,
            st.product.garment_type,
            st.attribution.garment_type,
            next.product.garment_type,
            next.attribution.garment_type,
            pick_text("garment_type"@),
        );
        lemma_accounted_step(
            history,
            st.product.availability,
            st.attribution.availability,
            next.product.availability,
            next.attribution.availability,
            pick_text("availability"@),
        );
        let pick = pick_images();
        let list = next.product.image_urls;
        let holder = next.attribution.image_urls;
        let held = st.product.image_urls;
        if images_taken(offered_images(p), source, st.attribution.image_urls, held) {
            assert(offers(history, history.len() - 1, holder->0, Some(list)->0, pick));
        } else if let Some(h) = st.attribution.image_urls {
            let k = choose|k: int| offers(front, k, h, Some(st.product.image_urls)->0, pick);
            assert(front[k] == history[k]);
            assert(offers(history, k, holder->0, Some(list)->0, pick));
        }
    }
}

/// The image list held is the best that was offered: after any history no
/// arrival has offered a longer list than the one held, and none that
/// offered an equally long list, if it is not empty, came from a stronger
/// source than the holder.
pub proof fn lemma_image_list_is_best(history: Seq<Arrival>, k: int)
    requires
        0 <= k < history.len(),
        offered_images(history[k].payload) is Some,
    ensures
        ({
            let st = replay(history);
            let list = offered_images(history[k].payload)->0;
            &&& list.len() <= st.product.image_urls.len()
            &&& list.len() == st.product.image_urls.len() && list.len() > 0 ==> {
                &&& st.attribution.image_urls is Some
                &&& priority(st.attribution.image_urls->0) <= priority(history[k].source)
            }
        }),
    decreases history.len(),
{
    let front = history.drop_last();
    lemma_attribution_names_the_source(front);
    if k < history.len() - 1 {
        assert(front[k] == history[k]);
        lemma_image_list_is_best(front, k);
    }
}

} // verus!
