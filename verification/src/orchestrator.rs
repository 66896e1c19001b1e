//! The race between the sources: when to stop waiting, and what the record
//! that was gathered is worth.

use crate::merge::{has_strong, ScrapeState, StateModel};
use crate::product::{complete, has_amount, ProductData, ProductModel};
use crate::text::{opt_view, text_eq};
use crate::urls::{split_url, url_parts};
use vstd::prelude::*;
use vstd::string::StringExecFns;

verus! {

/// The time between two looks at the state, in milliseconds.
pub const POLL_INTERVAL_MS: u64 = 100;

/// The time after which a complete record is taken without a strong source,
/// in milliseconds.
pub const SOFT_DEADLINE_MS: u64 = 5_000;

/// The time after which the race ends whatever was gathered, in milliseconds,
/// where the caller names none.
pub const DEFAULT_TIMEOUT_MS: u64 = 30_000;

/// The number of times the search by title looks for a product name.
pub const NAME_WAIT_ATTEMPTS: u32 = 80;

/// What the race does after a look at the state.
#[derive(Debug, Clone, Copy, PartialEq, Eq)]
pub enum Decision {
    /// The record is complete and a strong source has contributed.
    StopStrong,
    /// The record is complete and the soft deadline has passed.
    StopSoft,
    /// The hard deadline has passed.
    StopHard,
    /// Look again after the poll interval.
    Wait,
}

/// What the race does when `elapsed` milliseconds have passed of `timeout`:
/// it stops on a complete record that a strong source has contributed to;
/// it stops on a complete record once more than five seconds have passed;
/// it stops when the timeout has passed; else it waits.
pub open spec fn decision(st: StateModel, elapsed: nat, timeout: nat) -> Decision {
    if complete(st.product) && has_strong(st.attribution) {
        Decision::StopStrong
    } else if complete(st.product) && elapsed > SOFT_DEADLINE_MS {
        Decision::StopSoft
    } else if elapsed >= timeout {
        Decision::StopHard
    } else {
        Decision::Wait
    }
}

/// Decides whether the race goes on.
pub fn decide(state: &ScrapeState, elapsed_ms: u64, timeout_ms: u64) -> (out: Decision)
    ensures
        out == decision(state@, elapsed_ms as nat, timeout_ms as nat),
{
    let complete = state.is_complete();
    if complete && state.has_strong_source() {
        Decision::StopStrong
    } else if complete && elapsed_ms > SOFT_DEADLINE_MS {
        Decision::StopSoft
    } else if elapsed_ms >= timeout_ms {
        Decision::StopHard
    } else {
        Decision::Wait
    }
}

/// The race never stops early on a record that is not complete, and never
/// waits beyond the timeout.
pub proof fn lemma_decision(st: StateModel, elapsed: nat, timeout: nat)
    ensures
        decision(st, elapsed, timeout) is StopStrong || decision(st, elapsed, timeout) is StopSoft
            ==> complete(st.product),
        decision(st, elapsed, timeout) is Wait ==> elapsed < timeout,
        decision(st, elapsed, timeout) is StopSoft ==> !has_strong(st.attribution),
{
}

/// The sources that race, in the order in which they are started.
pub fn approaches() -> (out: Vec<&'static str>)
    ensures
        out@.len() == 8,
        out@[0]@ == "gemini_fast"@,
        out@[1]@ == "curlcffi_gemini"@,
        out@[2]@ == "curlcffi_gemini_proxy"@,
        out@[3]@ == "requests_gemini"@,
        out@[4]@ == "cloudflare_gemini"@,
        out@[5]@ == "serpapi_google"@,
        out@[6]@ == "serpapi_images_url"@,
        out@[7]@ == "serpapi_images_title"@,
{
    vec![
        "gemini_fast",
        "curlcffi_gemini",
        "curlcffi_gemini_proxy",
        "requests_gemini",
        "cloudflare_gemini",
        "serpapi_google",
        "serpapi_images_url",
        "serpapi_images_title",
    ]
}

/// What the search by title does while it waits for a product name.
#[derive(Debug, Clone, Copy, PartialEq, Eq)]
pub enum NameWait {
    /// The name is there: search.
    Go,
    /// Look again after the poll interval.
    Wait,
    /// The name did not come in time.
    GiveUp,
}

/// What the search by title does after `attempts` looks without a name: it
/// goes on as soon as there is a name, waits while at most eighty looks
/// have failed, and gives up after that.
pub open spec fn name_wait(known: bool, attempts: nat) -> NameWait {
    if known {
        NameWait::Go
    } else if attempts >= NAME_WAIT_ATTEMPTS {
        NameWait::GiveUp
    } else {
        NameWait::Wait
    }
}

/// Decides whether the search by title goes on waiting. `attempts` counts
/// the looks that have found no name before this one.
pub fn wait_for_name(state: &ScrapeState, attempts: u32) -> (out: NameWait)
    ensures
        out == name_wait(state@.product.product_name is Some, attempts as nat),
{
    if state.product.product_name.is_some() {
        NameWait::Go
    } else if attempts >= NAME_WAIT_ATTEMPTS {
        NameWait::GiveUp
    } else {
        NameWait::Wait
    }
}

/// The query of the search by title: the name between quotes, then `site:`
/// and the host of the page. `None` where the URL has no host.
pub open spec fn title_query(name: Seq<char>, url: Seq<char>) -> Option<Seq<char>> {
    match url_parts(url) {
        Some(parts) => match parts.host {
            Some(host) => Some(seq!['"'] + name + "\" site:"@ + host),
            None => None,
        },
        None => None,
    }
}

/// The query of the search by title.
pub fn image_title_query(name: &str, url: &str) -> (out: Option<String>)
    ensures
        opt_view(out) == title_query(name@, url@),
{
    match split_url(url) {
        Some(parts) => match &parts.host {
            Some(host) => {
                let mut q = String::new();
                proof {
                    reveal_strlit("\"");
                }
                q.append("\"");
                q.append(name);
                q.append("\" site:");
                q.append(host.as_str());
                assert(q@ =~= seq!['"'] + name@ + "\" site:"@ + host@);
                Some(q)
            },
            None => None,
        },
        None => None,
    }
}

/// Why a record is refused.
#[derive(Debug)]
pub enum ScrapeError {
    /// The page shows no fashion product.
    NotFashionProduct { url: String },
    /// The product is of no supported kind; `got` is the garment type found.
    UnsupportedProduct { url: String, got: Option<String> },
}

pub enum ErrorModel {
    NotFashionProduct { url: Seq<char> },
    UnsupportedProduct { url: Seq<char>, got: Option<Seq<char>> },
}

impl View for ScrapeError {
    type V = ErrorModel;

    open spec fn view(&self) -> ErrorModel {
        match self {
            ScrapeError::NotFashionProduct { url } => ErrorModel::NotFashionProduct { url: url@ },
            ScrapeError::UnsupportedProduct { url, got } => ErrorModel::UnsupportedProduct {
                url: url@,
                got: opt_view(*got),
            },
        }
    }
}

/// Whether a garment type is one that is supported.
pub open spec fn is_supported(garment: Seq<char>) -> bool {
    garment == "upper"@ || garment == "lower"@ || garment == "full_body"@ || garment == "shoes"@
}

/// The verdict on a record: `unsupported` is no fashion product; a garment
/// type that is supported passes; any other, or none, is an unsupported product.
pub open spec fn verdict(p: ProductModel, url: Seq<char>) -> Option<ErrorModel> {
    match p.garment_type {
        Some(g) => if g == "unsupported"@ {
            Some(ErrorModel::NotFashionProduct { url })
        } else if is_supported(g) {
            None
        } else {
            Some(ErrorModel::UnsupportedProduct { url, got: Some(g) })
        },
        None => Some(ErrorModel::UnsupportedProduct { url, got: None }),
    }
}

/// Judges the record that the race has gathered for `url`.
pub fn validate(product: &ProductData, url: &str) -> (out: Result<(), ScrapeError>)
    ensures
        match out {
            Ok(_) => verdict(product@, url@) is None,
            Err(e) => verdict(product@, url@) == Some(e@),
        },
{
    match &product.garment_type {
        Some(g) => {
            let g = g.as_str();
            if text_eq(g, "unsupported") {
                Err(ScrapeError::NotFashionProduct { url: url.to_string() })
            } else if text_eq(g, "upper") || text_eq(g, "lower") || text_eq(g, "full_body")
                || text_eq(g, "shoes") {
                Ok(())
            } else {
                Err(
                    ScrapeError::UnsupportedProduct {
                        url: url.to_string(),
                        got: Some(g.to_string()),
                    },
                )
            }
        },
        None => Err(ScrapeError::UnsupportedProduct { url: url.to_string(), got: None }),
    }
}

/// The message of an error.
pub open spec fn message_of(e: ErrorModel) -> Seq<char> {
    match e {
        ErrorModel::NotFashionProduct { url } => "NotFashionProductError: The page at "@ + url
            + " is not a fashion product page"@,
        ErrorModel::UnsupportedProduct { url, got } => match got {
            Some(g) => if g == "other"@ {
                "UnsupportedProductError: The product at "@ + url
                    + " is not a supported fashion item (garment_type: other)"@
            } else {
                "UnsupportedProductError: Could not determine garment type for product at "@ + url
                    + " (got: "@ + g + ")"@
            },
            None => "UnsupportedProductError: Could not determine garment type for product at "@
                + url + " (got: None)"@,
        },
    }
}

impl ScrapeError {
    /// The message of the error.
    pub fn message(&self) -> (out: String)
        ensures
            out@ == message_of(self@),
    {
        let mut out = String::new();
        match self {
            ScrapeError::NotFashionProduct { url } => {
                out.append("NotFashionProductError: The page at ");
                out.append(url.as_str());
                out.append(" is not a fashion product page");
                assert(out@ =~= message_of(self@));
            },
            ScrapeError::UnsupportedProduct { url, got } => match got {
                Some(g) => {
                    if text_eq(g.as_str(), "other") {
                        out.append("UnsupportedProductError: The product at ");
                        out.append(url.as_str());
                        out.append(" is not a supported fashion item (garment_type: other)");
                        assert(out@ =~= message_of(self@));
                    } else {
                        out.append(
                            "UnsupportedProductError: Could not determine garment type for product at ",
                        );
                        out.append(url.as_str());
                        out.append(" (got: ");
                        out.append(g.as_str());
                        out.append(")");
                        assert(out@ =~= message_of(self@));
                    }
                },
                None => {
                    out.append(
                        "UnsupportedProductError: Could not determine garment type for product at ",
                    );
                    out.append(url.as_str());
                    out.append(" (got: None)");
                    assert(out@ =~= message_of(self@));
                },
            },
        }
        out
    }
}

/// What a record lacks, for the caller's report.
#[derive(Debug, Clone, Copy, PartialEq, Eq)]
pub struct MissingFlags {
    pub name_missing: bool,
    pub brand_missing: bool,
    pub price_missing: bool,
    pub image_missing: bool,
    pub unsupported: bool,
}

/// The flags of a record: a flag for each of name, brand, price with an
/// amount and images that it lacks, and one for the garment type `unsupported`.
pub open spec fn flags_of(p: ProductModel) -> MissingFlags {
    MissingFlags {
        name_missing: p.product_name is None,
        brand_missing: p.brand is None,
        price_missing: !has_amount(p),
        image_missing: p.image_urls.len() == 0,
        unsupported: p.garment_type == Some("unsupported"@),
    }
}

/// A record counts as a success when it lacks none of name, brand, price and images.
pub open spec fn succeeded(f: MissingFlags) -> bool {
    !(f.name_missing || f.brand_missing || f.price_missing || f.image_missing)
}

/// The flags of a record.
pub fn missing_flags(product: &ProductData) -> (out: MissingFlags)
    ensures
        out == flags_of(product@),
{
    MissingFlags {
        name_missing: product.product_name.is_none(),
        brand_missing: product.brand.is_none(),
        price_missing: !product.is_complete_price(),
        image_missing: product.image_urls.len() == 0,
        unsupported: match &product.garment_type {
            Some(g) => text_eq(g.as_str(), "unsupported"),
            None => false,
        },
    }
}

impl MissingFlags {
    /// Whether the record counts as a success.
    pub fn success(&self) -> (r: bool)
        ensures
            r == succeeded(*self),
    {
        !(self.name_missing || self.brand_missing || self.price_missing || self.image_missing)
    }
}

/// A record that is complete is a success, whatever its garment type.
pub proof fn lemma_complete_is_success(p: ProductModel)
    requires
        complete(p),
    ensures
        succeeded(flags_of(p)),
{
}

/// A record that passes is of a supported kind, so it is never flagged as unsupported.
pub proof fn lemma_passed_is_supported(p: ProductModel, url: Seq<char>)
    requires
        verdict(p, url) is None,
    ensures
        p.garment_type matches Some(g) && is_supported(g),
        !flags_of(p).unsupported,
{
    reveal_strlit("unsupported");
    reveal_strlit("upper");
    reveal_strlit("lower");
    reveal_strlit("full_body");
    reveal_strlit("shoes");
}

} // verus!
