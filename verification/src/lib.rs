//! The core of a scraper of fashion product pages.
//!
//! Several sources report what they know of one product; the library merges
//! their reports by the strength of the source, decides when enough is known,
//! and judges the record that results. It also turns a page into the compact
//! snapshot that a language model is asked about, reads the answers of the
//! model and of the search service, and normalises prices and URLs.
//!
//! The library does no input or output. Whoever uses it fetches the pages,
//! asks the services and reads the clock, and hands the library plain values.
//!
//! Parsing of HTML, URLs, JSON and regular expressions is left to the crates
//! `scraper`, `url`, `urlencoding`, `serde_json` and `regex`. Each call into
//! them stands in a function of its own, whose contract is believed and not
//! proved; everything around these calls is verified.

pub mod dom;
pub mod extract;
pub mod fetch;
pub mod html_extractor;
pub mod json;
pub mod merge;
pub mod numbers;
pub mod orchestrator;
pub mod patterns;
pub mod price;
pub mod product;
pub mod responses;
pub mod search;
pub mod seqs;
pub mod text;
pub mod urls;

pub use html_extractor::ProductDataExtractor;
