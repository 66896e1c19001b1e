//! The steps of the extraction, one file each.

pub mod content;
pub mod images;
pub mod inline_images;
pub mod price_signals;
pub mod snapshot;
pub mod structured;
