//! A photo culling library: the rules that a desktop photo sorter runs on.
use vstd::prelude::*;

pub mod af;
pub mod agreement;
pub mod analyze;
pub mod blink;
pub mod bursts;
pub mod cache;
pub mod choices;
pub mod datetime;
pub mod db;
pub mod exif_detail;
pub mod exif_doc;
pub mod exif_fields;
pub mod exif_names;
pub mod export;
pub mod facets;
pub mod filepath;
pub mod filter;
pub mod focus;
pub mod formats;
pub mod frame;
pub mod hash;
pub mod image_io;
pub mod indexer;
pub mod listing;
pub mod marks;
pub mod orientation;
pub mod pairing;
pub mod paths;
pub mod picture;
pub mod placeholders;
pub mod preview;
pub mod record;
pub mod scans;
pub mod shapes;
pub mod sorting;
pub mod text;
pub mod thumb;
pub mod values;
pub mod whereabouts;
pub mod wording;

verus! {

} // verus!
