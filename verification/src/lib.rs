//! Geospatial collection engine: POI collection plans, map-tile enumeration
//! and download bookkeeping, with verified contracts over the core logic.

use vstd::prelude::*;

pub mod categories;
pub mod collectors;
pub mod convert;
pub mod coords;
pub mod downloader;
pub mod engine;
pub mod export;
pub mod platforms;
pub mod progress;
pub mod regions;
pub mod storage;
pub mod store;
pub mod surface;
pub mod tasks;
pub mod text;
pub mod tiles;
pub mod types;

verus! {

} // verus!
