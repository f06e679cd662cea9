//! Verified core of a wallpaper retrieval tool.
//!
//! The library covers the logic of fetching wallpaper images that match
//! requested screen resolutions from remote gallery sites, with fallback
//! between sources, and of persisting them into a resolution-keyed
//! directory tree.  All network and filesystem traffic is performed by the
//! surrounding application; this crate holds the decisions: URL
//! construction, page scraping, provider selection and elimination, and
//! the exact layout of what is written where.

pub mod error;
pub mod function;
pub mod orchestrator;
pub mod params;
pub mod pic;
pub mod provider;
mod rng;
pub mod scrape;
pub mod sink;
pub mod text;
