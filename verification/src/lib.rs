//! Metadata for video pages, read from a bounded prefix of each page.
//!
//! An address is checked and reduced to the identifier of its video
//! ([`YoutubeVideoId`]); the page is fetched chunk by chunk into a bounded
//! buffer ([`Collector`]); the record of the video is read out of that
//! buffer ([`Metada`]); and the address of its thumbnail is computed from the
//! identifier.

pub mod decimal;
pub mod duration;
pub mod fetch;
pub mod metadata;
pub mod millis;
pub mod page;
pub mod thumbnail;
pub mod video_id;

pub use crate::fetch::{
    collect, Collector, FetchBudget, FetchError, Progress, MAX_BYTES, OFFSET_CHUNKS_COUNT,
};
pub use crate::metadata::{ExtractError, Metada};
pub use crate::millis::Millis;
pub use crate::page::{Page, PageError};
pub use crate::thumbnail::{prepare, IoError, Preparation, Target};
pub use crate::video_id::{ValidationError, YoutubeVideoId};
