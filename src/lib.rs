//! Classification of a video's renditions and a download engine that retrieves
//! one rendition, whole or segment by segment.
use vstd::prelude::*;

pub mod classify;
pub mod download;
pub mod error;
pub mod segment;
pub mod stream;
pub mod video_info;

pub use classify::{includes_audio_track, includes_video_track, is_adaptive, is_progressive};
pub use error::{Error, Unexpected};
pub use stream::Stream;
pub use video_info::{Thumbnail, VideoInfo};

verus! {

} // verus!
