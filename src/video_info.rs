use vstd::prelude::*;

verus! {

/// The metadata document of a video as the origin delivers it.
#[derive(Clone, Debug)]
pub struct VideoInfo {
    /// The player response: a JSON document carried as text.
    pub player_response: String,
    /// The raw description of the adaptive formats, when present.
    pub adaptive_fmts_raw: Option<String>,
    /// Whether the video is age restricted; never part of the document itself.
    pub is_age_restricted: bool,
}

/// A preview image of a video.
#[derive(Clone, Debug, PartialEq, Eq, Hash)]
pub struct Thumbnail {
    pub width: u64,
    pub height: u64,
    /// An absolute or relative URL.
    pub url: String,
}

} // verus!
