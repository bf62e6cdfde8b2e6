use vstd::prelude::*;

use crate::error::{Error, Unexpected};

verus! {

/// Top-level MIME type of renditions that carry a video track.
pub const VIDEO: &'static str = "video";

/// Top-level MIME type of renditions that carry an audio track.
pub const AUDIO: &'static str = "audio";

/// A codec list marks an adaptive (single-track) rendition when its length is odd.
pub open spec fn spec_is_adaptive(n: nat) -> bool {
    n % 2 == 1
}

pub open spec fn spec_includes_video(n: nat, top_level: Seq<char>) -> bool {
    !spec_is_adaptive(n) || top_level == VIDEO@
}

pub open spec fn spec_includes_audio(n: nat, top_level: Seq<char>) -> bool {
    !spec_is_adaptive(n) || top_level == AUDIO@
}

/// The video and audio codec that a rendition declares, or the count that
/// contradicts a progressive rendition.
pub open spec fn spec_codecs(top_level: Seq<char>, codecs: Seq<String>) -> Result<
    (Option<Seq<char>>, Option<Seq<char>>),
    Error,
> {
    let n = codecs.len();
    if !spec_is_adaptive(n) {
        if n == 2 {
            Ok((Some(codecs[0]@), Some(codecs[1]@)))
        } else {
            Err(Error::UnexpectedResponse(Unexpected::CodecCount(n as usize)))
        }
    } else if spec_includes_video(n, top_level) {
        Ok((Some(codecs[0]@), None))
    } else if spec_includes_audio(n, top_level) {
        Ok((None, Some(codecs[0]@)))
    } else {
        Ok((None, None))
    }
}

pub open spec fn opt_view(o: Option<String>) -> Option<Seq<char>> {
    match o {
        Some(s) => Some(s@),
        None => None,
    }
}

/// Whether the codec list marks an adaptive (single-track) rendition.
pub fn is_adaptive(codecs: &Vec<String>) -> (r: bool)
    ensures
        r == spec_is_adaptive(codecs@.len()),
{
    codecs.len() % 2 != 0
}

/// Whether the codec list marks a progressive (audio and video) rendition.
pub fn is_progressive(codecs: &Vec<String>) -> (r: bool)
    ensures
        r == !spec_is_adaptive(codecs@.len()),
{
    !is_adaptive(codecs)
}

fn is_top_level(top_level: &String, expected: &str) -> (r: bool)
    ensures
        r == (top_level@ == expected@),
{
    let e = String::from_str(expected);
    *top_level == e
}

/// Whether a rendition with these codecs and this top-level MIME type has a video track.
pub fn includes_video_track(codecs: &Vec<String>, top_level: &String) -> (r: bool)
    ensures
        r == spec_includes_video(codecs@.len(), top_level@),
{
    is_progressive(codecs) || is_top_level(top_level, VIDEO)
}

/// Whether a rendition with these codecs and this top-level MIME type has an audio track.
pub fn includes_audio_track(codecs: &Vec<String>, top_level: &String) -> (r: bool)
    ensures
        r == spec_includes_audio(codecs@.len(), top_level@),
{
    is_progressive(codecs) || is_top_level(top_level, AUDIO)
}

/// Splits the declared codecs into the video codec and the audio codec.
pub fn parse_codecs(top_level: &String, codecs: &Vec<String>) -> (r: Result<
    (Option<String>, Option<String>),
    Error,
>)
    ensures
        match (r, spec_codecs(top_level@, codecs@)) {
            (Ok((v, a)), Ok((sv, sa))) => opt_view(v) == sv && opt_view(a) == sa,
            (Err(e), Err(se)) => e == se,
            _ => false,
        },
{
    if !is_adaptive(codecs) {
        if codecs.len() == 2 {
            Ok((Some(codecs[0].clone()), Some(codecs[1].clone())))
        } else {
            Err(Error::UnexpectedResponse(Unexpected::CodecCount(codecs.len())))
        }
    } else if includes_video_track(codecs, top_level) {
        Ok((Some(codecs[0].clone()), None))
    } else if includes_audio_track(codecs, top_level) {
        Ok((None, Some(codecs[0].clone())))
    } else {
        Ok((None, None))
    }
}

/// A codec list of odd length is adaptive and not progressive; one of even
/// length is progressive and not adaptive.
pub proof fn law_parity(codecs: Seq<String>)
    ensures
        codecs.len() % 2 == 1 ==> spec_is_adaptive(codecs.len()),
        codecs.len() % 2 == 0 ==> !spec_is_adaptive(codecs.len()),
{
}

/// A video rendition with a single codec carries a video track only, and that
/// codec is its video codec.
pub proof fn law_single_video_codec(token: String)
    ensures
        spec_includes_video(1, VIDEO@),
        !spec_includes_audio(1, VIDEO@),
        spec_codecs(VIDEO@, seq![token]) == Ok::<_, Error>((Some(token@), None::<Seq<char>>)),
{
    reveal_strlit("video");
    reveal_strlit("audio");
    assert(VIDEO@ != AUDIO@) by {
        assert(VIDEO@[0] != AUDIO@[0]);
    }
}

/// Two codecs make a progressive rendition with both tracks, whatever the MIME
/// type: the first is the video codec, the second the audio codec.
pub proof fn law_two_codecs(top_level: Seq<char>, video: String, audio: String)
    ensures
        !spec_is_adaptive(2),
        spec_includes_video(2, top_level),
        spec_includes_audio(2, top_level),
        spec_codecs(top_level, seq![video, audio]) == Ok::<_, Error>(
            (Some(video@), Some(audio@)),
        ),
{
}

/// An audio rendition with an odd number of codecs is adaptive with an audio
/// track only; its audio codec is the first token and it has no video codec.
pub proof fn law_odd_audio(codecs: Seq<String>)
    requires
        codecs.len() % 2 == 1,
    ensures
        spec_is_adaptive(codecs.len()),
        !spec_includes_video(codecs.len(), AUDIO@),
        spec_includes_audio(codecs.len(), AUDIO@),
        spec_codecs(AUDIO@, codecs) == Ok::<_, Error>((None::<Seq<char>>, Some(codecs[0]@))),
{
    reveal_strlit("video");
    reveal_strlit("audio");
    assert(VIDEO@ != AUDIO@) by {
        assert(VIDEO@[0] != AUDIO@[0]);
    }
}

} // verus!
