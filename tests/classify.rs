use rustube::classify::parse_codecs;
use rustube::stream::{MimeType, RawFormat, Stream, StreamUrl};
use rustube::{includes_audio_track, includes_video_track, is_adaptive, is_progressive};
use rustube::{Error, Unexpected};

fn tokens(ts: &[&str]) -> Vec<String> {
    ts.iter().map(|t| t.to_string()).collect()
}

fn s(t: &str) -> String {
    t.to_string()
}

#[test]
fn parity_decides_adaptive() {
    for n in 0..7usize {
        let codecs: Vec<String> = (0..n).map(|i| format!("c{}", i)).collect();
        assert_eq!(is_adaptive(&codecs), n % 2 == 1);
        assert_eq!(is_progressive(&codecs), n % 2 == 0);
    }
}

#[test]
fn single_video_codec() {
    let codecs = tokens(&["vp9"]);
    assert!(includes_video_track(&codecs, &s("video")));
    assert!(!includes_audio_track(&codecs, &s("video")));
    assert_eq!(parse_codecs(&s("video"), &codecs), Ok((Some(s("vp9")), None)));
}

#[test]
fn two_codecs_are_progressive_for_any_mime() {
    let codecs = tokens(&["avc1.4d401f", "mp4a.40.2"]);
    for top in ["video", "audio", "text", ""] {
        assert!(is_progressive(&codecs));
        assert!(includes_video_track(&codecs, &s(top)));
        assert!(includes_audio_track(&codecs, &s(top)));
        assert_eq!(
            parse_codecs(&s(top), &codecs),
            Ok((Some(s("avc1.4d401f")), Some(s("mp4a.40.2"))))
        );
    }
}

#[test]
fn three_audio_codecs_degrade_to_audio_only() {
    let codecs = tokens(&["opus", "vorbis", "flac"]);
    assert!(is_adaptive(&codecs));
    assert!(!includes_video_track(&codecs, &s("audio")));
    assert!(includes_audio_track(&codecs, &s("audio")));
    assert_eq!(parse_codecs(&s("audio"), &codecs), Ok((None, Some(s("opus")))));
}

#[test]
fn even_count_other_than_two_fails() {
    let four = tokens(&["a", "b", "c", "d"]);
    assert_eq!(
        parse_codecs(&s("video"), &four),
        Err(Error::UnexpectedResponse(Unexpected::CodecCount(4)))
    );
    let none: Vec<String> = Vec::new();
    assert_eq!(
        parse_codecs(&s("audio"), &none),
        Err(Error::UnexpectedResponse(Unexpected::CodecCount(0)))
    );
}

#[test]
fn adaptive_without_known_track_has_no_codecs() {
    let codecs = tokens(&["wvtt"]);
    assert!(!includes_video_track(&codecs, &s("text")));
    assert!(!includes_audio_track(&codecs, &s("text")));
    assert_eq!(parse_codecs(&s("text"), &codecs), Ok((None, None)));
}

fn raw(top: &str, codecs: &[&str]) -> RawFormat {
    RawFormat {
        mime_type: MimeType { top_level: s(top), subtype: s("mp4"), codecs: tokens(codecs) },
        itag: 137,
        url: StreamUrl { address: s("https://example.com/videoplayback"), query: Some(s("id=1")), fragment: None },
        content_length: Some(42),
    }
}

#[test]
fn stream_from_raw_format_classifies() {
    let stream = Stream::from_raw_format(raw("video", &["avc1.640028"]), s("abc")).unwrap();
    assert!(!stream.is_progressive);
    assert!(stream.includes_video_track);
    assert!(!stream.includes_audio_track);
    assert_eq!(stream.video_codec, Some(s("avc1.640028")));
    assert_eq!(stream.audio_codec, None);
    assert_eq!(stream.itag, 137);
    assert_eq!(stream.content_length, Some(42));
    assert_eq!(stream.video_id, "abc");

    let combined = Stream::from_raw_format(raw("video", &["avc1.4d401f", "mp4a.40.2"]), s("abc")).unwrap();
    assert!(combined.is_progressive);
    assert!(combined.includes_video_track && combined.includes_audio_track);
}

#[test]
fn stream_from_raw_format_rejects_bad_count() {
    let r = Stream::from_raw_format(raw("video", &["a", "b", "c", "d"]), s("abc"));
    assert!(matches!(r, Err(Error::UnexpectedResponse(Unexpected::CodecCount(4)))));
}
