use rustube::segment::{decimal_string, extract_segment_count, seq_query};
use rustube::stream::{head_content_length, HeadOutcome, LengthSource, MimeType, RawFormat, Stream, StreamUrl};
use rustube::{Error, Unexpected};

fn s(t: &str) -> String {
    t.to_string()
}

#[test]
fn decimal_rendering() {
    assert_eq!(decimal_string(0), "0");
    assert_eq!(decimal_string(7), "7");
    assert_eq!(decimal_string(10), "10");
    assert_eq!(decimal_string(1234567890), "1234567890");
    assert_eq!(decimal_string(u64::MAX), "18446744073709551615");
}

#[test]
fn seq_query_appends_pair() {
    assert_eq!(seq_query(&s(""), 0), "sq=0");
    assert_eq!(seq_query(&s("id=1&itag=137"), 12), "id=1&itag=137&sq=12");
}

#[test]
fn segment_count_header() {
    let h = |t: &[u8]| Some(t.to_vec());
    assert_eq!(extract_segment_count(&h(b"3")), Ok(3));
    assert_eq!(extract_segment_count(&h(b"+17")), Ok(17));
    assert_eq!(extract_segment_count(&h(b"18446744073709551615")), Ok(u64::MAX));
    assert_eq!(
        extract_segment_count(&None),
        Err(Error::UnexpectedResponse(Unexpected::MissingSegmentCount))
    );
    assert_eq!(
        extract_segment_count(&h(b"\x013")),
        Err(Error::UnexpectedResponse(Unexpected::SegmentCountNotText))
    );
    for bad in [&b"abc"[..], b"", b"+", b"-1", b"3 ", b"18446744073709551616"] {
        assert_eq!(
            extract_segment_count(&h(bad)),
            Err(Error::UnexpectedResponse(Unexpected::SegmentCountNotInteger))
        );
    }
}

fn url(query: Option<&str>, fragment: Option<&str>) -> StreamUrl {
    StreamUrl {
        address: s("https://example.com/videoplayback"),
        query: query.map(s),
        fragment: fragment.map(s),
    }
}

#[test]
fn url_text_and_segments() {
    let u = url(Some("id=1"), None);
    assert_eq!(u.text(), "https://example.com/videoplayback?id=1");
    assert_eq!(u.segment(0), "https://example.com/videoplayback?id=1&sq=0");
    assert_eq!(u.segment(2), "https://example.com/videoplayback?id=1&sq=2");
    let bare = url(None, Some("t=5"));
    assert_eq!(bare.text(), "https://example.com/videoplayback#t=5");
    assert_eq!(bare.segment(1), "https://example.com/videoplayback?sq=1#t=5");
}

fn stream(content_length: Option<u64>) -> Stream {
    let raw = RawFormat {
        mime_type: MimeType { top_level: s("audio"), subtype: s("webm"), codecs: vec![s("opus")] },
        itag: 251,
        url: url(Some("id=1"), None),
        content_length,
    };
    Stream::from_raw_format(raw, s("dQw4w9WgXcQ")).unwrap()
}

#[test]
fn default_file_name() {
    assert_eq!(stream(None).file_name(), "dQw4w9WgXcQ.mp4");
}

#[test]
fn request_urls() {
    let st = stream(None);
    assert_eq!(st.request_url(None), "https://example.com/videoplayback?id=1");
    assert_eq!(st.request_url(Some(4)), "https://example.com/videoplayback?id=1&sq=4");
}

#[test]
fn content_length_uses_declared_value() {
    assert!(matches!(stream(Some(1024)).content_length(), LengthSource::Declared(1024)));
    match stream(None).content_length() {
        LengthSource::Head(u) => assert_eq!(u, "https://example.com/videoplayback?id=1"),
        LengthSource::Declared(_) => panic!("expected a HEAD request"),
    }
}

#[test]
fn head_content_length_outcomes() {
    assert_eq!(
        head_content_length(HeadOutcome::Responded { status: 200, content_length: Some(99) }),
        Ok(99)
    );
    assert_eq!(
        head_content_length(HeadOutcome::Responded { status: 200, content_length: None }),
        Err(Error::UnexpectedResponse(Unexpected::MissingContentLength))
    );
    assert_eq!(
        head_content_length(HeadOutcome::Responded { status: 403, content_length: Some(5) }),
        Err(Error::Status(403))
    );
    assert_eq!(head_content_length(HeadOutcome::Failed), Err(Error::Transport));
}
