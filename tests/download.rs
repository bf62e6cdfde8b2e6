use rustube::download::{Action, Download, Event, Phase};
use rustube::{Error, Unexpected};

/// One canned response of the stub transport.
struct Reply {
    status: u16,
    segment_count: Option<Vec<u8>>,
    chunks: Vec<Vec<u8>>,
}

fn ok(chunks: &[&[u8]]) -> Reply {
    Reply { status: 200, segment_count: None, chunks: chunks.iter().map(|c| c.to_vec()).collect() }
}

/// Runs a download against a stub that answers each target from `reply`;
/// returns the outcome, the file left behind and the targets requested.
fn simulate(
    reply: &dyn Fn(Option<u64>) -> Reply,
) -> (Result<(), Error>, Option<Vec<u8>>, Vec<Option<u64>>) {
    let (mut dl, mut action) = Download::start();
    let mut file: Option<Vec<u8>> = None;
    let mut body: Vec<Vec<u8>> = Vec::new();
    let mut requested = Vec::new();
    loop {
        let event = match action {
            Action::CreateFile => {
                file = Some(Vec::new());
                Event::Created
            }
            Action::Get(target) => {
                requested.push(target);
                let r = reply(target);
                body = r.chunks;
                body.reverse();
                Event::Responded { status: r.status, segment_count: r.segment_count }
            }
            Action::Read => match body.pop() {
                Some(c) => Event::Chunk(c),
                None => Event::BodyEnded,
            },
            Action::Write(b) => {
                file.as_mut().unwrap().extend_from_slice(&b);
                Event::Written
            }
            Action::RemoveFile => {
                file = None;
                Event::Removed
            }
            Action::Complete => return (Ok(()), file, requested),
            Action::Fail(e) => return (Err(e), file, requested),
            Action::Nothing => panic!("stray event"),
        };
        action = dl.step(event);
    }
}

#[test]
fn whole_resource_concatenates_chunks() {
    let body: Vec<u8> = (0u8..=200).collect();
    for n in 1..=6usize {
        let size = (body.len() + n - 1) / n;
        let chunks: Vec<Vec<u8>> = body.chunks(size).map(|c| c.to_vec()).collect();
        let (r, file, requested) = simulate(&|_| Reply { status: 200, segment_count: None, chunks: chunks.clone() });
        assert_eq!(r, Ok(()));
        assert_eq!(file, Some(body.clone()));
        assert_eq!(requested, vec![None]);
    }
}

#[test]
fn not_found_switches_to_segments() {
    let (r, file, requested) = simulate(&|t| match t {
        None => Reply { status: 404, segment_count: None, chunks: vec![] },
        Some(0) => Reply { status: 200, segment_count: Some(b"3".to_vec()), chunks: vec![b"head".to_vec(), b"er;".to_vec()] },
        Some(1) => ok(&[b"one;"]),
        Some(2) => ok(&[b"two", b";"]),
        Some(_) => panic!("segment out of range"),
    });
    assert_eq!(r, Ok(()));
    assert_eq!(file, Some(b"header;one;two;".to_vec()));
    assert_eq!(requested, vec![None, Some(0), Some(1), Some(2)]);
}

#[test]
fn single_segment_stops_after_first() {
    let (r, file, requested) = simulate(&|t| match t {
        None => Reply { status: 404, segment_count: None, chunks: vec![] },
        _ => Reply { status: 200, segment_count: Some(b"1".to_vec()), chunks: vec![b"only".to_vec()] },
    });
    assert_eq!(r, Ok(()));
    assert_eq!(file, Some(b"only".to_vec()));
    assert_eq!(requested, vec![None, Some(0)]);
}

#[test]
fn malformed_segment_count_fails_without_file() {
    let (r, file, _) = simulate(&|t| match t {
        None => Reply { status: 404, segment_count: None, chunks: vec![] },
        _ => Reply { status: 200, segment_count: Some(b"three".to_vec()), chunks: vec![b"x".to_vec()] },
    });
    assert_eq!(r, Err(Error::UnexpectedResponse(Unexpected::SegmentCountNotInteger)));
    assert_eq!(file, None);
}

#[test]
fn missing_segment_count_fails() {
    let (r, file, _) = simulate(&|t| match t {
        None => Reply { status: 404, segment_count: None, chunks: vec![] },
        _ => ok(&[b"x"]),
    });
    assert_eq!(r, Err(Error::UnexpectedResponse(Unexpected::MissingSegmentCount)));
    assert_eq!(file, None);
}

#[test]
fn other_status_removes_file() {
    for status in [301u16, 403, 410, 500, 503] {
        let (r, file, requested) = simulate(&|_| Reply { status, segment_count: None, chunks: vec![] });
        assert_eq!(r, Err(Error::Status(status)));
        assert_eq!(file, None);
        assert_eq!(requested, vec![None]);
    }
}

#[test]
fn failed_segment_removes_file() {
    let (r, file, _) = simulate(&|t| match t {
        None => Reply { status: 404, segment_count: None, chunks: vec![] },
        Some(0) => Reply { status: 200, segment_count: Some(b"3".to_vec()), chunks: vec![b"a".to_vec()] },
        _ => Reply { status: 500, segment_count: None, chunks: vec![] },
    });
    assert_eq!(r, Err(Error::Status(500)));
    assert_eq!(file, None);
}

#[test]
fn repeated_download_is_identical() {
    let first = simulate(&|_| ok(&[b"fixed ", b"body"]));
    let second = simulate(&|_| ok(&[b"fixed body"]));
    assert_eq!(first.0, Ok(()));
    assert_eq!(first.1, second.1);
    assert_eq!(first.1, Some(b"fixed body".to_vec()));
}

#[test]
fn failures_of_io_and_transport() {
    let (mut dl, _) = Download::start();
    assert!(matches!(dl.step(Event::CreateFailed), Action::Fail(Error::Io)));
    assert_eq!(dl.phase, Phase::Failed(Error::Io));

    let (mut dl, _) = Download::start();
    dl.step(Event::Created);
    assert!(matches!(dl.step(Event::RequestFailed), Action::RemoveFile));
    assert!(matches!(dl.step(Event::Removed), Action::Fail(Error::Transport)));

    let (mut dl, _) = Download::start();
    dl.step(Event::Created);
    dl.step(Event::Responded { status: 200, segment_count: None });
    assert!(matches!(dl.step(Event::Chunk(vec![1, 2])), Action::Write(_)));
    assert!(matches!(dl.step(Event::WriteFailed), Action::RemoveFile));
    assert!(matches!(dl.step(Event::RemoveFailed), Action::Fail(Error::Io)));
    assert!(matches!(dl.step(Event::Created), Action::Nothing));
}
