//! The download engine as a state machine. The caller performs each action
//! (create the file, issue a GET, read or write a piece of a body, remove the
//! file) and hands the outcome back as an event.
//!
//! A success status on the whole-resource request streams its body into the
//! file. A 404 there switches to segmented retrieval: segment 0 announces the
//! number of segments in its `Segment-Count` header, and the segments follow in
//! ascending order. Every failure after the file was created, in either mode,
//! removes the file before the download fails, so no partial file is left.
use vstd::prelude::*;

use crate::error::{Error, Unexpected};
use crate::segment::{extract_segment_count, header_view, spec_segment_count};

verus! {

/// The one status on the whole-resource request that switches to segmented retrieval.
pub const NOT_FOUND: u16 = 404;

pub open spec fn is_success(status: u16) -> bool {
    200 <= status <= 299
}

/// Where a download stands between two events.
#[derive(Clone, Copy, Debug, PartialEq, Eq, Structural)]
pub enum Phase {
    /// Waiting for the destination file to be created.
    Opening,
    /// Waiting for the response to the whole-resource request.
    Whole,
    /// Streaming the whole resource's body into the file.
    WholeBody,
    /// Waiting for the response to segment 0, which announces the segment count.
    FirstSegment,
    /// Waiting for the response to segment `index` of `count`.
    Segment { index: u64, count: u64 },
    /// Streaming the body of segment `index` of `count` into the file.
    SegmentBody { index: u64, count: u64 },
    /// Removing the partly written file before failing with the error.
    Removing(Error),
    /// The file holds the whole rendition.
    Done,
    /// The download failed with the error; no file is left behind.
    Failed(Error),
}

/// What the outside world reports back after performing an action.
#[derive(Clone, Debug)]
pub enum Event {
    Created,
    CreateFailed,
    /// A response arrived: its status and the raw `Segment-Count` header, if present.
    Responded { status: u16, segment_count: Option<Vec<u8>> },
    RequestFailed,
    Chunk(Vec<u8>),
    BodyEnded,
    BodyFailed,
    Written,
    WriteFailed,
    Removed,
    RemoveFailed,
}

/// What the engine asks the outside world to do next.
#[derive(Clone, Debug)]
pub enum Action {
    /// Create or truncate the destination file.
    CreateFile,
    /// Issue a GET: the whole resource for `None`, segment `k` for `Some(k)`.
    Get(Option<u64>),
    /// Read the next piece of the current response body.
    Read,
    /// Append these bytes to the destination file.
    Write(Vec<u8>),
    /// Delete the destination file.
    RemoveFile,
    /// The download succeeded.
    Complete,
    /// The download failed with this error.
    Fail(Error),
    /// The event did not belong to the current phase; nothing changes.
    Nothing,
}

/// Handling of body events, shared by the whole-resource and the segment bodies.
pub open spec fn body_step(p: Phase, e: Event, finished: (Phase, Action)) -> (Phase, Action) {
    match e {
        Event::Chunk(b) => (p, Action::Write(b)),
        Event::Written => (p, Action::Read),
        Event::BodyEnded => finished,
        Event::BodyFailed => (Phase::Removing(Error::Transport), Action::RemoveFile),
        Event::WriteFailed => (Phase::Removing(Error::Io), Action::RemoveFile),
        _ => (p, Action::Nothing),
    }
}

/// The transition of the download engine on one event.
pub open spec fn spec_step(p: Phase, e: Event) -> (Phase, Action) {
    match p {
        Phase::Opening => match e {
            Event::Created => (Phase::Whole, Action::Get(None)),
            Event::CreateFailed => (Phase::Failed(Error::Io), Action::Fail(Error::Io)),
            _ => (p, Action::Nothing),
        },
        Phase::Whole => match e {
            Event::Responded { status, .. } => if is_success(status) {
                (Phase::WholeBody, Action::Read)
            } else if status == NOT_FOUND {
                (Phase::FirstSegment, Action::Get(Some(0)))
            } else {
                (Phase::Removing(Error::Status(status)), Action::RemoveFile)
            },
            Event::RequestFailed => (Phase::Removing(Error::Transport), Action::RemoveFile),
            _ => (p, Action::Nothing),
        },
        Phase::WholeBody => body_step(p, e, (Phase::Done, Action::Complete)),
        Phase::FirstSegment => match e {
            Event::Responded { status, segment_count } => if !is_success(status) {
                (Phase::Removing(Error::Status(status)), Action::RemoveFile)
            } else {
                match spec_segment_count(header_view(segment_count)) {
                    Ok(n) => (Phase::SegmentBody { index: 0, count: n }, Action::Read),
                    Err(u) => (
                        Phase::Removing(Error::UnexpectedResponse(u)),
                        Action::RemoveFile,
                    ),
                }
            },
            Event::RequestFailed => (Phase::Removing(Error::Transport), Action::RemoveFile),
            _ => (p, Action::Nothing),
        },
        Phase::Segment { index, count } => match e {
            Event::Responded { status, .. } => if is_success(status) {
                (Phase::SegmentBody { index, count }, Action::Read)
            } else {
                (Phase::Removing(Error::Status(status)), Action::RemoveFile)
            },
            Event::RequestFailed => (Phase::Removing(Error::Transport), Action::RemoveFile),
            _ => (p, Action::Nothing),
        },
        Phase::SegmentBody { index, count } => body_step(
            p,
            e,
            if index + 1 < count {
                (Phase::Segment { index: (index + 1) as u64, count }, Action::Get(Some((index + 1) as u64)))
            } else {
                (Phase::Done, Action::Complete)
            },
        ),
        Phase::Removing(err) => match e {
            Event::Removed => (Phase::Failed(err), Action::Fail(err)),
            Event::RemoveFailed => (Phase::Failed(Error::Io), Action::Fail(Error::Io)),
            _ => (p, Action::Nothing),
        },
        Phase::Done | Phase::Failed(_) => (p, Action::Nothing),
    }
}

/// One download of a rendition, driven by the events that its actions produce.
pub struct Download {
    pub phase: Phase,
}

impl Download {
    /// A new download, and its first action: creating the destination file.
    pub fn start() -> (r: (Download, Action))
        ensures
            r.0.phase == Phase::Opening,
            r.1 == Action::CreateFile,
    {
        (Download { phase: Phase::Opening }, Action::CreateFile)
    }

    fn body(&mut self, e: Event, finished: (Phase, Action)) -> (r: Action)
        ensures
            (final(self).phase, r) == body_step(old(self).phase, e, finished),
    {
        match e {
            Event::Chunk(b) => Action::Write(b),
            Event::Written => Action::Read,
            Event::BodyEnded => {
                self.phase = finished.0;
                finished.1
            },
            Event::BodyFailed => {
                self.phase = Phase::Removing(Error::Transport);
                Action::RemoveFile
            },
            Event::WriteFailed => {
                self.phase = Phase::Removing(Error::Io);
                Action::RemoveFile
            },
            _ => Action::Nothing,
        }
    }

    /// Moves to the next phase on an event and returns the action to perform.
    pub fn step(&mut self, e: Event) -> (r: Action)
        ensures
            (final(self).phase, r) == spec_step(old(self).phase, e),
    {
        match self.phase {
            Phase::Opening => match e {
                Event::Created => {
                    self.phase = Phase::Whole;
                    Action::Get(None)
                },
                Event::CreateFailed => {
                    self.phase = Phase::Failed(Error::Io);
                    Action::Fail(Error::Io)
                },
                _ => Action::Nothing,
            },
            Phase::Whole => match e {
                Event::Responded { status, .. } => {
                    if 200 <= status && status <= 299 {
                        self.phase = Phase::WholeBody;
                        Action::Read
                    } else if status == NOT_FOUND {
                        self.phase = Phase::FirstSegment;
                        Action::Get(Some(0))
                    } else {
                        self.phase = Phase::Removing(Error::Status(status));
                        Action::RemoveFile
                    }
                },
                Event::RequestFailed => {
                    self.phase = Phase::Removing(Error::Transport);
                    Action::RemoveFile
                },
                _ => Action::Nothing,
            },
            Phase::WholeBody => self.body(e, (Phase::Done, Action::Complete)),
            Phase::FirstSegment => match e {
                Event::Responded { status, segment_count } => {
                    if !(200 <= status && status <= 299) {
                        self.phase = Phase::Removing(Error::Status(status));
                        Action::RemoveFile
                    } else {
                        match extract_segment_count(&segment_count) {
                            Ok(n) => {
                                self.phase = Phase::SegmentBody { index: 0, count: n };
                                Action::Read
                            },
                            Err(err) => {
                                self.phase = Phase::Removing(err);
                                Action::RemoveFile
                            },
                        }
                    }
                },
                Event::RequestFailed => {
                    self.phase = Phase::Removing(Error::Transport);
                    Action::RemoveFile
                },
                _ => Action::Nothing,
            },
            Phase::Segment { index, count } => match e {
                Event::Responded { status, .. } => {
                    if 200 <= status && status <= 299 {
                        self.phase = Phase::SegmentBody { index, count };
                        Action::Read
                    } else {
                        self.phase = Phase::Removing(Error::Status(status));
                        Action::RemoveFile
                    }
                },
                Event::RequestFailed => {
                    self.phase = Phase::Removing(Error::Transport);
                    Action::RemoveFile
                },
                _ => Action::Nothing,
            },
            Phase::SegmentBody { index, count } => {
                let finished = if count > 0 && index < count - 1 {
                    (Phase::Segment { index: index + 1, count }, Action::Get(Some(index + 1)))
                } else {
                    (Phase::Done, Action::Complete)
                };
                self.body(e, finished)
            },
            Phase::Removing(err) => match e {
                Event::Removed => {
                    self.phase = Phase::Failed(err);
                    Action::Fail(err)
                },
                Event::RemoveFailed => {
                    self.phase = Phase::Failed(Error::Io);
                    Action::Fail(Error::Io)
                },
                _ => Action::Nothing,
            },
            Phase::Done | Phase::Failed(_) => Action::Nothing,
        }
    }
}

/// The phase reached and the actions asked for when the events arrive in order.
pub open spec fn run(p: Phase, es: Seq<Event>) -> (Phase, Seq<Action>)
    decreases es.len(),
{
    if es.len() == 0 {
        (p, seq![])
    } else {
        let (q, a) = spec_step(p, es[0]);
        let (r, rest) = run(q, es.drop_first());
        (r, seq![a] + rest)
    }
}

/// The bytes that a sequence of actions appends to the destination file.
pub open spec fn written(acts: Seq<Action>) -> Seq<u8>
    decreases acts.len(),
{
    if acts.len() == 0 {
        seq![]
    } else {
        let w = match acts[0] {
            Action::Write(b) => b@,
            _ => seq![],
        };
        w + written(acts.drop_first())
    }
}

/// The bytes of a body that arrives in these chunks.
pub open spec fn concat_chunks(chunks: Seq<Vec<u8>>) -> Seq<u8>
    decreases chunks.len(),
{
    if chunks.len() == 0 {
        seq![]
    } else {
        chunks[0]@ + concat_chunks(chunks.drop_first())
    }
}

/// The events of a body that arrives in these chunks, each written successfully.
pub open spec fn body_events(chunks: Seq<Vec<u8>>) -> Seq<Event>
    decreases chunks.len(),
{
    if chunks.len() == 0 {
        seq![]
    } else {
        seq![Event::Chunk(chunks[0]), Event::Written] + body_events(chunks.drop_first())
    }
}

/// A whole-resource download whose request is answered with `status` and a body
/// in these chunks, from the creation of the file to the end of the body.
pub open spec fn whole_events(status: u16, header: Option<Vec<u8>>, chunks: Seq<Vec<u8>>) -> Seq<
    Event,
> {
    seq![Event::Created, Event::Responded { status, segment_count: header }] + body_events(chunks)
        + seq![Event::BodyEnded]
}

proof fn lemma_run_append(p: Phase, a: Seq<Event>, b: Seq<Event>)
    ensures
        run(p, a + b) == (run(run(p, a).0, b).0, run(p, a).1 + run(run(p, a).0, b).1),
    decreases a.len(),
{
    if a.len() == 0 {
        assert(a + b =~= b);
        assert(run(p, a).1 + run(p, b).1 =~= run(p, b).1);
    } else {
        let q = spec_step(p, a[0]).0;
        assert((a + b).drop_first() =~= a.drop_first() + b);
        assert((a + b)[0] == a[0]);
        lemma_run_append(q, a.drop_first(), b);
        let x = spec_step(p, a[0]).1;
        let r1 = run(q, a.drop_first());
        let r2 = run(r1.0, b);
        assert(seq![x] + (r1.1 + r2.1) =~= (seq![x] + r1.1) + r2.1);
    }
}

proof fn lemma_written_append(x: Seq<Action>, y: Seq<Action>)
    ensures
        written(x + y) == written(x) + written(y),
    decreases x.len(),
{
    if x.len() == 0 {
        assert(x + y =~= y);
        assert(written(x) + written(y) =~= written(y));
    } else {
        assert((x + y).drop_first() =~= x.drop_first() + y);
        assert((x + y)[0] == x[0]);
        lemma_written_append(x.drop_first(), y);
        let w = match x[0] {
            Action::Write(b) => b@,
            _ => seq![],
        };
        assert(w + (written(x.drop_first()) + written(y)) =~= (w + written(x.drop_first()))
            + written(y));
    }
}

proof fn lemma_body(p: Phase, chunks: Seq<Vec<u8>>)
    requires
        p is WholeBody || p is SegmentBody,
    ensures
        run(p, body_events(chunks)).0 == p,
        written(run(p, body_events(chunks)).1) == concat_chunks(chunks),
        forall|i: int|
            0 <= i < run(p, body_events(chunks)).1.len() ==> (#[trigger] run(
                p,
                body_events(chunks),
            ).1[i] is Write || run(p, body_events(chunks)).1[i] is Read),
    decreases chunks.len(),
{
    if chunks.len() > 0 {
        let c = chunks[0];
        let head = seq![Event::Chunk(c), Event::Written];
        let tail = body_events(chunks.drop_first());
        lemma_run_append(p, head, tail);
        lemma_body(p, chunks.drop_first());
        let h = run(p, head);
        reveal_with_fuel(run, 3);
        reveal_with_fuel(written, 3);
        assert(head.drop_first().drop_first() =~= Seq::<Event>::empty());
        assert(h.0 == p);
        assert(h.1 =~= seq![Action::Write(c), Action::Read]);
        let t = run(p, tail);
        lemma_written_append(h.1, t.1);
        assert(written(h.1) =~= c@) by {
            assert(h.1.drop_first().drop_first() =~= Seq::<Action>::empty());
            assert(h.1.drop_first() =~= seq![Action::Read]);
        }
        assert(forall|i: int| 0 <= i < (h.1 + t.1).len() ==> #[trigger] (h.1 + t.1)[i] is Write
            || (h.1 + t.1)[i] is Read) by {
            assert forall|i: int| 0 <= i < (h.1 + t.1).len() implies #[trigger] (h.1 + t.1)[i] is Write
                || (h.1 + t.1)[i] is Read by {
                if i >= 2 {
                    assert((h.1 + t.1)[i] == t.1[i - 2]);
                }
            }
        }
    } else {
        assert(body_events(chunks) =~= Seq::<Event>::empty());
    }
}

/// A whole-resource download that is answered with a success status ends done,
/// and the destination file holds exactly the body's chunks, in order; nothing is
/// removed.
pub proof fn law_whole_download(status: u16, header: Option<Vec<u8>>, chunks: Seq<Vec<u8>>)
    requires
        is_success(status),
    ensures
        run(Phase::Opening, whole_events(status, header, chunks)).0 == Phase::Done,
        written(run(Phase::Opening, whole_events(status, header, chunks)).1) == concat_chunks(
            chunks,
        ),
        run(Phase::Opening, whole_events(status, header, chunks)).1.last() == Action::Complete,
        forall|i: int|
            0 <= i < run(Phase::Opening, whole_events(status, header, chunks)).1.len()
                ==> !(#[trigger] run(Phase::Opening, whole_events(status, header, chunks)).1[i] is RemoveFile),
{
    let start = seq![Event::Created, Event::Responded { status, segment_count: header }];
    let body = body_events(chunks);
    let end = seq![Event::BodyEnded];
    assert(whole_events(status, header, chunks) == start + body + end);
    lemma_run_append(Phase::Opening, start + body, end);
    lemma_run_append(Phase::Opening, start, body);
    let s = run(Phase::Opening, start);
    reveal_with_fuel(run, 3);
    reveal_with_fuel(written, 3);
    assert(start.drop_first().drop_first() =~= Seq::<Event>::empty());
    assert(s.0 == Phase::WholeBody);
    assert(s.1 =~= seq![Action::Get(None), Action::Read]);
    lemma_body(Phase::WholeBody, chunks);
    let b = run(Phase::WholeBody, body);
    let e = run(Phase::WholeBody, end);
    assert(end.drop_first() =~= Seq::<Event>::empty());
    assert(e.1 =~= seq![Action::Complete]);
    lemma_written_append(s.1, b.1);
    lemma_written_append(s.1 + b.1, e.1);
    assert(written(s.1) =~= Seq::<u8>::empty()) by {
        assert(s.1.drop_first().drop_first() =~= Seq::<Action>::empty());
        assert(s.1.drop_first() =~= seq![Action::Read]);
    }
    assert(written(e.1) =~= Seq::<u8>::empty()) by {
        assert(e.1.drop_first() =~= Seq::<Action>::empty());
    }
    let all = s.1 + b.1 + e.1;
    assert forall|i: int| 0 <= i < all.len() implies !(#[trigger] all[i] is RemoveFile) by {
        if i < 2 {
            assert(all[i] == s.1[i]);
        } else if i < 2 + b.1.len() {
            assert(all[i] == b.1[i - 2]);
        } else {
            assert(all[i] == e.1[i - 2 - b.1.len()]);
        }
    }
}

/// Two whole-resource downloads of the same body, however it is split into
/// chunks, leave byte-identical files.
pub proof fn law_repeat_download(
    status: u16,
    header: Option<Vec<u8>>,
    first: Seq<Vec<u8>>,
    second: Seq<Vec<u8>>,
)
    requires
        is_success(status),
        concat_chunks(first) == concat_chunks(second),
    ensures
        written(run(Phase::Opening, whole_events(status, header, first)).1) == written(
            run(Phase::Opening, whole_events(status, header, second)).1,
        ),
{
    law_whole_download(status, header, first);
    law_whole_download(status, header, second);
}

/// A whole-resource request answered with a status that is neither a success nor
/// 404 removes the destination file and fails with that status.
pub proof fn law_failed_status(status: u16, header: Option<Vec<u8>>)
    requires
        !is_success(status),
        status != NOT_FOUND,
    ensures
        run(
            Phase::Opening,
            seq![Event::Created, Event::Responded { status, segment_count: header }, Event::Removed],
        ) == (Phase::Failed(Error::Status(status)), seq![
            Action::Get(None),
            Action::RemoveFile,
            Action::Fail(Error::Status(status)),
        ]),
{
    let es = seq![Event::Created, Event::Responded { status, segment_count: header }, Event::Removed];
    reveal_with_fuel(run, 4);
    assert(es.drop_first().drop_first().drop_first() =~= Seq::<Event>::empty());
    assert(run(Phase::Opening, es).1 =~= seq![
        Action::Get(None),
        Action::RemoveFile,
        Action::Fail(Error::Status(status)),
    ]);
}

/// When the whole resource answers 404 and segment 0's `Segment-Count` header is
/// not an integer, nothing is written: the file is removed and the download fails
/// with an unexpected response.
pub proof fn law_malformed_segment_count(status: u16, header: Vec<u8>)
    requires
        is_success(status),
        !crate::segment::is_u64_text(header@),
    ensures
        ({
            let es = seq![
                Event::Created,
                Event::Responded { status: NOT_FOUND, segment_count: None },
                Event::Responded { status, segment_count: Some(header) },
                Event::Removed,
            ];
            let (p, acts) = run(Phase::Opening, es);
            &&& p matches Phase::Failed(Error::UnexpectedResponse(_))
            &&& acts.len() == 4
            &&& acts[2] == Action::RemoveFile
            &&& written(acts) == Seq::<u8>::empty()
        }),
{
    let es = seq![
        Event::Created,
        Event::Responded { status: NOT_FOUND, segment_count: None },
        Event::Responded { status, segment_count: Some(header) },
        Event::Removed,
    ];
    reveal_with_fuel(run, 5);
    reveal_with_fuel(written, 5);
    assert(es.drop_first().drop_first().drop_first().drop_first() =~= Seq::<Event>::empty());
    let acts = run(Phase::Opening, es).1;
    assert(acts.drop_first().drop_first().drop_first().drop_first() =~= Seq::<Action>::empty());
    assert(written(acts.drop_first().drop_first().drop_first()) =~= Seq::<u8>::empty());
    assert(written(acts.drop_first().drop_first()) =~= Seq::<u8>::empty());
    assert(written(acts.drop_first()) =~= Seq::<u8>::empty());
    assert(written(acts) =~= Seq::<u8>::empty());
}

/// The events of segments 1, 2, ... answered with success and these bodies.
pub open spec fn segment_events(segments: Seq<Seq<Vec<u8>>>) -> Seq<Event>
    decreases segments.len(),
{
    if segments.len() == 0 {
        seq![]
    } else {
        seq![Event::Responded { status: 200, segment_count: None }] + body_events(segments[0])
            + seq![Event::BodyEnded] + segment_events(segments.drop_first())
    }
}

/// The bytes of these segment bodies, in order.
pub open spec fn concat_segments(segments: Seq<Seq<Vec<u8>>>) -> Seq<u8>
    decreases segments.len(),
{
    if segments.len() == 0 {
        seq![]
    } else {
        concat_chunks(segments[0]) + concat_segments(segments.drop_first())
    }
}

proof fn lemma_segments(index: u64, count: u64, rest: Seq<Seq<Vec<u8>>>)
    requires
        index as int + 1 + rest.len() == count as int,
    ensures
        run(Phase::SegmentBody { index, count }, seq![Event::BodyEnded] + segment_events(rest)).0
            == Phase::Done,
        written(
            run(Phase::SegmentBody { index, count }, seq![Event::BodyEnded] + segment_events(rest)).1,
        ) == concat_segments(rest),
    decreases rest.len(),
{
    let p = Phase::SegmentBody { index, count };
    let es = seq![Event::BodyEnded] + segment_events(rest);
    reveal_with_fuel(run, 3);
    reveal_with_fuel(written, 3);
    if rest.len() == 0 {
        assert(segment_events(rest) =~= Seq::<Event>::empty());
        assert(es.drop_first() =~= Seq::<Event>::empty());
        assert(run(p, es).1 =~= seq![Action::Complete]);
        assert(run(p, es).1.drop_first() =~= Seq::<Action>::empty());
    } else {
        let next = (index + 1) as u64;
        let q = Phase::SegmentBody { index: next, count };
        let head = seq![Event::BodyEnded, Event::Responded { status: 200, segment_count: None }];
        let body = body_events(rest[0]);
        let tail = seq![Event::BodyEnded] + segment_events(rest.drop_first());
        assert(es =~= head + body + tail);
        lemma_run_append(p, head + body, tail);
        lemma_run_append(p, head, body);
        assert(head.drop_first().drop_first() =~= Seq::<Event>::empty());
        let h = run(p, head);
        assert(h.0 == q);
        assert(h.1 =~= seq![Action::Get(Some(next)), Action::Read]);
        assert(written(h.1) =~= Seq::<u8>::empty()) by {
            assert(h.1.drop_first().drop_first() =~= Seq::<Action>::empty());
            assert(h.1.drop_first() =~= seq![Action::Read]);
        }
        lemma_body(q, rest[0]);
        let b = run(q, body);
        lemma_segments(next, count, rest.drop_first());
        let t = run(q, tail);
        lemma_written_append(h.1, b.1);
        lemma_written_append(h.1 + b.1, t.1);
        assert(written(h.1) + written(b.1) + written(t.1) =~= concat_segments(rest));
    }
}

/// When the whole resource answers 404, the segments are fetched in order: the
/// first announces their number, and the file ends up holding each segment's
/// body, segment 0 first, in ascending order.
pub proof fn law_segmented_download(
    header: Vec<u8>,
    first: Seq<Vec<u8>>,
    rest: Seq<Seq<Vec<u8>>>,
)
    requires
        spec_segment_count(Some(header@)) == Ok::<u64, Unexpected>((rest.len() + 1) as u64),
        rest.len() + 1 <= u64::MAX,
    ensures
        ({
            let es = seq![
                Event::Created,
                Event::Responded { status: NOT_FOUND, segment_count: None },
                Event::Responded { status: 200, segment_count: Some(header) },
            ] + body_events(first) + (seq![Event::BodyEnded] + segment_events(rest));
            &&& run(Phase::Opening, es).0 == Phase::Done
            &&& written(run(Phase::Opening, es).1) == concat_chunks(first) + concat_segments(rest)
        }),
{
    let count = (rest.len() + 1) as u64;
    let start = seq![
        Event::Created,
        Event::Responded { status: NOT_FOUND, segment_count: None },
        Event::Responded { status: 200, segment_count: Some(header) },
    ];
    let body = body_events(first);
    let tail = seq![Event::BodyEnded] + segment_events(rest);
    let p = Phase::SegmentBody { index: 0, count };
    reveal_with_fuel(run, 4);
    reveal_with_fuel(written, 4);
    lemma_run_append(Phase::Opening, start + body, tail);
    lemma_run_append(Phase::Opening, start, body);
    assert(start.drop_first().drop_first().drop_first() =~= Seq::<Event>::empty());
    let s = run(Phase::Opening, start);
    assert(header_view(Some(header)) == Some(header@));
    assert(s.0 == p);
    assert(s.1 =~= seq![Action::Get(None), Action::Get(Some(0)), Action::Read]);
    assert(written(s.1) =~= Seq::<u8>::empty()) by {
        assert(s.1.drop_first().drop_first().drop_first() =~= Seq::<Action>::empty());
        assert(s.1.drop_first().drop_first() =~= seq![Action::Read]);
        assert(s.1.drop_first() =~= seq![Action::Get(Some(0)), Action::Read]);
    }
    lemma_body(p, first);
    let b = run(p, body);
    lemma_segments(0, count, rest);
    let t = run(p, tail);
    lemma_written_append(s.1, b.1);
    lemma_written_append(s.1 + b.1, t.1);
    assert(written(s.1) + written(b.1) + written(t.1) =~= concat_chunks(first) + concat_segments(
        rest,
    ));
}

} // verus!
