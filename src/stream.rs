use vstd::prelude::*;

use crate::classify::{
    includes_audio_track, includes_video_track, is_progressive, opt_view, parse_codecs,
    spec_codecs, spec_includes_audio, spec_includes_video, spec_is_adaptive,
};
use crate::download::is_success;
use crate::error::{Error, Unexpected};
use crate::segment::{seq_query, spec_seq_query};

verus! {

/// Extension of the default file name: the container of downloaded renditions.
pub const FILE_EXTENSION: &'static str = "mp4";

/// A MIME type as the origin declares it, with its `codecs` parameter split into tokens.
#[derive(Clone, Debug)]
pub struct MimeType {
    /// The top-level type, such as `video` or `audio`.
    pub top_level: String,
    /// The subtype, such as `mp4` or `webm`.
    pub subtype: String,
    /// The codec tokens, in declared order.
    pub codecs: Vec<String>,
}

/// A ready-to-fetch URL, split where the segment selector goes.
#[derive(Clone, Debug)]
pub struct StreamUrl {
    /// Everything before the query: scheme, authority and path.
    pub address: String,
    /// The query, without its leading `?`.
    pub query: Option<String>,
    /// The fragment, without its leading `#`.
    pub fragment: Option<String>,
}

/// The declared attributes of one rendition, as parsed from the origin's metadata.
#[derive(Clone, Debug)]
pub struct RawFormat {
    pub mime_type: MimeType,
    pub itag: u64,
    pub url: StreamUrl,
    pub content_length: Option<u64>,
}

/// One rendition of a video, classified, with what its download needs.
#[derive(Clone, Debug)]
pub struct Stream {
    pub mime_type: MimeType,
    pub video_codec: Option<String>,
    pub audio_codec: Option<String>,
    pub is_progressive: bool,
    pub includes_video_track: bool,
    pub includes_audio_track: bool,
    pub itag: u64,
    pub url: StreamUrl,
    pub content_length: Option<u64>,
    /// Id of the video that this rendition belongs to.
    pub video_id: String,
}

pub open spec fn fragment_suffix(f: Option<String>) -> Seq<char> {
    match f {
        Some(s) => seq!['#'] + s@,
        None => seq![],
    }
}

/// The text of a URL whose query is `q`.
pub open spec fn url_with_query(u: StreamUrl, q: Option<Seq<char>>) -> Seq<char> {
    u.address@ + match q {
        Some(s) => seq!['?'] + s,
        None => seq![],
    } + fragment_suffix(u.fragment)
}

impl StreamUrl {
    pub open spec fn spec_text(self) -> Seq<char> {
        url_with_query(self, opt_view(self.query))
    }

    /// The base query that segment selectors are appended to.
    pub open spec fn base_query(self) -> Seq<char> {
        match self.query {
            Some(q) => q@,
            None => seq![],
        }
    }

    pub open spec fn spec_segment(self, sq: nat) -> Seq<char> {
        url_with_query(self, Some(spec_seq_query(self.base_query(), sq)))
    }

    fn join(&self, query: Option<&String>) -> (r: String)
        ensures
            r@ == url_with_query(
                *self,
                match query {
                    Some(q) => Some(q@),
                    None => None,
                },
            ),
    {
        proof {
            reveal_strlit("?");
            reveal_strlit("#");
        }
        let mut r = self.address.clone();
        match query {
            Some(q) => {
                r.append("?");
                r.append(q.as_str());
            },
            None => {},
        }
        match &self.fragment {
            Some(f) => {
                r.append("#");
                r.append(f.as_str());
            },
            None => {},
        }
        proof {
            assert(r@ =~= url_with_query(
                *self,
                match query {
                    Some(q) => Some(q@),
                    None => None,
                },
            ));
        }
        r
    }

    /// The URL as text.
    pub fn text(&self) -> (r: String)
        ensures
            r@ == self.spec_text(),
    {
        self.join(self.query.as_ref())
    }

    /// The URL of segment `sq`: the query gets `sq=<sq>` appended, all else is kept.
    pub fn segment(&self, sq: u64) -> (r: String)
        ensures
            r@ == self.spec_segment(sq as nat),
    {
        let base = match &self.query {
            Some(q) => q.clone(),
            None => String::new(),
        };
        let q = seq_query(&base, sq);
        self.join(Some(&q))
    }
}

/// How the length of a rendition is known: from its declaration, or by a HEAD request.
#[derive(Clone, Debug)]
pub enum LengthSource {
    Declared(u64),
    Head(String),
}

/// What a HEAD request brought back.
#[derive(Clone, Copy, Debug, PartialEq, Eq, Structural)]
pub enum HeadOutcome {
    /// A response: its status and its valid content length, if any.
    Responded { status: u16, content_length: Option<u64> },
    /// The request failed before a status arrived.
    Failed,
}

pub open spec fn spec_head_length(h: HeadOutcome) -> Result<u64, Error> {
    match h {
        HeadOutcome::Failed => Err(Error::Transport),
        HeadOutcome::Responded { status, content_length } => if !is_success(status) {
            Err(Error::Status(status))
        } else {
            match content_length {
                Some(n) => Ok(n),
                None => Err(Error::UnexpectedResponse(Unexpected::MissingContentLength)),
            }
        },
    }
}

/// The content length that a HEAD request establishes.
pub fn head_content_length(h: HeadOutcome) -> (r: Result<u64, Error>)
    ensures
        r == spec_head_length(h),
{
    match h {
        HeadOutcome::Failed => Err(Error::Transport),
        HeadOutcome::Responded { status, content_length } => {
            if !(200 <= status && status <= 299) {
                Err(Error::Status(status))
            } else {
                match content_length {
                    Some(n) => Ok(n),
                    None => Err(Error::UnexpectedResponse(Unexpected::MissingContentLength)),
                }
            }
        },
    }
}

impl Stream {
    /// The classification fields agree with the declared MIME type and codecs.
    pub open spec fn wf(self) -> bool {
        let n = self.mime_type.codecs@.len();
        let top = self.mime_type.top_level@;
        &&& self.is_progressive == !spec_is_adaptive(n)
        &&& self.includes_video_track == spec_includes_video(n, top)
        &&& self.includes_audio_track == spec_includes_audio(n, top)
        &&& spec_codecs(top, self.mime_type.codecs@) == Ok::<_, Error>(
            (opt_view(self.video_codec), opt_view(self.audio_codec)),
        )
    }

    /// Classifies a declared rendition; fails where its codec count contradicts
    /// a progressive rendition.
    pub fn from_raw_format(raw: RawFormat, video_id: String) -> (r: Result<Stream, Error>)
        ensures
            match r {
                Ok(s) => {
                    &&& s.wf()
                    &&& s.mime_type == raw.mime_type
                    &&& s.itag == raw.itag
                    &&& s.url == raw.url
                    &&& s.content_length == raw.content_length
                    &&& s.video_id == video_id
                },
                Err(e) => spec_codecs(raw.mime_type.top_level@, raw.mime_type.codecs@)
                    == Err::<(Option<Seq<char>>, Option<Seq<char>>), Error>(e),
            },
            r is Ok <==> spec_codecs(raw.mime_type.top_level@, raw.mime_type.codecs@) is Ok,
    {
        let (video_codec, audio_codec) = match parse_codecs(
            &raw.mime_type.top_level,
            &raw.mime_type.codecs,
        ) {
            Ok(p) => p,
            Err(e) => {
                return Err(e);
            },
        };
        let is_progressive = is_progressive(&raw.mime_type.codecs);
        let includes_video_track = includes_video_track(
            &raw.mime_type.codecs,
            &raw.mime_type.top_level,
        );
        let includes_audio_track = includes_audio_track(
            &raw.mime_type.codecs,
            &raw.mime_type.top_level,
        );
        Ok(
            Stream {
                mime_type: raw.mime_type,
                video_codec,
                audio_codec,
                is_progressive,
                includes_video_track,
                includes_audio_track,
                itag: raw.itag,
                url: raw.url,
                content_length: raw.content_length,
                video_id,
            },
        )
    }

    /// The default file name of a download: `<video id>.mp4`.
    pub fn file_name(&self) -> (r: String)
        ensures
            r@ == self.video_id@ + seq!['.'] + FILE_EXTENSION@,
    {
        proof {
            reveal_strlit(".");
        }
        self.video_id.clone().concat(".").concat(FILE_EXTENSION)
    }

    /// The URL to request: the whole resource for `None`, segment `k` for `Some(k)`.
    pub fn request_url(&self, target: Option<u64>) -> (r: String)
        ensures
            r@ == match target {
                Some(k) => self.url.spec_segment(k as nat),
                None => self.url.spec_text(),
            },
    {
        match target {
            Some(k) => self.url.segment(k),
            None => self.url.text(),
        }
    }

    /// Where the content length comes from: the declared length when there is
    /// one, else a HEAD request to the rendition's URL.
    pub fn content_length(&self) -> (r: LengthSource)
        ensures
            match (self.content_length, r) {
                (Some(n), LengthSource::Declared(m)) => m == n,
                (None, LengthSource::Head(u)) => u@ == self.url.spec_text(),
                _ => false,
            },
    {
        match self.content_length {
            Some(n) => LengthSource::Declared(n),
            None => LengthSource::Head(self.url.text()),
        }
    }
}

} // verus!
