use vstd::prelude::*;

verus! {

/// A structural expectation about the origin's data that did not hold.
#[derive(Clone, Copy, Debug, PartialEq, Eq, Structural)]
pub enum Unexpected {
    /// A progressive rendition declared a number of codecs other than two.
    CodecCount(usize),
    /// The first segment's response carried no `Segment-Count` header.
    MissingSegmentCount,
    /// The `Segment-Count` header held bytes that are not visible ASCII.
    SegmentCountNotText,
    /// The `Segment-Count` header was not an unsigned 64-bit integer.
    SegmentCountNotInteger,
    /// A HEAD response carried no valid content length.
    MissingContentLength,
}

/// Failures of classification and of downloads.
#[derive(Clone, Copy, Debug, PartialEq, Eq, Structural)]
pub enum Error {
    /// The server answered with a status outside 200..=299.
    Status(u16),
    /// The request failed before a status arrived, or the body stream broke.
    Transport,
    /// Creating, writing or removing the destination file failed.
    Io,
    /// The origin's data violated a structural expectation.
    UnexpectedResponse(Unexpected),
}

} // verus!
