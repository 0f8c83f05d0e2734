use vstd::prelude::*;

verus! {

/// Why a step of fetching video information, subtitles or a login failed.
#[derive(Debug)]
pub enum BiliError {
    /// The link field was empty.
    EmptyInput,
    /// A short link led to a page whose address names no video.
    NoVideoId { url: String },
    /// The input holds neither a BV id nor an AV id.
    NoVideoRef,
    /// The video information call answered with a non-zero code.
    VideoInfo { message: String, code: i64 },
    /// The video information lists no parts.
    NoPages,
    /// No part, and so no cid, for the page asked for.
    NoCid { page: usize },
    /// The subtitle list call answered with a non-zero code.
    Tracks { message: String, code: i64 },
    /// The login QR code call answered with a non-zero code.
    QrGenerate { message: String },
    /// A subtitle file has no `body` array.
    BadSubtitleFile,
    /// The navigation reply has no WBI image link.
    NoWbiImg,
    /// The navigation reply has no WBI sub link.
    NoWbiSub,
    /// A WBI link names no key.
    WbiKey { url: String },
    /// The server answered with a status outside 200..=299.
    Http { status: u16 },
    /// The server's answer to a request for `url` is not JSON.
    NotJson { url: String },
    /// No video stream is offered.
    NoStreams,
    /// No offered stream has the quality asked for.
    NoQuality { q: u64 },
}

} // verus!
