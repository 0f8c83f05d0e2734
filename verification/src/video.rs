//! Downloading a video: choosing one of the offered streams, whether ffmpeg
//! is needed to merge it, and the names of the files it is saved to.

use vstd::prelude::*;
use crate::cli::part_suffix;
use crate::error::BiliError;
use crate::subtitle::{sanitize_filename, sanitized};
use crate::text::{dec, push_char, push_dec, push_str};

verus! {

/// One stream of a video part: its quality's name and id, the link of its
/// picture, and the link of its separate sound, if it has one.
pub struct VideoStream {
    pub label: String,
    pub quality_id: u64,
    pub video_url: String,
    pub audio_url: Option<String>,
}

/// Whether the stream at `i` has the quality `q`.
pub open spec fn has_quality(streams: Seq<VideoStream>, i: int, q: u64) -> bool {
    0 <= i < streams.len() && streams[i].quality_id == q
}

/// The stream to download: the first one when no quality is asked for, else
/// the first one of the quality asked for; refused when none is offered or
/// none has that quality.
pub fn choose_stream(streams: &Vec<VideoStream>, qn: Option<u64>) -> (r: Result<usize, BiliError>)
    ensures
        streams@.len() == 0 ==> r matches Err(BiliError::NoStreams),
        streams@.len() > 0 && qn is None ==> r matches Ok(0),
        streams@.len() > 0 && qn is Some ==> match r {
            Ok(i) => has_quality(streams@, i as int, qn->0) && forall|j: int|
                0 <= j < i ==> !has_quality(streams@, j, qn->0),
            Err(e) => e matches BiliError::NoQuality { q } && q == qn->0 && forall|j: int|
                !has_quality(streams@, j, qn->0),
        },
{
    if streams.len() == 0 {
        return Err(BiliError::NoStreams);
    }
    let q = match qn {
        None => return Ok(0),
        Some(q) => q,
    };
    let mut i: usize = 0;
    while i < streams.len()
        invariant
            i <= streams@.len(),
            streams@.len() > 0,
            qn == Some(q),
            forall|j: int| 0 <= j < i ==> !has_quality(streams@, j, q),
        decreases streams.len() - i,
    {
        if streams[i].quality_id == q {
            return Ok(i);
        }
        i = i + 1;
    }
    Err(BiliError::NoQuality { q })
}

/// Whether the stream's picture and sound come apart and must be merged
/// with ffmpeg.
pub fn needs_ffmpeg(s: &VideoStream) -> (r: bool)
    ensures
        r == s.audio_url is Some,
{
    s.audio_url.is_some()
}

/// The name of the saved video of a part in a quality: the title made usable
/// as a file name, the part, the quality id, `.mp4`.
pub open spec fn video_name(title: Seq<char>, page: nat, quality_id: nat) -> Seq<char> {
    sanitized(title) + part_suffix(page) + seq!['_'] + dec(quality_id) + ".mp4"@
}

/// The names of the saved video and of the temporary picture and sound
/// files that are merged into it.
pub fn video_file_names(title: &str, page: usize, quality_id: u64) -> (r: (String, String, String))
    ensures
        r.0@ == video_name(title@, page as nat, quality_id as nat),
        r.1@ == r.0@ + ".video.tmp"@,
        r.2@ == r.0@ + ".audio.tmp"@,
{
    let mut name = sanitize_filename(title);
    let ghost n0 = name@;
    if page > 1 {
        push_char(&mut name, '_');
        push_char(&mut name, 'P');
        push_dec(&mut name, page as u64);
    }
    assert(name@ == n0 + part_suffix(page as nat));
    push_char(&mut name, '_');
    push_dec(&mut name, quality_id);
    push_str(&mut name, ".mp4");
    let mut video_tmp = name.clone();
    push_str(&mut video_tmp, ".video.tmp");
    let mut audio_tmp = name.clone();
    push_str(&mut audio_tmp, ".audio.tmp");
    (name, video_tmp, audio_tmp)
}

} // verus!
