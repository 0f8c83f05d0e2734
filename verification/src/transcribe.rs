//! Local speech-to-text with whisper: the names of the files it writes.

use vstd::prelude::*;
use crate::subtitle::{sanitize_filename, sanitized};
use crate::text::{push_str, string_or, text_or};

verus! {

/// The base name of the transcript files of a media file with the given stem
/// (`transcript` when it has none): the stem made usable as a file name, then `_转写`.
pub open spec fn transcript_base(stem: Option<String>) -> Seq<char> {
    sanitized(text_or(stem, "transcript"@)) + "_转写"@
}

/// The files of a transcription: the base name handed to whisper, the
/// temporary audio file, and the text and subtitle files whisper writes
/// (the base name with `.txt` and `.srt` appended).
pub struct TranscriptNames {
    pub base: String,
    pub wav: String,
    pub txt: String,
    pub srt: String,
}

/// Names the files of the transcription of a media file with the given stem.
pub fn transcript_names(stem: Option<String>) -> (r: TranscriptNames)
    ensures
        r.base@ == transcript_base(stem),
        r.wav@ == transcript_base(stem) + ".tmp.wav"@,
        r.txt@ == transcript_base(stem) + ".txt"@,
        r.srt@ == transcript_base(stem) + ".srt"@,
{
    let stem = string_or(stem, "transcript");
    let mut base = sanitize_filename(stem.as_str());
    push_str(&mut base, "_转写");
    let mut wav = base.clone();
    push_str(&mut wav, ".tmp.wav");
    let mut txt = base.clone();
    push_str(&mut txt, ".txt");
    let mut srt = base.clone();
    push_str(&mut srt, ".srt");
    TranscriptNames { base, wav, txt, srt }
}

} // verus!
