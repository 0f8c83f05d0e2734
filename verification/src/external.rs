//! Douyin and Xiaohongshu links, which an outside downloader (yt-dlp) handles.

use vstd::prelude::*;
use crate::json::{json_parses, json_str, json_str_at, json_valid};
use crate::text::{
    chars_of, contains, ends_with, ends_with_chars, find, push_str, string_from, string_or,
    trim_end,
};

verus! {

/// A video that the outside downloader can fetch: its title and its link.
#[derive(Clone, Debug)]
pub struct ExternalVideo {
    pub title: String,
    pub url: String,
}

/// The Unicode lower-casing of a string, as `str::to_lowercase` does it.
pub uninterp spec fn unicode_lowercase(s: Seq<char>) -> Seq<char>;

/// `str::to_lowercase`: the string with every character replaced by its
/// Unicode lower-case mapping.
#[verifier::external_body]
fn to_lowercase(s: &str) -> (r: String)
    ensures
        r@ == unicode_lowercase(s@),
{
    s.to_lowercase()
}

/// Whether a lower-cased link names one of the sites the downloader supports.
pub open spec fn supported_link(lowered: Seq<char>) -> bool {
    contains(lowered, "douyin.com"@) || contains(lowered, "iesdouyin.com"@) || contains(
        lowered,
        "xiaohongshu.com"@,
    ) || contains(lowered, "xhslink.com"@)
}

/// Whether a lower-cased link names a supported site.
pub fn is_supported_lowered(lowered: &str) -> (r: bool)
    ensures
        r == supported_link(lowered@),
{
    let l = chars_of(lowered);
    let a = chars_of("douyin.com");
    let b = chars_of("iesdouyin.com");
    let c = chars_of("xiaohongshu.com");
    let d = chars_of("xhslink.com");
    find(&l, &a).is_some() || find(&l, &b).is_some() || find(&l, &c).is_some() || find(
        &l,
        &d,
    ).is_some()
}

/// Whether a link names Douyin or Xiaohongshu, in any letter case.
pub fn is_supported(url: &str) -> (r: bool)
    ensures
        r == supported_link(unicode_lowercase(url@)),
{
    let lowered = to_lowercase(url);
    is_supported_lowered(lowered.as_str())
}

/// The video that the downloader's JSON description gives: its `title`
/// (`未命名视频` when absent) and the link it was asked about; `None` when the
/// description is not JSON.
pub fn video_from_probe(json_text: &str, url: &str) -> (r: Option<ExternalVideo>)
    ensures
        r is None <==> !json_parses(json_text@),
        r matches Some(v) ==> v.title@ == text_or_opt_str(json_str_at(json_text@, "/title"@), "未命名视频"@)
            && v.url@ == url@,
{
    if !json_valid(json_text) {
        return None;
    }
    let title = string_or(json_str(json_text, "/title"), "未命名视频");
    let mut u = String::new();
    push_str(&mut u, url);
    Some(ExternalVideo { title, url: u })
}

/// An optional text, or `d` when absent.
pub open spec fn text_or_opt_str(o: Option<Seq<char>>, d: Seq<char>) -> Seq<char> {
    match o {
        Some(x) => x,
        None => d,
    }
}

/// The saved file that a line of the downloader's output announces: the line
/// without trailing white space, when it ends in `.mp4`.
pub fn saved_file_line(line: &str) -> (r: Option<String>)
    ensures
        r is Some <==> ends_with(trim_end(line@), ".mp4"@),
        r matches Some(p) ==> p@ == trim_end(line@),
{
    let cs = chars_of(line);
    let e = crate::text::trim_end_at(&cs, 0, cs.len());
    assert(cs@.subrange(0, cs@.len() as int) == line@);
    let t = string_from(&cs, 0, e);
    let tc = chars_of(t.as_str());
    let mp4 = chars_of(".mp4");
    if ends_with_chars(&tc, &mp4) {
        Some(t)
    } else {
        None
    }
}

} // verus!
