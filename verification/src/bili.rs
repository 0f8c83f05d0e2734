//! The decisions of the Bilibili client: reading links, choosing calls, and
//! turning replies into the library's values.

use vstd::prelude::*;
use crate::error::BiliError;
use crate::ids::{
    aid_of, bvid_of, extract_aid, extract_bvid, extract_page, file_key, key_of, page_of,
};
use crate::json::{
    json_i64, json_i64_at, json_items, json_items_at, json_parses, json_pretty, json_pretty_of,
    json_shown, json_shown_at, json_str, json_str_at, json_u64, json_u64_at, json_valid,
};
use crate::text::{
    chars_of, contains, dec, find, lower, lower_chars, matches_at, opt_view, push_dec, push_str,
    starts_with, string_from, string_or, text_or, trim, trim_bounds,
};

verus! {

/// A video: its ids, its title and its parts.
pub struct VideoInfo {
    pub aid: i64,
    pub bvid: String,
    pub title: String,
    pub pages: Vec<PageInfo>,
}

/// One part of a video.
#[derive(Clone)]
pub struct PageInfo {
    pub page: usize,
    pub part: String,
    pub cid: i64,
}

/// A subtitle track: its language code, the language's name, and where to fetch it.
pub struct SubTrack {
    pub lan: String,
    pub lan_doc: String,
    pub url: String,
}

/// A pending QR-code login: the key to poll with and the link the code encodes.
pub struct QrLogin {
    pub qrcode_key: String,
    pub url: String,
}

/// Where a QR-code login stands.
#[derive(Clone, Copy, PartialEq, Eq, Structural, Debug)]
pub enum QrPoll {
    Waiting,
    Scanned,
    Confirmed,
    Expired,
}

/// What to do with a trimmed input: use it as it is, or follow it as a short
/// link and use where it leads.
#[derive(Debug)]
pub enum InputKind {
    Direct(String),
    Redirect(String),
}

/// Whether the (trimmed) input must be followed to find the video: a `b23.tv`
/// short link, or a web link that names no video.
pub open spec fn needs_redirect(t: Seq<char>) -> bool {
    contains(lower(t), seq!['b', '2', '3', '.', 't', 'v']) || (starts_with(
        lower(t),
        seq!['h', 't', 't', 'p'],
    ) && bvid_of(t) is None && aid_of(t) is None)
}

/// Decides how to resolve what the user typed: full links, `b23.tv` short
/// links and bare BV / AV ids are accepted.
pub fn classify_input(input: &str) -> (r: Result<InputKind, BiliError>)
    ensures
        trim(input@).len() == 0 <==> r matches Err(BiliError::EmptyInput),
        r is Err ==> trim(input@).len() == 0,
        r matches Ok(InputKind::Direct(s)) ==> s@ == trim(input@) && !needs_redirect(trim(input@)),
        r matches Ok(InputKind::Redirect(s)) ==> s@ == trim(input@) && needs_redirect(trim(input@)),
{
    let cs = chars_of(input);
    let (lo, hi) = trim_bounds(&cs);
    if lo == hi {
        return Err(BiliError::EmptyInput);
    }
    let t = string_from(&cs, lo, hi);
    let tc = chars_of(t.as_str());
    let low = lower_chars(&tc);
    let short = chars_of("b23.tv");
    let http = chars_of("http");
    proof {
        reveal_strlit("b23.tv");
        reveal_strlit("http");
    }
    assert(short@ == seq!['b', '2', '3', '.', 't', 'v']);
    assert(http@ == seq!['h', 't', 't', 'p']);
    let has_short = match find(&low, &short) {
        Some(_) => true,
        None => false,
    };
    let redirect = has_short || (matches_at(&low, &http, 0) && extract_bvid(t.as_str()).is_none()
        && extract_aid(t.as_str()).is_none());
    if redirect {
        Ok(InputKind::Redirect(t))
    } else {
        Ok(InputKind::Direct(t))
    }
}

/// Accepts the address a short link led to, if it names a video.
pub fn check_redirect(final_url: String) -> (r: Result<String, BiliError>)
    ensures
        r is Ok <==> (bvid_of(final_url@) is Some || aid_of(final_url@) is Some),
        r matches Ok(u) ==> u@ == final_url@,
        r matches Err(e) ==> e matches BiliError::NoVideoId { url } && url@ == final_url@,
{
    if extract_bvid(final_url.as_str()).is_none() && extract_aid(final_url.as_str()).is_none() {
        Err(BiliError::NoVideoId { url: final_url })
    } else {
        Ok(final_url)
    }
}

/// The video information call for a video and the part asked for.
pub struct VideoQuery {
    pub api: String,
    pub page: usize,
    pub bvid: Option<String>,
}

/// The video information call for a BV id.
pub open spec fn view_by_bvid(bv: Seq<char>) -> Seq<char> {
    "https://api.bilibili.com/x/web-interface/view?bvid="@ + bv
}

/// The video information call for an AV id.
pub open spec fn view_by_aid(aid: nat) -> Seq<char> {
    "https://api.bilibili.com/x/web-interface/view?aid="@ + dec(aid)
}

/// Chooses the video information call for a resolved link: by BV id when it
/// holds one, else by AV id; the part is the `p` parameter, 1 by default.
pub fn video_query(url_part: &str) -> (r: Result<VideoQuery, BiliError>)
    ensures
        r is Err <==> bvid_of(url_part@) is None && aid_of(url_part@) is None,
        r matches Err(e) ==> e is NoVideoRef,
        r matches Ok(q) ==> {
            &&& q.page as nat == match page_of(url_part@) {
                Some(p) => p,
                None => 1nat,
            }
            &&& match bvid_of(url_part@) {
                Some(bv) => q.api@ == view_by_bvid(bv) && (q.bvid matches Some(b) && b@ == bv),
                None => q.api@ == view_by_aid(aid_of(url_part@)->0) && q.bvid is None,
            }
        },
{
    let bvid = extract_bvid(url_part);
    let aid = extract_aid(url_part);
    let page = match extract_page(url_part) {
        Some(p) => p,
        None => 1,
    };
    match bvid {
        Some(bv) => {
            let mut api = String::new();
            push_str(&mut api, "https://api.bilibili.com/x/web-interface/view?bvid=");
            push_str(&mut api, bv.as_str());
            assert(api@ == view_by_bvid(bv@));
            Ok(VideoQuery { api, page, bvid: Some(bv) })
        },
        None => match aid {
            Some(a) => {
                let mut api = String::new();
                push_str(&mut api, "https://api.bilibili.com/x/web-interface/view?aid=");
                push_dec(&mut api, a as u64);
                assert(api@ == view_by_aid(a as nat));
                Ok(VideoQuery { api, page, bvid: None })
            },
            None => Err(BiliError::NoVideoRef),
        },
    }
}

/// Accepts a server reply: the status must be a success and the body JSON.
pub fn check_json_reply(url: &str, status: u16, body: &str) -> (r: Result<(), BiliError>)
    ensures
        !(200 <= status <= 299) <==> r matches Err(BiliError::Http { status: s }),
        r matches Err(BiliError::Http { status: s }) ==> s == status,
        r matches Err(e) ==> e is Http || (e matches BiliError::NotJson { url: u } && u@ == url@),
        r is Ok <==> 200 <= status <= 299 && json_parses(body@),
{
    if status < 200 || status > 299 {
        return Err(BiliError::Http { status });
    }
    if !json_valid(body) {
        let mut u = String::new();
        push_str(&mut u, url);
        return Err(BiliError::NotJson { url: u });
    }
    Ok(())
}


/// The fields of one entry of a video's part list, as the reply gives them.
pub struct RawPage {
    pub page: Option<u64>,
    pub part: Option<String>,
    pub cid: Option<i64>,
}

/// The fields of a video information reply.
pub struct VideoReply {
    pub code: Option<i64>,
    /// The `message` field written as JSON.
    pub message: String,
    pub aid: Option<i64>,
    pub bvid: Option<String>,
    pub title: Option<String>,
    pub pages: Option<Vec<RawPage>>,
}

/// `raw` holds what the part entry `item` (JSON text) gives.
pub open spec fn reads_page(item: Seq<char>, raw: RawPage) -> bool {
    &&& raw.page == json_u64_at(item, "/page"@)
    &&& opt_view(raw.part) == json_str_at(item, "/part"@)
    &&& raw.cid == json_i64_at(item, "/cid"@)
}

/// `reply` holds what the video information reply `text` gives.
pub open spec fn reads_video(text: Seq<char>, reply: VideoReply) -> bool {
    &&& reply.code == json_i64_at(text, "/code"@)
    &&& reply.message@ == json_shown_at(text, "/message"@)
    &&& reply.aid == json_i64_at(text, "/data/aid"@)
    &&& opt_view(reply.bvid) == json_str_at(text, "/data/bvid"@)
    &&& opt_view(reply.title) == json_str_at(text, "/data/title"@)
    &&& match json_items_at(text, "/data/pages"@) {
        None => reply.pages is None,
        Some(items) => reply.pages matches Some(ps) && ps@.len() == items.len() && forall|i: int|
            0 <= i < items.len() ==> reads_page(items[i], #[trigger] ps@[i]),
    }
}

/// Reads the fields of a video information reply.
pub fn read_video_reply(text: &str) -> (r: VideoReply)
    ensures
        reads_video(text@, r),
        r.code == json_i64_at(text@, "/code"@),
        r.message@ == json_shown_at(text@, "/message"@),
        r.aid == json_i64_at(text@, "/data/aid"@),
        opt_view(r.bvid) == json_str_at(text@, "/data/bvid"@),
        opt_view(r.title) == json_str_at(text@, "/data/title"@),
        r.pages is Some <==> json_items_at(text@, "/data/pages"@) is Some,
        r.pages matches Some(ps) ==> json_items_at(text@, "/data/pages"@) matches Some(items)
            && ps@.len() == items.len() && forall|i: int|
            0 <= i < items.len() ==> {
                &&& (#[trigger] ps@[i]).page == json_u64_at(items[i], "/page"@)
                &&& opt_view(ps@[i].part) == json_str_at(items[i], "/part"@)
                &&& ps@[i].cid == json_i64_at(items[i], "/cid"@)
            },
{
    let pages = match json_items(text, "/data/pages") {
        None => None,
        Some(items) => {
            let mut ps: Vec<RawPage> = Vec::new();
            let mut i: usize = 0;
            while i < items.len()
                invariant
                    i <= items@.len(),
                    ps@.len() == i,
                    forall|j: int| 0 <= j < i ==> reads_page(items@[j]@, #[trigger] ps@[j]),
                decreases items.len() - i,
            {
                let item = items[i].as_str();
                ps.push(
                    RawPage {
                        page: json_u64(item, "/page"),
                        part: json_str(item, "/part"),
                        cid: json_i64(item, "/cid"),
                    },
                );
                i = i + 1;
            }
            Some(ps)
        },
    };
    VideoReply {
        code: json_i64(text, "/code"),
        message: json_shown(text, "/message"),
        aid: json_i64(text, "/data/aid"),
        bvid: json_str(text, "/data/bvid"),
        title: json_str(text, "/data/title"),
        pages,
    }
}

/// The part list of a reply, empty when absent.
pub open spec fn raw_pages(reply: VideoReply) -> Seq<RawPage> {
    match reply.pages {
        Some(ps) => ps@,
        None => Seq::empty(),
    }
}

/// `p` is the part that the entry `raw` describes, with the defaults filled in.
pub open spec fn page_from(raw: RawPage, p: PageInfo) -> bool {
    &&& p.page == (match raw.page {
        Some(v) => v,
        None => 1u64,
    }) as usize
    &&& p.part@ == text_or(raw.part, Seq::empty())
    &&& p.cid == match raw.cid {
        Some(c) => c,
        None => 0i64,
    }
}

/// The outcome of a video information reply: a failure code is reported with
/// its message, a video without parts is refused, and otherwise the video is
/// built with the defaults filled in.
pub open spec fn video_outcome(
    reply: VideoReply,
    bvid: Option<String>,
    r: Result<VideoInfo, BiliError>,
) -> bool {
    if reply.code != Some(0i64) {
        r matches Err(BiliError::VideoInfo { message, code }) && message@ == reply.message@ && code
            == (match reply.code {
            Some(c) => c,
            None => -1i64,
        })
    } else if raw_pages(reply).len() == 0 {
        r matches Err(BiliError::NoPages)
    } else {
        r matches Ok(info) && info.aid == (match reply.aid {
            Some(a) => a,
            None => 0i64,
        }) && info.bvid@ == text_or(reply.bvid, text_or(bvid, Seq::empty())) && info.title@
            == text_or(reply.title, "未知标题"@) && info.pages@.len() == raw_pages(reply).len()
            && forall|i: int|
            0 <= i < info.pages@.len() ==> page_from(raw_pages(reply)[i], #[trigger] info.pages@[i])
    }
}

/// Builds the video from the fields of its information reply; `bvid` is the
/// BV id the call was made with, used when the reply names none.
pub fn video_info_from_reply(reply: VideoReply, bvid: Option<String>) -> (r: Result<
    VideoInfo,
    BiliError,
>)
    ensures
        video_outcome(reply, bvid, r),
        reply.code == Some(0i64) && raw_pages(reply).len() > 0 ==> r is Ok,
        r matches Ok(info) ==> match reply.bvid {
            Some(b) => info.bvid@ == b@,
            None => info.bvid@ == text_or(bvid, Seq::empty()),
        },
{
    let ghost reply0 = reply;
    let ghost bvid0 = bvid;
    match reply.code {
        Some(c) if c == 0 => {},
        _ => {
            let code = match reply.code {
                Some(c) => c,
                None => -1,
            };
            return Err(BiliError::VideoInfo { message: reply.message, code });
        },
    }
    let raws = match reply.pages {
        Some(ps) => ps,
        None => Vec::new(),
    };
    assert(raws@ == raw_pages(reply0));
    if raws.len() == 0 {
        return Err(BiliError::NoPages);
    }
    let mut pages: Vec<PageInfo> = Vec::new();
    let mut i: usize = 0;
    while i < raws.len()
        invariant
            i <= raws@.len(),
            pages@.len() == i,
            forall|j: int| 0 <= j < i ==> page_from(raws@[j], #[trigger] pages@[j]),
        decreases raws.len() - i,
    {
        let raw = &raws[i];
        let page = match raw.page {
            Some(v) => v as usize,
            None => 1,
        };
        let part = match &raw.part {
            Some(p) => p.clone(),
            None => String::new(),
        };
        let cid = match raw.cid {
            Some(c) => c,
            None => 0,
        };
        pages.push(PageInfo { page, part, cid });
        i = i + 1;
    }
    let fallback = string_or(bvid, "");
    let aid = match reply.aid {
        Some(a) => a,
        None => 0,
    };
    proof {
        reveal_strlit("");
    }
    assert(""@ == Seq::<char>::empty());
    assert(fallback@ == text_or(bvid0, Seq::empty()));
    assert(reply0.code == Some(0i64));
    Ok(
        VideoInfo {
            aid,
            bvid: string_or(reply.bvid, fallback.as_str()),
            title: string_or(reply.title, "未知标题"),
            pages,
        },
    )
}

/// Reads a video information reply and builds the video from it.
pub fn video_info(text: &str, bvid: Option<String>) -> (r: Result<VideoInfo, BiliError>)
    ensures
        exists|reply: VideoReply| reads_video(text@, reply) && video_outcome(reply, bvid, r),
        r matches Ok(info) ==> match json_str_at(text@, "/data/bvid"@) {
            Some(b) => info.bvid@ == b,
            None => info.bvid@ == text_or(bvid, Seq::empty()),
        },
{
    let reply = read_video_reply(text);
    let ghost g = reply;
    let r = video_info_from_reply(reply, bvid);
    assert(reads_video(text@, g) && video_outcome(g, bvid, r));
    r
}

/// The BV id of a loaded video is the one the reply names, whatever id the
/// call was made with; the caller's id counts only when the reply names none.
pub proof fn reply_bvid_wins(reply: VideoReply, bvid: Option<String>, r: Result<VideoInfo, BiliError>)
    requires
        video_outcome(reply, bvid, r),
        reply.code == Some(0i64),
        raw_pages(reply).len() > 0,
    ensures
        r matches Ok(info) && match reply.bvid {
            Some(b) => info.bvid@ == b@,
            None => info.bvid@ == text_or(bvid, Seq::empty()),
        },
{
}


/// The cid of the first part numbered `page`, if there is one.
pub open spec fn cid_of_page(pages: Seq<PageInfo>, page: usize) -> Option<i64>
    decreases pages.len(),
{
    if pages.len() == 0 {
        None
    } else if pages[0].page == page {
        Some(pages[0].cid)
    } else {
        cid_of_page(pages.drop_first(), page)
    }
}

fn find_cid(pages: &Vec<PageInfo>, page: usize) -> (r: Option<i64>)
    ensures
        r == cid_of_page(pages@, page),
{
    let mut i: usize = 0;
    assert(pages@.subrange(0, pages@.len() as int) == pages@);
    while i < pages.len()
        invariant
            i <= pages@.len(),
            cid_of_page(pages@, page) == cid_of_page(pages@.subrange(i as int, pages@.len() as int), page),
        decreases pages.len() - i,
    {
        let ghost rest = pages@.subrange(i as int, pages@.len() as int);
        assert(rest.drop_first() == pages@.subrange(i + 1, pages@.len() as int));
        if pages[i].page == page {
            return Some(pages[i].cid);
        }
        i = i + 1;
    }
    None
}

/// The cid to fetch subtitles for: that of the part numbered `page`, else that
/// of the first part; refused when the video has no parts.
pub fn select_cid(video: &VideoInfo, page: usize) -> (r: Result<i64, BiliError>)
    ensures
        match cid_of_page(video.pages@, page) {
            Some(c) => r == Ok::<i64, BiliError>(c),
            None => if video.pages@.len() > 0 {
                r == Ok::<i64, BiliError>(video.pages@[0].cid)
            } else {
                r matches Err(BiliError::NoCid { page: p }) && p == page
            },
        },
{
    match find_cid(&video.pages, page) {
        Some(c) => Ok(c),
        None => {
            if video.pages.len() > 0 {
                Ok(video.pages[0].cid)
            } else {
                Err(BiliError::NoCid { page })
            }
        },
    }
}

/// The cid whose raw subtitle reply is shown for debugging: that of the part
/// numbered `page`, else 0.
pub fn debug_cid(video: &VideoInfo, page: usize) -> (r: i64)
    ensures
        r == match cid_of_page(video.pages@, page) {
            Some(c) => c,
            None => 0i64,
        },
{
    match find_cid(&video.pages, page) {
        Some(c) => c,
        None => 0,
    }
}

/// The fields of one subtitle entry, as the reply gives them.
pub struct RawTrack {
    pub lan: Option<String>,
    pub lan_doc: Option<String>,
    pub url: Option<String>,
}

/// The fields of a subtitle list reply.
pub struct TrackReply {
    pub code: Option<i64>,
    /// The `message` field written as JSON.
    pub message: String,
    pub subtitles: Option<Vec<RawTrack>>,
}

/// `raw` holds what the subtitle entry `item` (JSON text) gives.
pub open spec fn reads_track(item: Seq<char>, raw: RawTrack) -> bool {
    &&& opt_view(raw.lan) == json_str_at(item, "/lan"@)
    &&& opt_view(raw.lan_doc) == json_str_at(item, "/lan_doc"@)
    &&& opt_view(raw.url) == json_str_at(item, "/subtitle_url"@)
}

/// `reply` holds what the subtitle list reply `text` gives.
pub open spec fn reads_tracks(text: Seq<char>, reply: TrackReply) -> bool {
    &&& reply.code == json_i64_at(text, "/code"@)
    &&& reply.message@ == json_shown_at(text, "/message"@)
    &&& match json_items_at(text, "/data/subtitle/subtitles"@) {
        None => reply.subtitles is None,
        Some(items) => reply.subtitles matches Some(ts) && ts@.len() == items.len() && forall|i: int|
            0 <= i < items.len() ==> reads_track(items[i], #[trigger] ts@[i]),
    }
}

/// Reads the fields of a subtitle list reply.
pub fn read_track_reply(text: &str) -> (r: TrackReply)
    ensures
        reads_tracks(text@, r),
        r.code == json_i64_at(text@, "/code"@),
        r.message@ == json_shown_at(text@, "/message"@),
        r.subtitles is Some <==> json_items_at(text@, "/data/subtitle/subtitles"@) is Some,
        r.subtitles matches Some(ts) ==> json_items_at(text@, "/data/subtitle/subtitles"@) matches Some(
            items,
        ) && ts@.len() == items.len() && forall|i: int|
            0 <= i < items.len() ==> {
                &&& opt_view((#[trigger] ts@[i]).lan) == json_str_at(items[i], "/lan"@)
                &&& opt_view(ts@[i].lan_doc) == json_str_at(items[i], "/lan_doc"@)
                &&& opt_view(ts@[i].url) == json_str_at(items[i], "/subtitle_url"@)
            },
{
    let subtitles = match json_items(text, "/data/subtitle/subtitles") {
        None => None,
        Some(items) => {
            let mut ts: Vec<RawTrack> = Vec::new();
            let mut i: usize = 0;
            while i < items.len()
                invariant
                    i <= items@.len(),
                    ts@.len() == i,
                    forall|j: int| 0 <= j < i ==> reads_track(items@[j]@, #[trigger] ts@[j]),
                decreases items.len() - i,
            {
                let item = items[i].as_str();
                ts.push(
                    RawTrack {
                        lan: json_str(item, "/lan"),
                        lan_doc: json_str(item, "/lan_doc"),
                        url: json_str(item, "/subtitle_url"),
                    },
                );
                i = i + 1;
            }
            Some(ts)
        },
    };
    TrackReply { code: json_i64(text, "/code"), message: json_shown(text, "/message"), subtitles }
}

/// A protocol-relative link (`//host/...`) made into an `https:` link.
pub open spec fn full_url(u: Seq<char>) -> Seq<char> {
    if starts_with(u, seq!['/', '/']) {
        "https://"@ + u.subrange(2, u.len() as int)
    } else {
        u
    }
}

/// The view of a subtitle track.
pub open spec fn track_view(t: SubTrack) -> (Seq<char>, Seq<char>, Seq<char>) {
    (t.lan@, t.lan_doc@, t.url@)
}

/// The tracks that the entries describe: entries without a link are left
/// out, links are made absolute and missing names get defaults.
pub open spec fn track_list(raws: Seq<RawTrack>) -> Seq<(Seq<char>, Seq<char>, Seq<char>)>
    decreases raws.len(),
{
    if raws.len() == 0 {
        Seq::empty()
    } else {
        let prev = track_list(raws.drop_last());
        let t = raws.last();
        let u = text_or(t.url, Seq::empty());
        if u.len() == 0 {
            prev
        } else {
            prev.push((text_or(t.lan, "unknown"@), text_or(t.lan_doc, "未知语言"@), full_url(u)))
        }
    }
}

/// The entries of a reply, empty when absent.
pub open spec fn raw_tracks(reply: TrackReply) -> Seq<RawTrack> {
    match reply.subtitles {
        Some(ts) => ts@,
        None => Seq::empty(),
    }
}

fn track_from(raw: &RawTrack) -> (r: Option<SubTrack>)
    ensures
        text_or(raw.url, Seq::empty()).len() == 0 <==> r is None,
        r matches Some(t) ==> track_view(t) == (
            text_or(raw.lan, "unknown"@),
            text_or(raw.lan_doc, "未知语言"@),
            full_url(text_or(raw.url, Seq::empty())),
        ),
{
    let url = match &raw.url {
        Some(u) => u.clone(),
        None => String::new(),
    };
    let cs = chars_of(url.as_str());
    if cs.len() == 0 {
        return None;
    }
    let url = if cs.len() >= 2 && cs[0] == '/' && cs[1] == '/' {
        let mut full = String::new();
        push_str(&mut full, "https://");
        let rest = string_from(&cs, 2, cs.len());
        push_str(&mut full, rest.as_str());
        assert(starts_with(cs@, seq!['/', '/'])) by {
            assert(cs@.subrange(0, 2) =~= seq!['/', '/']);
        }
        full
    } else {
        assert(!starts_with(cs@, seq!['/', '/'])) by {
            if cs@.len() >= 2 {
                assert(cs@.subrange(0, 2)[0] == cs@[0]);
                assert(cs@.subrange(0, 2)[1] == cs@[1]);
            }
        }
        url
    };
    let lan = match &raw.lan {
        Some(l) => l.clone(),
        None => {
            let mut d = String::new();
            push_str(&mut d, "unknown");
            d
        },
    };
    let lan_doc = match &raw.lan_doc {
        Some(l) => l.clone(),
        None => {
            let mut d = String::new();
            push_str(&mut d, "未知语言");
            d
        },
    };
    Some(SubTrack { lan, lan_doc, url })
}

/// Builds the subtitle tracks from the fields of a subtitle list reply.
pub fn tracks_from_reply(reply: TrackReply) -> (r: Result<Vec<SubTrack>, BiliError>)
    ensures
        reply.code != Some(0i64) <==> r is Err,
        r matches Err(e) ==> e matches BiliError::Tracks { message, code } && message@
            == reply.message@ && code == (match reply.code {
            Some(c) => c,
            None => -1i64,
        }),
        r matches Ok(ts) ==> ts@.map_values(|t: SubTrack| track_view(t)) == track_list(
            raw_tracks(reply),
        ),
{
    let ghost reply0 = reply;
    match reply.code {
        Some(c) if c == 0 => {},
        _ => {
            let code = match reply.code {
                Some(c) => c,
                None => -1,
            };
            return Err(BiliError::Tracks { message: reply.message, code });
        },
    }
    let raws = match reply.subtitles {
        Some(ts) => ts,
        None => Vec::new(),
    };
    assert(raws@ == raw_tracks(reply0));
    let mut out: Vec<SubTrack> = Vec::new();
    let mut i: usize = 0;
    while i < raws.len()
        invariant
            i <= raws@.len(),
            out@.map_values(|t: SubTrack| track_view(t)) == track_list(raws@.take(i as int)),
        decreases raws.len() - i,
    {
        assert(raws@.take(i + 1).drop_last() == raws@.take(i as int));
        assert(raws@.take(i + 1).last() == raws@[i as int]);
        let ghost before = out@;
        match track_from(&raws[i]) {
            Some(t) => {
                out.push(t);
                assert(out@.map_values(|t: SubTrack| track_view(t)) == before.map_values(
                    |t: SubTrack| track_view(t),
                ).push(track_view(out@.last())));
            },
            None => {},
        }
        i = i + 1;
    }
    assert(raws@.take(raws@.len() as int) == raws@);
    Ok(out)
}

/// Reads a subtitle list reply and builds the tracks from it.
pub fn subtitle_tracks(text: &str) -> (r: Result<Vec<SubTrack>, BiliError>)
    ensures
        exists|reply: TrackReply|
            reads_tracks(text@, reply) && (reply.code != Some(0i64) <==> r is Err) && (
            r matches Err(e) ==> e matches BiliError::Tracks { message, code } && message@
                == reply.message@ && code == (match reply.code {
                Some(c) => c,
                None => -1i64,
            })) && (r matches Ok(ts) ==> ts@.map_values(|t: SubTrack| track_view(t))
                == track_list(raw_tracks(reply))),
{
    let reply = read_track_reply(text);
    let ghost g = reply;
    let r = tracks_from_reply(reply);
    assert(reads_tracks(text@, g));
    r
}


/// The fields of a login QR code reply.
pub struct QrReply {
    pub code: Option<i64>,
    pub message: Option<String>,
    pub qrcode_key: Option<String>,
    pub url: Option<String>,
}

/// `reply` holds what the login QR code reply `text` gives.
pub open spec fn reads_qr(text: Seq<char>, reply: QrReply) -> bool {
    &&& reply.code == json_i64_at(text, "/code"@)
    &&& opt_view(reply.message) == json_str_at(text, "/message"@)
    &&& opt_view(reply.qrcode_key) == json_str_at(text, "/data/qrcode_key"@)
    &&& opt_view(reply.url) == json_str_at(text, "/data/url"@)
}

/// Reads the fields of a login QR code reply.
pub fn read_qr_reply(text: &str) -> (r: QrReply)
    ensures
        reads_qr(text@, r),
        r.code == json_i64_at(text@, "/code"@),
        opt_view(r.message) == json_str_at(text@, "/message"@),
        opt_view(r.qrcode_key) == json_str_at(text@, "/data/qrcode_key"@),
        opt_view(r.url) == json_str_at(text@, "/data/url"@),
{
    QrReply {
        code: json_i64(text, "/code"),
        message: json_str(text, "/message"),
        qrcode_key: json_str(text, "/data/qrcode_key"),
        url: json_str(text, "/data/url"),
    }
}

/// The pending login that a QR code reply describes; a failure code is
/// reported with the reply's message.
pub fn qr_login_from_reply(reply: QrReply) -> (r: Result<QrLogin, BiliError>)
    ensures
        reply.code != Some(0i64) <==> r is Err,
        r matches Err(e) ==> e matches BiliError::QrGenerate { message } && message@ == text_or(
            reply.message,
            "未知错误"@,
        ),
        r matches Ok(q) ==> q.qrcode_key@ == text_or(reply.qrcode_key, Seq::empty()) && q.url@
            == text_or(reply.url, Seq::empty()),
{
    proof {
        reveal_strlit("");
    }
    assert(""@ == Seq::<char>::empty());
    match reply.code {
        Some(c) if c == 0 => Ok(
            QrLogin {
                qrcode_key: string_or(reply.qrcode_key, ""),
                url: string_or(reply.url, ""),
            },
        ),
        _ => Err(BiliError::QrGenerate { message: string_or(reply.message, "未知错误") }),
    }
}

/// The login state that the poll status codes give: the inner code when the
/// reply has one, else the outer code; 0 confirms, 86038 means expired, 86090
/// means scanned, and anything else is still waiting.
pub open spec fn qr_state(data_code: Option<i64>, code: Option<i64>) -> QrPoll {
    let status = match data_code {
        Some(c) => Some(c),
        None => code,
    };
    match status {
        Some(0i64) => QrPoll::Confirmed,
        Some(86038i64) => QrPoll::Expired,
        Some(86090i64) => QrPoll::Scanned,
        _ => QrPoll::Waiting,
    }
}

/// The login state given the status codes of a poll reply.
pub fn qr_poll_state(data_code: Option<i64>, code: Option<i64>) -> (r: QrPoll)
    ensures
        r == qr_state(data_code, code),
{
    let status = match data_code {
        Some(c) => Some(c),
        None => code,
    };
    match status {
        Some(0) => QrPoll::Confirmed,
        Some(86038) => QrPoll::Expired,
        Some(86090) => QrPoll::Scanned,
        _ => QrPoll::Waiting,
    }
}

/// The login state that a poll reply reports.
pub fn read_qr_poll(text: &str) -> (r: QrPoll)
    ensures
        r == qr_state(json_i64_at(text@, "/data/code"@), json_i64_at(text@, "/code"@)),
{
    qr_poll_state(json_i64(text, "/data/code"), json_i64(text, "/code"))
}

/// The poll call for a pending login.
pub fn qr_poll_api(key: &str) -> (r: String)
    ensures
        r@ == "https://passport.bilibili.com/x/passport-login/web/qrcode/poll?qrcode_key="@ + key@,
{
    let mut api = String::new();
    push_str(&mut api, "https://passport.bilibili.com/x/passport-login/web/qrcode/poll?qrcode_key=");
    push_str(&mut api, key);
    api
}

/// The links of the navigation reply that carry the WBI keys.
pub struct WbiReply {
    pub img_url: Option<String>,
    pub sub_url: Option<String>,
}

/// Reads the WBI links of a navigation reply.
pub fn read_wbi_reply(text: &str) -> (r: WbiReply)
    ensures
        opt_view(r.img_url) == json_str_at(text@, "/data/wbi_img/img_url"@),
        opt_view(r.sub_url) == json_str_at(text@, "/data/wbi_img/sub_url"@),
{
    WbiReply {
        img_url: json_str(text, "/data/wbi_img/img_url"),
        sub_url: json_str(text, "/data/wbi_img/sub_url"),
    }
}

/// The two WBI keys: the file names, without extension, of the two links.
pub fn wbi_keys_from_reply(reply: &WbiReply) -> (r: Result<(String, String), BiliError>)
    ensures
        reply.img_url is None ==> r matches Err(BiliError::NoWbiImg),
        reply.img_url is Some && reply.sub_url is None ==> r matches Err(BiliError::NoWbiSub),
        match (reply.img_url, reply.sub_url) {
            (Some(img), Some(sub)) => if key_of(img@).len() == 0 {
                r matches Err(BiliError::WbiKey { url }) && url@ == img@
            } else if key_of(sub@).len() == 0 {
                r matches Err(BiliError::WbiKey { url }) && url@ == sub@
            } else {
                r matches Ok((a, b)) && a@ == key_of(img@) && b@ == key_of(sub@)
            },
            _ => true,
        },
{
    let img = match &reply.img_url {
        Some(u) => u,
        None => return Err(BiliError::NoWbiImg),
    };
    let sub = match &reply.sub_url {
        Some(u) => u,
        None => return Err(BiliError::NoWbiSub),
    };
    let a = file_key(img.as_str())?;
    let b = file_key(sub.as_str())?;
    Ok((a, b))
}

/// The texts of the cues of a subtitle file, `None` for a cue without text.
pub fn read_subtitle_contents(text: &str) -> (r: Option<Vec<Option<String>>>)
    ensures
        r is Some <==> json_items_at(text@, "/body"@) is Some,
        r matches Some(cs) ==> json_items_at(text@, "/body"@) matches Some(items) && cs@.len()
            == items.len() && forall|i: int|
            0 <= i < items.len() ==> opt_view(#[trigger] cs@[i]) == json_str_at(
                items[i],
                "/content"@,
            ),
{
    match json_items(text, "/body") {
        None => None,
        Some(items) => {
            let mut cs: Vec<Option<String>> = Vec::new();
            let mut i: usize = 0;
            while i < items.len()
                invariant
                    i <= items@.len(),
                    cs@.len() == i,
                    forall|j: int|
                        0 <= j < i ==> opt_view(#[trigger] cs@[j]) == json_str_at(
                            items@[j]@,
                            "/content"@,
                        ),
                decreases items.len() - i,
            {
                cs.push(json_str(items[i].as_str(), "/content"));
                i = i + 1;
            }
            Some(cs)
        },
    }
}

/// The cue texts of a subtitle file: refused when it has no `body` array,
/// and a cue without text counts as empty.
pub fn subtitle_contents_from(contents: Option<Vec<Option<String>>>) -> (r: Result<
    Vec<String>,
    BiliError,
>)
    ensures
        contents is None <==> r is Err,
        r matches Err(e) ==> e is BadSubtitleFile,
        r matches Ok(out) ==> contents matches Some(cs) && out@.len() == cs@.len() && forall|i: int|
            0 <= i < cs@.len() ==> (#[trigger] out@[i])@ == text_or(cs@[i], Seq::empty()),
{
    let cs = match contents {
        Some(cs) => cs,
        None => return Err(BiliError::BadSubtitleFile),
    };
    let mut out: Vec<String> = Vec::new();
    let mut i: usize = 0;
    while i < cs.len()
        invariant
            i <= cs@.len(),
            out@.len() == i,
            forall|j: int| 0 <= j < i ==> (#[trigger] out@[j])@ == text_or(cs@[j], Seq::empty()),
        decreases cs.len() - i,
    {
        let c = match &cs[i] {
            Some(s) => s.clone(),
            None => String::new(),
        };
        out.push(c);
        i = i + 1;
    }
    Ok(out)
}


/// The raw subtitle list reply, indented for reading; `None` when it is not JSON.
pub fn debug_reply_text(text: &str) -> (r: Option<String>)
    ensures
        r is Some <==> json_pretty_of(text@) is Some,
        r matches Some(p) ==> json_pretty_of(text@) == Some(p@),
{
    json_pretty(text)
}

/// The subtitle list call for a signed query.
pub fn tracks_api(query: &str) -> (r: String)
    ensures
        r@ == "https://api.bilibili.com/x/player/wbi/v2?"@ + query@,
{
    let mut api = String::new();
    push_str(&mut api, "https://api.bilibili.com/x/player/wbi/v2?");
    push_str(&mut api, query);
    api
}


/// A bare BV id, typed without a link, is used as it is: it is neither a short
/// link nor a web address, so nothing is followed.
pub proof fn bare_bvid_needs_no_redirect(id: Seq<char>)
    requires
        id.len() == 10,
        forall|i: int| 0 <= i < 10 ==> crate::text::is_alnum(#[trigger] id[i]),
    ensures
        trim(seq!['B', 'V'] + id) == seq!['B', 'V'] + id,
        !needs_redirect(seq!['B', 'V'] + id),
{
    let s = seq!['B', 'V'] + id;
    let l = lower(s);
    assert forall|i: int| 0 <= i < s.len() implies crate::text::is_alnum(#[trigger] s[i]) by {
        if i >= 2 {
            assert(s[i] == id[i - 2]);
        }
    }
    assert(!crate::text::is_space(s[0]) && !crate::text::is_space(s.last()));
    crate::text::lemma_trim_fixed(s);
    let short = seq!['b', '2', '3', '.', 't', 'v'];
    assert forall|i: int| !crate::text::occurs_at(l, short, i) by {
        if crate::text::occurs_at(l, short, i) {
            assert(l.subrange(i, i + 6)[3] == l[i + 3]);
            assert(l[i + 3] == crate::text::ascii_lower(s[i + 3]));
            assert(crate::text::is_alnum(s[i + 3]));
        }
    }
    assert(!crate::text::occurs_at(l, seq!['h', 't', 't', 'p'], 0)) by {
        assert(l[0] == 'b');
        assert(l.subrange(0, 4)[0] == l[0]);
    }
}

/// The login is confirmed exactly when the reported status (the inner code,
/// else the outer one) is 0, expired exactly when it is 86038, scanned exactly
/// when it is 86090, and waiting otherwise.
pub proof fn qr_confirmed_iff_zero(data_code: Option<i64>, code: Option<i64>)
    ensures
        ({
            let st = if data_code is Some {
                data_code
            } else {
                code
            };
            &&& (qr_state(data_code, code) == QrPoll::Confirmed) <==> st == Some(0i64)
            &&& (qr_state(data_code, code) == QrPoll::Expired) <==> st == Some(86038i64)
            &&& (qr_state(data_code, code) == QrPoll::Scanned) <==> st == Some(86090i64)
            &&& (qr_state(data_code, code) == QrPoll::Waiting) <==> !(st == Some(0i64) || st
                == Some(86038i64) || st == Some(86090i64))
        }),
{
}

} // verus!
