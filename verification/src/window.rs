//! The state of the desktop window and how the results of its background
//! work change it: the part selected after loading, the status line, the busy
//! flag, the login code and the login state.

use vstd::prelude::*;
use crate::bili::{PageInfo, SubTrack, VideoInfo};
use crate::qr::QrImage;
use crate::text::{contains, dec, join, push_dec, push_str, trim, trim_str, views};
use crate::video::VideoStream;

verus! {

/// What the window is used for.
#[derive(Clone, Copy, PartialEq, Eq, Structural, Debug)]
pub enum Mode {
    Subtitle,
    Video,
    Transcribe,
}

/// The state of the window.
pub struct Window {
    pub mode: Mode,
    pub link: String,
    pub status: String,
    pub busy: bool,
    pub video: Option<VideoInfo>,
    pub selected_page: usize,
    pub tracks: Vec<SubTrack>,
    pub selected_track: usize,
    pub streams: Vec<VideoStream>,
    pub selected_stream: usize,
    pub qr_code: Option<QrImage>,
    pub qr_stage: Option<String>,
    pub logged_in: bool,
}

/// The window as plain values.
pub struct WindowView {
    pub mode: Mode,
    pub link: Seq<char>,
    pub status: Seq<char>,
    pub busy: bool,
    pub video: Option<VideoInfo>,
    pub selected_page: usize,
    pub tracks: Seq<SubTrack>,
    pub selected_track: usize,
    pub streams: Seq<VideoStream>,
    pub selected_stream: usize,
    pub qr_code: Option<QrImage>,
    pub qr_stage: Option<Seq<char>>,
    pub logged_in: bool,
}

impl View for Window {
    type V = WindowView;

    open spec fn view(&self) -> WindowView {
        WindowView {
            mode: self.mode,
            link: self.link@,
            status: self.status@,
            busy: self.busy,
            video: self.video,
            selected_page: self.selected_page,
            tracks: self.tracks@,
            selected_track: self.selected_track,
            streams: self.streams@,
            selected_stream: self.selected_stream,
            qr_code: self.qr_code,
            qr_stage: match self.qr_stage {
                Some(s) => Some(s@),
                None => None,
            },
            logged_in: self.logged_in,
        }
    }
}

/// The result of a piece of background work, as the window receives it.
/// Failures come as the text to show.
pub enum WindowMsg {
    /// A video, the part asked for, its subtitle tracks and its streams.
    VideoLoaded(VideoInfo, usize, Vec<SubTrack>, Vec<VideoStream>),
    /// The subtitle tracks and streams of another part.
    TracksLoaded(usize, Vec<SubTrack>, Vec<VideoStream>),
    /// Subtitles saved to a path, or why not.
    Saved(Result<String, String>),
    /// A step failed; the text to show.
    Failed(String),
    /// A stage of a video download.
    VideoStage(String),
    /// A video saved to a path, or why not.
    VideoSaved(Result<String, String>),
    /// The transcript files saved, or why not.
    TranscribeSaved(Result<Vec<String>, String>),
    /// The login code to show.
    QrReady(QrImage),
    /// A stage of the login.
    QrStage(String),
    /// The login is confirmed.
    QrConfirmed,
}

/// The status line of a new window.
pub open spec fn welcome_text() -> Seq<char> {
    "粘贴B站视频链接，然后点「获取」"@
}

/// A new window; `logged_in` tells whether saved cookies were found.
pub fn new_window(logged_in: bool) -> (r: Window)
    ensures
        r@.mode == Mode::Subtitle,
        r@.link.len() == 0,
        r@.status == welcome_text(),
        !r@.busy,
        r@.video is None,
        r@.selected_page == 1,
        r@.tracks.len() == 0,
        r@.selected_track == 0,
        r@.streams.len() == 0,
        r@.selected_stream == 0,
        r@.qr_code is None,
        r@.qr_stage is None,
        r@.logged_in == logged_in,
{
    let mut status = String::new();
    push_str(&mut status, "粘贴B站视频链接，然后点「获取」");
    Window {
        mode: Mode::Subtitle,
        link: String::new(),
        status,
        busy: false,
        video: None,
        selected_page: 1,
        tracks: Vec::new(),
        selected_track: 0,
        streams: Vec::new(),
        selected_stream: 0,
        qr_code: None,
        qr_stage: None,
        logged_in,
    }
}

/// Whether some part of the video is numbered `page`.
pub open spec fn has_page(pages: Seq<PageInfo>, page: usize) -> bool {
    exists|i: int| 0 <= i < pages.len() && #[trigger] pages[i].page == page
}

/// The part selected once a video is loaded: the part asked for when the
/// video has it, else part 1.
pub fn page_after_load(pages: &Vec<PageInfo>, page: usize) -> (r: usize)
    ensures
        r == if has_page(pages@, page) {
            page
        } else {
            1
        },
{
    let mut i: usize = 0;
    while i < pages.len()
        invariant
            i <= pages@.len(),
            forall|j: int| 0 <= j < i ==> pages@[j].page != page,
        decreases pages.len() - i,
    {
        if pages[i].page == page {
            assert(pages@[i as int].page == page);
            return page;
        }
        i = i + 1;
    }
    1
}

/// `获取到 t 条字幕、s 个画质`.
pub open spec fn counts_text(tracks: nat, streams: nat) -> Seq<char> {
    "获取到 "@ + dec(tracks) + " 条字幕、"@ + dec(streams) + " 个画质"@
}

/// The status after a video is loaded: the missing streams first, then the
/// missing subtitles (which need a login when logged out), else the counts.
pub open spec fn video_loaded_text(tracks: nat, streams: nat, logged_in: bool) -> Seq<char> {
    if streams == 0 {
        "获取到视频信息，但没有可用画质"@
    } else if tracks == 0 {
        if logged_in {
            "没有可下载的字幕，但可以下载视频"@
        } else {
            "未登录：AI字幕需要登录；当前仍可下载视频"@
        }
    } else {
        counts_text(tracks, streams)
    }
}

/// The status after the tracks of another part are loaded.
pub open spec fn tracks_loaded_text(tracks: nat, streams: nat) -> Seq<char> {
    if streams == 0 {
        "该分P没有可用画质"@
    } else if tracks == 0 {
        "该分P没有可下载的字幕，但可以下载视频"@
    } else {
        counts_text(tracks, streams)
    }
}

/// A saved path, or the failure with its prefix.
pub open spec fn outcome_text(r: Result<String, String>, failed: Seq<char>) -> Seq<char> {
    match r {
        Ok(p) => "已保存: "@ + p@,
        Err(e) => failed + e@,
    }
}

/// The status after a transcription: the saved files joined with ` 和 `, or
/// the failure.
pub open spec fn transcribe_text(r: Result<Vec<String>, String>) -> Seq<char> {
    match r {
        Ok(ps) => "已保存: "@ + join(views(ps@), " 和 "@),
        Err(e) => "识别失败: "@ + e@,
    }
}

/// Whether the link holds something to fetch.
pub open spec fn fetch_ok(v: WindowView) -> bool {
    trim(v.link).len() > 0
}

/// The window after fetching the video of the link is asked for: a hint
/// when the link is blank; otherwise busy, with the lists emptied.
pub open spec fn fetch_view(v: WindowView) -> WindowView {
    if !fetch_ok(v) {
        WindowView { status: "请先粘贴链接"@, ..v }
    } else {
        WindowView {
            busy: true,
            tracks: Seq::empty(),
            streams: Seq::empty(),
            selected_track: 0,
            selected_stream: 0,
            status: "正在获取视频信息和画质列表..."@,
            ..v
        }
    }
}

/// The window after the work is started that fetches the video of the link
/// again, and whether it was started.
pub open spec fn fetch_started(v: WindowView, w: WindowView, started: bool) -> bool {
    started == fetch_ok(v) && w == fetch_view(v)
}

/// The window once a login is confirmed, before the video is fetched again.
pub open spec fn confirmed_view(v: WindowView) -> WindowView {
    let c = WindowView { busy: false, logged_in: true, qr_stage: None, qr_code: None, ..v };
    if v.video is Some {
        WindowView { status: "登录成功！正在重新获取字幕..."@, ..c }
    } else {
        WindowView { status: "登录成功！Cookie已保存，现在可以获取字幕了"@, ..c }
    }
}

/// Whether a message makes the window fetch the video again: a confirmed
/// login while a video is shown and the link is not blank.
pub open spec fn refetch(v: WindowView, m: WindowMsg) -> bool {
    m is QrConfirmed && v.video is Some && fetch_ok(confirmed_view(v))
}

/// The window after a message, the busy flag cleared first.
pub open spec fn step(v: WindowView, m: WindowMsg) -> WindowView {
    let u = WindowView { busy: false, ..v };
    match m {
        WindowMsg::VideoLoaded(video, page, tracks, streams) => WindowView {
            selected_page: if has_page(video.pages@, page) {
                page
            } else {
                1
            },
            video: Some(video),
            tracks: tracks@,
            selected_track: 0,
            streams: streams@,
            selected_stream: 0,
            status: video_loaded_text(tracks@.len(), streams@.len(), v.logged_in),
            ..u
        },
        WindowMsg::TracksLoaded(page, tracks, streams) => WindowView {
            selected_page: page,
            tracks: tracks@,
            selected_track: 0,
            streams: streams@,
            selected_stream: 0,
            status: tracks_loaded_text(tracks@.len(), streams@.len()),
            ..u
        },
        WindowMsg::VideoStage(s) => WindowView { status: s@, ..u },
        WindowMsg::Failed(s) => WindowView { status: s@, ..u },
        WindowMsg::Saved(r) => WindowView { status: outcome_text(r, "保存失败: "@), ..u },
        WindowMsg::VideoSaved(r) => WindowView { status: outcome_text(r, "下载失败: "@), ..u },
        WindowMsg::TranscribeSaved(r) => WindowView { status: transcribe_text(r), ..u },
        WindowMsg::QrReady(code) => WindowView {
            qr_code: Some(code),
            qr_stage: Some("请用B站App扫一扫"@),
            ..u
        },
        WindowMsg::QrStage(s) => WindowView { qr_stage: Some(s@), ..u },
        WindowMsg::QrConfirmed => if v.video is Some {
            fetch_view(confirmed_view(v))
        } else {
            confirmed_view(v)
        },
    }
}

/// The window after a message, and whether the video is to be fetched again.
pub open spec fn after_msg(v: WindowView, m: WindowMsg, w: WindowView, fetch: bool) -> bool {
    w == step(v, m) && fetch == refetch(v, m)
}

/// The window after a queue of messages, taken in order.
pub open spec fn after_msgs(v: WindowView, ms: Seq<WindowMsg>) -> WindowView
    decreases ms.len(),
{
    if ms.len() == 0 {
        v
    } else {
        step(after_msgs(v, ms.drop_last()), ms.last())
    }
}

/// Whether a message loads a video or the tracks of a part.
pub open spec fn is_load(m: WindowMsg) -> bool {
    m is VideoLoaded || m is TracksLoaded
}

/// `正在获取第 page 个分P的信息...`.
pub open spec fn part_fetch_text(page: nat) -> Seq<char> {
    "正在获取第 "@ + dec(page) + " 个分P的信息..."@
}

/// Whether the message at `i` of a queue, taken in order from `v`, asks for
/// the video to be fetched again.
pub open spec fn refetch_at(v: WindowView, ms: Seq<WindowMsg>, i: int) -> bool {
    refetch(after_msgs(v, ms.take(i)), ms[i])
}

fn text(s: &str) -> (r: String)
    ensures
        r@ == s@,
{
    let mut r = String::new();
    push_str(&mut r, s);
    r
}

fn counts_string(tracks: usize, streams: usize) -> (r: String)
    ensures
        r@ == counts_text(tracks as nat, streams as nat),
{
    let mut r = String::new();
    push_str(&mut r, "获取到 ");
    push_dec(&mut r, tracks as u64);
    push_str(&mut r, " 条字幕、");
    push_dec(&mut r, streams as u64);
    push_str(&mut r, " 个画质");
    r
}

fn outcome_string(r: Result<String, String>, failed: &str) -> (s: String)
    ensures
        s@ == outcome_text(r, failed@),
{
    let mut s = String::new();
    match r {
        Ok(p) => {
            push_str(&mut s, "已保存: ");
            push_str(&mut s, p.as_str());
        },
        Err(e) => {
            push_str(&mut s, failed);
            push_str(&mut s, e.as_str());
        },
    }
    s
}

/// The parts joined with `sep` between consecutive ones.
pub fn join_strings(parts: &Vec<String>, sep: &str) -> (r: String)
    ensures
        r@ == join(views(parts@), sep@),
{
    let mut out = String::new();
    let mut i: usize = 0;
    while i < parts.len()
        invariant
            i <= parts@.len(),
            out@ == join(views(parts@).take(i as int), sep@),
        decreases parts.len() - i,
    {
        if i > 0 {
            push_str(&mut out, sep);
        }
        push_str(&mut out, parts[i].as_str());
        proof {
            let p = views(parts@);
            assert(p.take(i + 1).drop_last() == p.take(i as int));
            assert(p.take(i + 1).last() == parts@[i as int]@);
            if i == 0 {
                assert(p.take(1).len() == 1);
            }
        }
        i = i + 1;
    }
    assert(views(parts@).take(parts@.len() as int) == views(parts@));
    out
}

impl Window {
    /// Starts fetching the video of the link: refused with a hint when the
    /// link is blank; otherwise the window is busy and its lists emptied.
    pub fn start_fetch_video(&mut self) -> (started: bool)
        ensures
            fetch_started(old(self)@, final(self)@, started),
    {
        let t = trim_str(self.link.as_str());
        if t.as_str().is_empty() {
            self.status = text("请先粘贴链接");
            return false;
        }
        self.busy = true;
        self.tracks = Vec::new();
        self.streams = Vec::new();
        self.selected_track = 0;
        self.selected_stream = 0;
        self.status = text("正在获取视频信息和画质列表...");
        true
    }

    /// Starts fetching the tracks and streams of the part numbered `page`:
    /// nothing happens when no video is shown; otherwise the window is busy
    /// and its lists emptied.
    pub fn start_fetch_tracks(&mut self, page: usize) -> (started: bool)
        ensures
            started == old(self)@.video is Some,
            final(self)@ == (if started {
                WindowView {
                    busy: true,
                    status: part_fetch_text(page as nat),
                    tracks: Seq::empty(),
                    streams: Seq::empty(),
                    selected_track: 0,
                    selected_stream: 0,
                    ..old(self)@
                }
            } else {
                old(self)@
            }),
    {
        if self.video.is_none() {
            return false;
        }
        let mut st = text("正在获取第 ");
        push_dec(&mut st, page as u64);
        push_str(&mut st, " 个分P的信息...");
        self.busy = true;
        self.status = st;
        self.tracks = Vec::new();
        self.streams = Vec::new();
        self.selected_track = 0;
        self.selected_stream = 0;
        true
    }

    /// Starts downloading the selected subtitle track: nothing happens when
    /// no video is shown or the selection is past the end of the tracks;
    /// otherwise the window is busy and names the track's language.
    pub fn start_download(&mut self) -> (started: bool)
        ensures
            started == (old(self)@.video is Some && old(self)@.selected_track
                < old(self)@.tracks.len()),
            final(self)@ == (if started {
                WindowView {
                    busy: true,
                    status: "正在下载 "@ + old(self)@.tracks[old(self)@.selected_track as int].lan_doc@
                        + " 字幕..."@,
                    ..old(self)@
                }
            } else {
                old(self)@
            }),
    {
        if self.video.is_none() || self.selected_track >= self.tracks.len() {
            return false;
        }
        let mut st = text("正在下载 ");
        push_str(&mut st, self.tracks[self.selected_track].lan_doc.as_str());
        push_str(&mut st, " 字幕...");
        self.busy = true;
        self.status = st;
        true
    }

    /// Starts downloading the selected stream: nothing happens when no video
    /// is shown or the selection is past the end of the streams; otherwise the
    /// window is busy downloading the picture.
    pub fn start_download_video(&mut self) -> (started: bool)
        ensures
            started == (old(self)@.video is Some && old(self)@.selected_stream
                < old(self)@.streams.len()),
            final(self)@ == (if started {
                WindowView { busy: true, status: "正在下载视频画面..."@, ..old(self)@ }
            } else {
                old(self)@
            }),
    {
        if self.video.is_none() || self.selected_stream >= self.streams.len() {
            return false;
        }
        self.busy = true;
        self.status = text("正在下载视频画面...");
        true
    }

    /// Starts a transcription: a hint when no media file is chosen, or when
    /// no model is chosen or found; otherwise the window is busy.
    pub fn start_transcribe(&mut self, has_media: bool, has_model: bool) -> (started: bool)
        ensures
            started == (has_media && has_model),
            final(self)@ == (if !has_media {
                WindowView { status: "请先选择音频或视频文件"@, ..old(self)@ }
            } else if !has_model {
                WindowView { status: "未找到 Whisper 模型，请先选择模型文件"@, ..old(self)@ }
            } else {
                WindowView { busy: true, status: "正在转换音频并识别文字..."@, ..old(self)@ }
            }),
    {
        if !has_media {
            self.status = text("请先选择音频或视频文件");
            return false;
        }
        if !has_model {
            self.status = text("未找到 Whisper 模型，请先选择模型文件");
            return false;
        }
        self.busy = true;
        self.status = text("正在转换音频并识别文字...");
        true
    }

    /// Starts a QR-code login: the window is busy making the code.
    pub fn start_qr_login(&mut self)
        ensures
            final(self)@ == (WindowView {
                busy: true,
                status: "正在生成登录二维码..."@,
                ..old(self)@
            }),
    {
        self.busy = true;
        self.status = text("正在生成登录二维码...");
    }

    /// Takes in, in order, the results of background work that have arrived;
    /// `true` when one of them asks for the video to be fetched again.
    pub fn poll_messages(&mut self, msgs: Vec<WindowMsg>) -> (any_fetch: bool)
        ensures
            final(self)@ == after_msgs(old(self)@, msgs@),
            any_fetch == (exists|i: int|
                0 <= i < msgs@.len() && #[trigger] refetch_at(old(self)@, msgs@, i)),
    {
        let ghost v0 = self@;
        let ghost all = msgs@;
        let n = msgs.len();
        let mut rest = msgs;
        let mut any_fetch = false;
        let mut k: usize = 0;
        while rest.len() > 0
            invariant
                k <= all.len(),
                all.len() == n,
                rest@ == all.skip(k as int),
                self@ == after_msgs(v0, all.take(k as int)),
                any_fetch == exists|i: int| 0 <= i < k && #[trigger] refetch_at(v0, all, i),
            decreases rest.len(),
        {
            let m = rest.remove(0);
            proof {
                assert(all.take(k + 1).drop_last() == all.take(k as int));
                assert(all.take(k + 1).last() == all[k as int]);
                assert(m == all[k as int]);
            }
            let f = self.on_message(m);
            proof {
                assert(f == refetch_at(v0, all, k as int));
                assert(rest@ == all.skip(k + 1));
            }
            any_fetch = any_fetch || f;
            k = k + 1;
            proof {
                if any_fetch {
                    if f {
                        assert(refetch_at(v0, all, k - 1));
                    }
                }
            }
        }
        assert(all.take(k as int) == all);
        any_fetch
    }

    /// Takes in the result of a piece of background work; `true` when the
    /// video is to be fetched again.
    pub fn on_message(&mut self, msg: WindowMsg) -> (fetch: bool)
        ensures
            after_msg(old(self)@, msg, final(self)@, fetch),
    {
        self.busy = false;
        match msg {
            WindowMsg::VideoLoaded(video, page, tracks, streams) => {
                self.selected_page = page_after_load(&video.pages, page);
                self.video = Some(video);
                self.status = if streams.len() == 0 {
                    text("获取到视频信息，但没有可用画质")
                } else if tracks.len() == 0 {
                    if self.logged_in {
                        text("没有可下载的字幕，但可以下载视频")
                    } else {
                        text("未登录：AI字幕需要登录；当前仍可下载视频")
                    }
                } else {
                    counts_string(tracks.len(), streams.len())
                };
                self.tracks = tracks;
                self.selected_track = 0;
                self.streams = streams;
                self.selected_stream = 0;
                false
            },
            WindowMsg::TracksLoaded(page, tracks, streams) => {
                self.selected_page = page;
                self.status = if streams.len() == 0 {
                    text("该分P没有可用画质")
                } else if tracks.len() == 0 {
                    text("该分P没有可下载的字幕，但可以下载视频")
                } else {
                    counts_string(tracks.len(), streams.len())
                };
                self.tracks = tracks;
                self.selected_track = 0;
                self.streams = streams;
                self.selected_stream = 0;
                false
            },
            WindowMsg::VideoStage(s) => {
                self.status = s;
                false
            },
            WindowMsg::Failed(s) => {
                self.status = s;
                false
            },
            WindowMsg::Saved(r) => {
                self.status = outcome_string(r, "保存失败: ");
                false
            },
            WindowMsg::VideoSaved(r) => {
                self.status = outcome_string(r, "下载失败: ");
                false
            },
            WindowMsg::TranscribeSaved(r) => {
                self.status = match r {
                    Ok(paths) => {
                        let mut s = text("已保存: ");
                        let j = join_strings(&paths, " 和 ");
                        push_str(&mut s, j.as_str());
                        s
                    },
                    Err(e) => {
                        let mut s = text("识别失败: ");
                        push_str(&mut s, e.as_str());
                        s
                    },
                };
                false
            },
            WindowMsg::QrReady(code) => {
                self.qr_code = Some(code);
                self.qr_stage = Some(text("请用B站App扫一扫"));
                false
            },
            WindowMsg::QrStage(s) => {
                self.qr_stage = Some(s);
                false
            },
            WindowMsg::QrConfirmed => {
                self.logged_in = true;
                self.qr_stage = None;
                self.qr_code = None;
                if self.video.is_some() {
                    self.status = text("登录成功！正在重新获取字幕...");
                    self.start_fetch_video()
                } else {
                    self.status = text("登录成功！Cookie已保存，现在可以获取字幕了");
                    false
                }
            },
        }
    }
}

/// After any message the window is busy exactly when the video is being
/// fetched again.
pub proof fn busy_iff_refetch(v: WindowView, m: WindowMsg, w: WindowView, fetch: bool)
    requires
        after_msg(v, m, w, fetch),
    ensures
        w.busy <==> fetch,
{
}

/// A confirmed login leaves the window logged in with the login code put
/// away, and fetches the video again only when one is shown.
pub proof fn confirmed_login(v: WindowView, w: WindowView, fetch: bool)
    requires
        after_msg(v, WindowMsg::QrConfirmed, w, fetch),
    ensures
        w.logged_in,
        w.qr_code is None,
        w.qr_stage is None,
        fetch ==> v.video is Some,
{
}

proof fn lemma_queue(v: WindowView, ms: Seq<WindowMsg>)
    requires
        forall|i: int| 0 <= i < ms.len() ==> !(#[trigger] ms[i] is QrConfirmed),
    ensures
        ms.len() >= 1 ==> !after_msgs(v, ms).busy,
        (exists|i: int| 0 <= i < ms.len() && is_load(#[trigger] ms[i])) ==> after_msgs(
            v,
            ms,
        ).selected_track == 0 && after_msgs(v, ms).selected_stream == 0,
        (forall|i: int| 0 <= i < ms.len() ==> !is_load(#[trigger] ms[i])) ==> {
            let w = after_msgs(v, ms);
            &&& w.video == v.video
            &&& w.selected_page == v.selected_page
            &&& w.tracks == v.tracks
            &&& w.streams == v.streams
            &&& w.selected_track == v.selected_track
            &&& w.selected_stream == v.selected_stream
        },
    decreases ms.len(),
{
    if ms.len() > 0 {
        let p = ms.drop_last();
        assert forall|i: int| 0 <= i < p.len() implies !(#[trigger] p[i] is QrConfirmed) by {
            assert(p[i] == ms[i]);
        }
        lemma_queue(v, p);
        assert(!(ms[ms.len() - 1] is QrConfirmed));
        if exists|i: int| 0 <= i < ms.len() && is_load(#[trigger] ms[i]) {
            let i = choose|i: int| 0 <= i < ms.len() && is_load(#[trigger] ms[i]);
            if i < ms.len() - 1 {
                assert(p[i] == ms[i]);
                assert(is_load(p[i]));
            }
        }
        if forall|i: int| 0 <= i < ms.len() ==> !is_load(#[trigger] ms[i]) {
            assert forall|i: int| 0 <= i < p.len() implies !is_load(#[trigger] p[i]) by {
                assert(p[i] == ms[i]);
            }
            assert(!is_load(ms[ms.len() - 1]));
        }
    }
}

/// After a queue of one message or more, none of them a confirmed login, the
/// window is not busy; when the queue loads a video or a part, both
/// selections are back at the first entry; when it loads nothing, the video,
/// the selected part, the lists and the selections are as they were.
pub proof fn queue_settles(v: WindowView, ms: Seq<WindowMsg>)
    requires
        ms.len() >= 1,
        forall|i: int| 0 <= i < ms.len() ==> !(#[trigger] ms[i] is QrConfirmed),
    ensures
        !after_msgs(v, ms).busy,
        (exists|i: int| 0 <= i < ms.len() && is_load(#[trigger] ms[i])) ==> after_msgs(
            v,
            ms,
        ).selected_track == 0 && after_msgs(v, ms).selected_stream == 0,
        (forall|i: int| 0 <= i < ms.len() ==> !is_load(#[trigger] ms[i])) ==> {
            let w = after_msgs(v, ms);
            &&& w.video == v.video
            &&& w.selected_page == v.selected_page
            &&& w.tracks == v.tracks
            &&& w.streams == v.streams
            &&& w.selected_track == v.selected_track
            &&& w.selected_stream == v.selected_stream
        },
{
    lemma_queue(v, ms);
}

/// How the status line is coloured: as a problem, as a success, or plainly.
#[derive(Clone, Copy, PartialEq, Eq, Structural, Debug)]
pub enum StatusTone {
    Problem,
    Success,
    Plain,
}

/// The tone of a status line: a failure, error, expiry, something missing or
/// a missing login is a problem; a save, a success or something obtained is a
/// success; anything else is plain.
pub open spec fn tone_of(s: Seq<char>) -> StatusTone {
    if contains(s, "失败"@) || contains(s, "错误"@) || contains(s, "过期"@) || contains(s, "没有"@)
        || contains(s, "未登录"@) {
        StatusTone::Problem
    } else if contains(s, "已保存"@) || contains(s, "成功"@) || contains(s, "获取到"@) {
        StatusTone::Success
    } else {
        StatusTone::Plain
    }
}

fn has(s: &Vec<char>, needle: &str) -> (r: bool)
    ensures
        r == contains(s@, needle@),
{
    let n = crate::text::chars_of(needle);
    match crate::text::find(s, &n) {
        Some(i) => {
            assert(crate::text::occurs_at(s@, n@, i as int));
            true
        },
        None => false,
    }
}

/// The tone of a status line.
pub fn status_tone(status: &str) -> (r: StatusTone)
    ensures
        r == tone_of(status@),
{
    let s = crate::text::chars_of(status);
    if has(&s, "失败") || has(&s, "错误") || has(&s, "过期") || has(&s, "没有") || has(&s, "未登录") {
        StatusTone::Problem
    } else if has(&s, "已保存") || has(&s, "成功") || has(&s, "获取到") {
        StatusTone::Success
    } else {
        StatusTone::Plain
    }
}

} // verus!
