use bili_subtitle_downloader::bili::{PageInfo, SubTrack, VideoInfo};
use bili_subtitle_downloader::qr::QrImage;
use bili_subtitle_downloader::video::VideoStream;
use bili_subtitle_downloader::window::{
    join_strings, new_window, page_after_load, status_tone, Mode, StatusTone, WindowMsg,
};

fn page(n: usize) -> PageInfo {
    PageInfo { page: n, part: format!("p{n}"), cid: n as i64 }
}

fn video(pages: Vec<PageInfo>) -> VideoInfo {
    VideoInfo { aid: 1, bvid: "b".into(), title: "t".into(), pages }
}

fn track() -> SubTrack {
    SubTrack { lan: "zh".into(), lan_doc: "中文".into(), url: "u".into() }
}

fn stream(q: u64) -> VideoStream {
    VideoStream { label: format!("q{q}"), quality_id: q, video_url: "v".into(), audio_url: None }
}

#[test]
fn part_selected_after_load() {
    let pages = vec![page(1), page(2), page(3)];
    assert_eq!(page_after_load(&pages, 2), 2);
    assert_eq!(page_after_load(&pages, 9), 1);
    assert_eq!(page_after_load(&vec![], 4), 1);
}

#[test]
fn new_window_state() {
    let w = new_window(false);
    assert_eq!(w.mode, Mode::Subtitle);
    assert_eq!(w.status, "粘贴B站视频链接，然后点「获取」");
    assert_eq!(w.selected_page, 1);
    assert!(!w.busy && !w.logged_in);
}

#[test]
fn fetch_needs_a_link() {
    let mut w = new_window(false);
    w.link = "  ".into();
    assert!(!w.start_fetch_video());
    assert_eq!(w.status, "请先粘贴链接");
    assert!(!w.busy);
    w.link = "BV1xx411c7mD".into();
    w.tracks = vec![track()];
    assert!(w.start_fetch_video());
    assert!(w.busy && w.tracks.is_empty());
    assert_eq!(w.status, "正在获取视频信息和画质列表...");
}

#[test]
fn loading_a_video() {
    let mut w = new_window(false);
    w.busy = true;
    assert!(!w.on_message(WindowMsg::VideoLoaded(video(vec![page(1), page(2)]), 2, vec![track()], vec![])));
    assert!(!w.busy);
    assert_eq!(w.selected_page, 2);
    assert_eq!(w.status, "获取到视频信息，但没有可用画质");
    w.on_message(WindowMsg::VideoLoaded(video(vec![page(1)]), 5, vec![], vec![stream(80)]));
    assert_eq!(w.selected_page, 1);
    assert_eq!(w.status, "未登录：AI字幕需要登录；当前仍可下载视频");
    w.logged_in = true;
    w.on_message(WindowMsg::VideoLoaded(video(vec![page(1)]), 1, vec![], vec![stream(80)]));
    assert_eq!(w.status, "没有可下载的字幕，但可以下载视频");
    w.on_message(WindowMsg::VideoLoaded(video(vec![page(1)]), 1, vec![track(), track()], vec![stream(80)]));
    assert_eq!(w.status, "获取到 2 条字幕、1 个画质");
}

#[test]
fn loading_another_part() {
    let mut w = new_window(true);
    w.on_message(WindowMsg::TracksLoaded(3, vec![], vec![]));
    assert_eq!(w.selected_page, 3);
    assert_eq!(w.status, "该分P没有可用画质");
    w.on_message(WindowMsg::TracksLoaded(3, vec![], vec![stream(64)]));
    assert_eq!(w.status, "该分P没有可下载的字幕，但可以下载视频");
    w.on_message(WindowMsg::TracksLoaded(3, vec![track()], vec![stream(64)]));
    assert_eq!(w.status, "获取到 1 条字幕、1 个画质");
}

#[test]
fn results_of_work() {
    let mut w = new_window(false);
    w.on_message(WindowMsg::Saved(Ok("a.txt".into())));
    assert_eq!(w.status, "已保存: a.txt");
    w.on_message(WindowMsg::Saved(Err("磁盘已满".into())));
    assert_eq!(w.status, "保存失败: 磁盘已满");
    w.on_message(WindowMsg::VideoSaved(Err("x".into())));
    assert_eq!(w.status, "下载失败: x");
    w.on_message(WindowMsg::TranscribeSaved(Ok(vec!["a.txt".into(), "a.srt".into()])));
    assert_eq!(w.status, "已保存: a.txt 和 a.srt");
    w.on_message(WindowMsg::TranscribeSaved(Err("y".into())));
    assert_eq!(w.status, "识别失败: y");
    w.on_message(WindowMsg::VideoStage("正在下载音频...".into()));
    assert_eq!(w.status, "正在下载音频...");
    w.on_message(WindowMsg::Failed("z".into()));
    assert_eq!(w.status, "z");
}

#[test]
fn login_messages() {
    let mut w = new_window(false);
    w.busy = true;
    w.on_message(WindowMsg::QrReady(QrImage { width: 1, dark: vec![true] }));
    assert!(!w.busy && w.qr_code.is_some());
    assert_eq!(w.qr_stage.as_deref(), Some("请用B站App扫一扫"));
    w.on_message(WindowMsg::QrStage("等待扫码...".into()));
    assert_eq!(w.qr_stage.as_deref(), Some("等待扫码..."));
    assert!(!w.on_message(WindowMsg::QrConfirmed));
    assert!(w.logged_in && w.qr_code.is_none() && w.qr_stage.is_none());
    assert_eq!(w.status, "登录成功！Cookie已保存，现在可以获取字幕了");

    let mut w = new_window(false);
    w.video = Some(video(vec![page(1)]));
    w.link = "BV1xx411c7mD".into();
    assert!(w.on_message(WindowMsg::QrConfirmed));
    assert!(w.busy && w.logged_in);
    assert_eq!(w.status, "正在获取视频信息和画质列表...");
}

#[test]
fn status_tones() {
    assert_eq!(status_tone("保存失败: x"), StatusTone::Problem);
    assert_eq!(status_tone("未登录：AI字幕需要登录"), StatusTone::Problem);
    assert_eq!(status_tone("已保存: a"), StatusTone::Success);
    assert_eq!(status_tone("获取到 1 条字幕、1 个画质"), StatusTone::Success);
    assert_eq!(status_tone("正在下载..."), StatusTone::Plain);
    assert_eq!(join_strings(&vec![], ","), "");
}

#[test]
fn starting_work() {
    let mut w = new_window(false);
    assert!(!w.start_fetch_tracks(2));
    assert!(!w.busy);
    w.video = Some(video(vec![page(1), page(2)]));
    w.tracks = vec![track()];
    w.selected_track = 0;
    assert!(w.start_download());
    assert_eq!(w.status, "正在下载 中文 字幕...");
    w.busy = false;
    w.selected_track = 3;
    assert!(!w.start_download());
    assert!(!w.busy);
    assert!(!w.start_download_video());
    w.streams = vec![stream(80)];
    assert!(w.start_download_video());
    assert_eq!(w.status, "正在下载视频画面...");
    assert!(w.start_fetch_tracks(2));
    assert_eq!(w.status, "正在获取第 2 个分P的信息...");
    assert!(w.tracks.is_empty() && w.streams.is_empty() && w.selected_track == 0);

    let mut w = new_window(false);
    assert!(!w.start_transcribe(false, true));
    assert_eq!(w.status, "请先选择音频或视频文件");
    assert!(!w.start_transcribe(true, false));
    assert_eq!(w.status, "未找到 Whisper 模型，请先选择模型文件");
    assert!(w.start_transcribe(true, true));
    assert!(w.busy);
    assert_eq!(w.status, "正在转换音频并识别文字...");
    w.start_qr_login();
    assert_eq!(w.status, "正在生成登录二维码...");
}

#[test]
fn message_queue_settles() {
    let mut w = new_window(false);
    w.busy = true;
    w.selected_track = 4;
    w.selected_stream = 2;
    let fetch = w.poll_messages(vec![
        WindowMsg::VideoStage("a".into()),
        WindowMsg::TracksLoaded(2, vec![track()], vec![stream(80)]),
        WindowMsg::Failed("b".into()),
    ]);
    assert!(!fetch);
    assert!(!w.busy);
    assert_eq!(w.selected_track, 0);
    assert_eq!(w.selected_stream, 0);
    assert_eq!(w.selected_page, 2);
    assert_eq!(w.status, "b");

    let mut w = new_window(false);
    w.video = Some(video(vec![page(1)]));
    w.link = "BV1xx411c7mD".into();
    assert!(w.poll_messages(vec![WindowMsg::QrStage("x".into()), WindowMsg::QrConfirmed]));
    assert!(w.busy && w.logged_in);
}
