use bili_subtitle_downloader::cli::{parse_cli_args, subtitle_file_name};
use bili_subtitle_downloader::external::{is_supported, saved_file_line, video_from_probe};
use bili_subtitle_downloader::qr::{login_step, poll_again, qr_image, LoginAction, LoginEvent};
use bili_subtitle_downloader::bili::QrPoll;
use bili_subtitle_downloader::transcribe::transcript_names;
use bili_subtitle_downloader::wbi::{mixin_key_of, to_hex_lower, wbi_signed_query};
use bili_subtitle_downloader::webtext::clipboard_note;
use bili_subtitle_downloader::video::{choose_stream, needs_ffmpeg, video_file_names, VideoStream};
use bili_subtitle_downloader::error::BiliError;

fn stream(q: u64, audio: bool) -> VideoStream {
    VideoStream {
        label: format!("q{q}"),
        quality_id: q,
        video_url: "v".into(),
        audio_url: if audio { Some("a".into()) } else { None },
    }
}

#[test]
fn stream_choice() {
    let ss = vec![stream(120, true), stream(80, true), stream(80, false)];
    assert_eq!(choose_stream(&ss, None).unwrap(), 0);
    assert_eq!(choose_stream(&ss, Some(80)).unwrap(), 1);
    assert!(matches!(choose_stream(&ss, Some(16)), Err(BiliError::NoQuality { q: 16 })));
    assert!(matches!(choose_stream(&vec![], None), Err(BiliError::NoStreams)));
    assert!(matches!(choose_stream(&vec![], Some(80)), Err(BiliError::NoStreams)));
    assert!(needs_ffmpeg(&ss[0]));
    assert!(!needs_ffmpeg(&ss[2]));
}

#[test]
fn video_names() {
    let (n, v, a) = video_file_names("a/b", 1, 80);
    assert_eq!(n, "a_b_80.mp4");
    assert_eq!(v, "a_b_80.mp4.video.tmp");
    assert_eq!(a, "a_b_80.mp4.audio.tmp");
    assert_eq!(video_file_names("t", 2, 120).0, "t_P2_120.mp4");
}

#[test]
fn cli_options() {
    let o = parse_cli_args("  --srt BV1xx411c7mD ");
    assert!(o.want_srt && !o.debug && !o.streams_only && !o.video_mode);
    assert_eq!(o.input, "BV1xx411c7mD");
    let o = parse_cli_args("--debug  --srt   link");
    assert!(o.debug && o.want_srt);
    assert_eq!(o.input, "link");
    let o = parse_cli_args("--video link 80 extra");
    assert!(o.video_mode);
    assert_eq!(o.input, "link");
    assert_eq!(o.video_qn, Some(80));
    let o = parse_cli_args("--video link +64");
    assert_eq!(o.video_qn, Some(64));
    let o = parse_cli_args("--video link high");
    assert_eq!(o.video_qn, None);
    let o = parse_cli_args("--streams x");
    assert!(o.streams_only);
    assert_eq!(o.input, "x");
}

#[test]
fn subtitle_names() {
    assert_eq!(subtitle_file_name("a/b", 1, "zh", false), "a_b_zh.txt");
    assert_eq!(subtitle_file_name("t", 3, "en", true), "t_P3_en.srt");
}

#[test]
fn supported_sites() {
    assert!(is_supported("https://v.DOUYIN.com/abc"));
    assert!(is_supported("http://xhslink.com/x"));
    assert!(!is_supported("https://www.bilibili.com/"));
}

#[test]
fn downloader_output() {
    let v = video_from_probe("{\"title\":\"T\"}", "u").unwrap();
    assert_eq!(v.title, "T");
    assert_eq!(v.url, "u");
    assert_eq!(video_from_probe("{}", "u").unwrap().title, "未命名视频");
    assert!(video_from_probe("not json", "u").is_none());
    assert_eq!(saved_file_line("/tmp/a.mp4  \n"), Some("/tmp/a.mp4".to_string()));
    assert_eq!(saved_file_line("[download] 10%"), None);
}

#[test]
fn login_loop() {
    assert_eq!(login_step(LoginEvent::Polled(QrPoll::Waiting)), LoginAction::WaitForScan);
    assert_eq!(login_step(LoginEvent::Polled(QrPoll::Scanned)), LoginAction::WaitForConfirm);
    assert_eq!(login_step(LoginEvent::Polled(QrPoll::Confirmed)), LoginAction::Done);
    assert_eq!(login_step(LoginEvent::Polled(QrPoll::Expired)), LoginAction::Expired);
    assert_eq!(login_step(LoginEvent::PollFailed), LoginAction::Failed);
    assert!(poll_again(1));
    assert!(poll_again(59));
    assert!(!poll_again(60));
}

#[test]
fn qr_pictures() {
    let img = qr_image("https://passport.bilibili.com/h5-app/passport/login/scan?qrcode_key=abc").unwrap();
    assert!(img.width >= 21);
    assert_eq!(img.dark.len(), img.width * img.width);
    assert!(img.dark.iter().any(|d| *d) && img.dark.iter().any(|d| !*d));
}

#[test]
fn transcript_file_names() {
    let n = transcript_names(Some("a:b".to_string()));
    assert_eq!(n.base, "a_b_转写");
    assert_eq!(n.wav, "a_b_转写.tmp.wav");
    assert_eq!(n.txt, "a_b_转写.txt");
    assert_eq!(n.srt, "a_b_转写.srt");
    assert_eq!(transcript_names(None).base, "transcript_转写");
    let dotted = transcript_names(Some("talk.v2".to_string()));
    assert_eq!(dotted.txt, "talk.v2_转写.txt");
}

#[test]
fn wbi_signing() {
    assert_eq!(to_hex_lower(&[0x00, 0xab, 0x10]), "00ab10");
    let img = "7cd084941338484aae1ad9425b84077c";
    let sub = "4932caff0ff746eab6f01bf08b70ac45";
    assert_eq!(mixin_key_of(img, sub), "ea1db124af3c7062474693fa704f4ff8");
    let q = wbi_signed_query(170001, 279786, "BV17x411w7KC", img, sub, 1702204169);
    assert!(q.starts_with("aid=170001&bvid=BV17x411w7KC&cid=279786&wts=1702204169&w_rid="));
    let tag = &q[q.len() - 32..];
    assert!(tag.chars().all(|c| c.is_ascii_hexdigit() && !c.is_ascii_uppercase()));
    let expect = format!(
        "{:x}",
        md5::compute(format!("aid=170001&bvid=BV17x411w7KC&cid=279786&wts=1702204169{}", mixin_key_of(img, sub)))
    );
    assert_eq!(tag, expect);
    let neg = wbi_signed_query(-5, 0, "b", img, sub, 0);
    assert!(neg.starts_with("aid=-5&bvid=b&cid=0&wts=0&w_rid="));
}

#[test]
fn clipboard_notes() {
    let n = clipboard_note("\n  标题: 一\n正文\n ").unwrap();
    assert_eq!(n.content, "标题: 一\n正文");
    assert_eq!(n.file_name, "标题_ 一.txt");
    assert!(clipboard_note(" \n\t").is_err());
}
