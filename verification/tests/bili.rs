use bili_subtitle_downloader::bili::{
    check_json_reply, check_redirect, classify_input, debug_cid, debug_reply_text, qr_login_from_reply,
    qr_poll_api, qr_poll_state, read_qr_poll, read_qr_reply, read_subtitle_contents,
    read_video_reply, read_wbi_reply, select_cid, subtitle_contents_from, subtitle_tracks,
    tracks_api, tracks_from_reply, video_info, video_info_from_reply, video_query, wbi_keys_from_reply,
    InputKind, PageInfo, QrPoll, QrReply, RawPage, RawTrack, TrackReply, VideoInfo, VideoReply,
    WbiReply,
};
use bili_subtitle_downloader::error::BiliError;
use bili_subtitle_downloader::ids::{extract_aid, extract_bvid, extract_page, file_key};

#[test]
fn bvid_from_links() {
    assert_eq!(
        extract_bvid("https://www.bilibili.com/video/BV1xx411c7mD?p=2"),
        Some("1xx411c7mD".to_string())
    );
    assert_eq!(extract_bvid("bv1xx411c7mD"), Some("1xx411c7mD".to_string()));
    assert_eq!(extract_bvid("BV1xx"), None);
    assert_eq!(extract_bvid("bvbv1234567890"), Some("bv12345678".to_string()));
    assert_eq!(extract_bvid("/obv-x/BV1234567890"), Some("1234567890".to_string()));
}

#[test]
fn aid_from_links() {
    assert_eq!(extract_aid("av170001"), Some(170001));
    assert_eq!(extract_aid("https://www.bilibili.com/video/AV123/"), Some(123));
    assert_eq!(extract_aid("https://example.com/java12"), None);
    assert_eq!(extract_aid("avx av42"), Some(42));
    assert_eq!(extract_aid("av99999999999999999999"), None);
    assert_eq!(extract_aid("no id here"), None);
}

#[test]
fn page_from_links() {
    assert_eq!(extract_page("https://b.com/video/BV1?p=3"), Some(3));
    assert_eq!(extract_page("https://b.com/video/BV1?x=1&P=12"), Some(12));
    assert_eq!(extract_page("https://b.com/video/BV1?p=x&p=4"), Some(4));
    assert_eq!(extract_page("https://b.com/video/BV1"), None);
}

#[test]
fn wbi_file_keys() {
    assert_eq!(
        file_key("https://i0.hdslb.com/bfs/wbi/7cd084941338484aae1ad9425b84077c.png").unwrap(),
        "7cd084941338484aae1ad9425b84077c"
    );
    assert_eq!(file_key("abc.def.png").unwrap(), "abc");
    assert!(matches!(file_key("https://x/"), Err(BiliError::WbiKey { .. })));
    assert!(matches!(file_key("https://x/.png"), Err(BiliError::WbiKey { .. })));
}

#[test]
fn input_classification() {
    assert!(matches!(classify_input("   "), Err(BiliError::EmptyInput)));
    match classify_input("  BV1xx411c7mD ").unwrap() {
        InputKind::Direct(s) => assert_eq!(s, "BV1xx411c7mD"),
        _ => panic!("bare id needs no redirect"),
    }
    match classify_input("https://b23.tv/abcdef").unwrap() {
        InputKind::Redirect(s) => assert_eq!(s, "https://b23.tv/abcdef"),
        _ => panic!("short link must be followed"),
    }
    match classify_input("HTTPS://www.bilibili.com/festival/x").unwrap() {
        InputKind::Redirect(_) => {}
        _ => panic!("a link without an id must be followed"),
    }
    match classify_input("https://www.bilibili.com/video/BV1xx411c7mD").unwrap() {
        InputKind::Direct(_) => {}
        _ => panic!("a link with an id needs no redirect"),
    }
}

#[test]
fn redirect_target_must_name_a_video() {
    assert!(check_redirect("https://www.bilibili.com/video/BV1xx411c7mD".to_string()).is_ok());
    assert!(matches!(
        check_redirect("https://www.bilibili.com/".to_string()),
        Err(BiliError::NoVideoId { .. })
    ));
}

#[test]
fn video_queries() {
    let q = video_query("https://www.bilibili.com/video/BV1xx411c7mD?p=2").unwrap();
    assert_eq!(q.api, "https://api.bilibili.com/x/web-interface/view?bvid=1xx411c7mD");
    assert_eq!(q.page, 2);
    assert_eq!(q.bvid.as_deref(), Some("1xx411c7mD"));
    let q = video_query("av170001").unwrap();
    assert_eq!(q.api, "https://api.bilibili.com/x/web-interface/view?aid=170001");
    assert_eq!(q.page, 1);
    assert!(q.bvid.is_none());
    assert!(matches!(video_query("hello"), Err(BiliError::NoVideoRef)));
}

#[test]
fn json_reply_checks() {
    assert!(check_json_reply("u", 200, "{}").is_ok());
    assert!(matches!(check_json_reply("u", 412, "{}"), Err(BiliError::Http { status: 412 })));
    assert!(matches!(check_json_reply("u", 200, "<html>"), Err(BiliError::NotJson { .. })));
}

const VIEW: &str = r#"{"code":0,"message":"0","data":{"aid":170001,"bvid":"BV17x411w7KC","title":"T","pages":[{"page":1,"part":"P1","cid":279786},{"page":2,"cid":5}]}}"#;

#[test]
fn video_from_reply_text() {
    let v = video_info(VIEW, None).unwrap();
    assert_eq!(v.aid, 170001);
    assert_eq!(v.bvid, "BV17x411w7KC");
    assert_eq!(v.title, "T");
    assert_eq!(v.pages.len(), 2);
    assert_eq!(v.pages[0].part, "P1");
    assert_eq!(v.pages[0].cid, 279786);
    assert_eq!(v.pages[1].page, 2);
    assert_eq!(v.pages[1].part, "");
    let r = read_video_reply(VIEW);
    assert_eq!(r.code, Some(0));
    assert_eq!(r.pages.as_ref().map(|p| p.len()), Some(2));
}

#[test]
fn video_reply_failures() {
    match video_info(r#"{"code":-404,"message":"啥都木有"}"#, None) {
        Err(BiliError::VideoInfo { message, code }) => {
            assert_eq!(message, "\"啥都木有\"");
            assert_eq!(code, -404);
        }
        _ => panic!("expected a failure"),
    }
    assert!(matches!(
        video_info(r#"{"code":0,"data":{"pages":[]}}"#, None),
        Err(BiliError::NoPages)
    ));
}

#[test]
fn video_defaults() {
    let reply = VideoReply {
        code: Some(0),
        message: "0".into(),
        aid: None,
        bvid: None,
        title: None,
        pages: Some(vec![RawPage { page: None, part: None, cid: None }]),
    };
    let v = video_info_from_reply(reply, Some("BVfallback".into())).unwrap();
    assert_eq!(v.aid, 0);
    assert_eq!(v.bvid, "BVfallback");
    assert_eq!(v.title, "未知标题");
    assert_eq!(v.pages[0].page, 1);
    assert_eq!(v.pages[0].cid, 0);
    let reply = VideoReply {
        code: None,
        message: "null".into(),
        aid: None,
        bvid: None,
        title: None,
        pages: None,
    };
    assert!(matches!(
        video_info_from_reply(reply, None),
        Err(BiliError::VideoInfo { code: -1, .. })
    ));
}

fn video() -> VideoInfo {
    VideoInfo {
        aid: 1,
        bvid: "b".into(),
        title: "t".into(),
        pages: vec![
            PageInfo { page: 1, part: "a".into(), cid: 10 },
            PageInfo { page: 2, part: "b".into(), cid: 20 },
        ],
    }
}

#[test]
fn cid_selection() {
    assert_eq!(select_cid(&video(), 2).unwrap(), 20);
    assert_eq!(select_cid(&video(), 7).unwrap(), 10);
    let empty = VideoInfo { aid: 1, bvid: "b".into(), title: "t".into(), pages: vec![] };
    assert!(matches!(select_cid(&empty, 3), Err(BiliError::NoCid { page: 3 })));
    assert_eq!(debug_cid(&video(), 2), 20);
    assert_eq!(debug_cid(&video(), 7), 0);
}

const TRACKS: &str = r#"{"code":0,"data":{"subtitle":{"subtitles":[{"lan":"ai-zh","lan_doc":"中文（自动生成）","subtitle_url":"//aisubtitle.hdslb.com/x.json"},{"lan":"en","subtitle_url":""},{"subtitle_url":"https://a/b.json"}]}}}"#;

#[test]
fn tracks_from_reply_text() {
    let ts = subtitle_tracks(TRACKS).unwrap();
    assert_eq!(ts.len(), 2);
    assert_eq!(ts[0].lan, "ai-zh");
    assert_eq!(ts[0].lan_doc, "中文（自动生成）");
    assert_eq!(ts[0].url, "https://aisubtitle.hdslb.com/x.json");
    assert_eq!(ts[1].lan, "unknown");
    assert_eq!(ts[1].lan_doc, "未知语言");
    assert_eq!(ts[1].url, "https://a/b.json");
    assert!(subtitle_tracks(r#"{"code":0,"data":{}}"#).unwrap().is_empty());
    assert!(matches!(
        subtitle_tracks(r#"{"code":-400,"message":"bad"}"#),
        Err(BiliError::Tracks { code: -400, .. })
    ));
}

#[test]
fn tracks_from_fields() {
    let reply = TrackReply {
        code: Some(0),
        message: "0".into(),
        subtitles: Some(vec![RawTrack { lan: None, lan_doc: None, url: None }]),
    };
    assert!(tracks_from_reply(reply).unwrap().is_empty());
}

#[test]
fn qr_login_replies() {
    let r = read_qr_reply(r#"{"code":0,"data":{"qrcode_key":"k","url":"https://q"}}"#);
    let q = qr_login_from_reply(r).unwrap();
    assert_eq!(q.qrcode_key, "k");
    assert_eq!(q.url, "https://q");
    let bad = QrReply { code: Some(1), message: None, qrcode_key: None, url: None };
    match qr_login_from_reply(bad) {
        Err(BiliError::QrGenerate { message }) => assert_eq!(message, "未知错误"),
        _ => panic!("expected a failure"),
    }
    assert_eq!(
        qr_poll_api("abc"),
        "https://passport.bilibili.com/x/passport-login/web/qrcode/poll?qrcode_key=abc"
    );
}

#[test]
fn qr_poll_states() {
    assert_eq!(qr_poll_state(Some(0), Some(5)), QrPoll::Confirmed);
    assert_eq!(qr_poll_state(Some(86038), None), QrPoll::Expired);
    assert_eq!(qr_poll_state(Some(86090), None), QrPoll::Scanned);
    assert_eq!(qr_poll_state(Some(86101), None), QrPoll::Waiting);
    assert_eq!(qr_poll_state(None, Some(0)), QrPoll::Confirmed);
    assert_eq!(qr_poll_state(None, None), QrPoll::Waiting);
    assert_eq!(read_qr_poll(r#"{"code":0,"data":{"code":86090}}"#), QrPoll::Scanned);
    assert_eq!(read_qr_poll(r#"{"code":0,"data":{"code":0}}"#), QrPoll::Confirmed);
}

#[test]
fn wbi_key_replies() {
    let r = read_wbi_reply(
        r#"{"data":{"wbi_img":{"img_url":"https://i/bfs/wbi/aaa.png","sub_url":"https://i/bfs/wbi/bbb.png"}}}"#,
    );
    let (a, b) = wbi_keys_from_reply(&r).unwrap();
    assert_eq!(a, "aaa");
    assert_eq!(b, "bbb");
    let none = WbiReply { img_url: None, sub_url: None };
    assert!(matches!(wbi_keys_from_reply(&none), Err(BiliError::NoWbiImg)));
    let half = WbiReply { img_url: Some("x/a.png".into()), sub_url: None };
    assert!(matches!(wbi_keys_from_reply(&half), Err(BiliError::NoWbiSub)));
}

#[test]
fn subtitle_body_contents() {
    let c = read_subtitle_contents(r#"{"body":[{"from":0.5,"to":1.0,"content":"hi"},{"from":1}]}"#);
    let out = subtitle_contents_from(c).unwrap();
    assert_eq!(out, vec!["hi".to_string(), String::new()]);
    assert!(matches!(
        subtitle_contents_from(read_subtitle_contents("{}")),
        Err(BiliError::BadSubtitleFile)
    ));
}

#[test]
fn subtitle_list_call_and_raw_reply() {
    assert_eq!(
        tracks_api("aid=1&bvid=b&cid=2&wts=3&w_rid=ff"),
        "https://api.bilibili.com/x/player/wbi/v2?aid=1&bvid=b&cid=2&wts=3&w_rid=ff"
    );
    assert_eq!(
        debug_reply_text(r#"{"code":0,"data":[1]}"#).unwrap(),
        "{\n  \"code\": 0,\n  \"data\": [\n    1\n  ]\n}"
    );
    assert!(debug_reply_text("<html>").is_none());
}
