use bili_subtitle_downloader::zhihu::{
    api_url, capture_after, check_zhihu_reply, error_message, html_to_text, parse_target,
    pick_title, read_zhihu_reply, target_from_parts, text_from_rendering, zhihu_document,
    zhihu_headers, Target, ZhihuError, ZhihuReply,
};

#[test]
fn parses_answer_and_article_links() {
    assert_eq!(
        parse_target("https://www.zhihu.com/question/123/answer/456").unwrap(),
        Target::Answer("456".into())
    );
    assert_eq!(
        parse_target("https://zhuanlan.zhihu.com/p/789").unwrap(),
        Target::Article("789".into())
    );
    assert_eq!(
        parse_target("https://www.zhihu.com/article/789").unwrap(),
        Target::Article("789".into())
    );
}

#[test]
fn rejects_non_zhihu_links() {
    assert!(parse_target("https://example.com/question/1/answer/2").is_err());
}

#[test]
fn link_without_scheme_gets_https() {
    assert_eq!(
        parse_target("  zhuanlan.zhihu.com/p/42  ").unwrap(),
        Target::Article("42".into())
    );
}

#[test]
fn host_case_is_ignored_and_subdomains_count() {
    assert_eq!(
        parse_target("https://M.ZHIHU.COM/answer/7").unwrap(),
        Target::Answer("7".into())
    );
}

#[test]
fn unsupported_zhihu_path_is_refused() {
    assert!(matches!(
        parse_target("https://www.zhihu.com/people/someone"),
        Err(ZhihuError::Unsupported)
    ));
    assert!(matches!(
        parse_target("https://example.com/p/1"),
        Err(ZhihuError::NotZhihu)
    ));
}

#[test]
fn bad_link_is_refused() {
    assert!(matches!(parse_target("http://[::1"), Err(ZhihuError::BadLink)));
}

#[test]
fn target_from_parts_prefers_answer() {
    let t = target_from_parts(Some("www.zhihu.com".to_string()), "/p/1/answer/2").unwrap();
    assert_eq!(t, Target::Answer("2".into()));
    assert!(matches!(
        target_from_parts(None, "/answer/2"),
        Err(ZhihuError::NotZhihu)
    ));
    assert!(matches!(
        target_from_parts(Some("evilzhihu.com".to_string()), "/answer/2"),
        Err(ZhihuError::NotZhihu)
    ));
}

#[test]
fn capture_after_takes_digits() {
    assert_eq!(capture_after("/question/123/answer/456abc", "answer/"), Some("456".to_string()));
    assert_eq!(capture_after("/answer/abc", "answer/"), None);
    assert_eq!(capture_after("/question/1", "answer/"), None);
}

#[test]
fn api_urls() {
    assert_eq!(
        api_url(&Target::Answer("456".into())),
        "https://www.zhihu.com/api/v4/answers/456?include=data%5B*%5D.content"
    );
    assert_eq!(
        api_url(&Target::Article("789".into())),
        "https://zhuanlan.zhihu.com/api/articles/789"
    );
}

#[test]
fn html_becomes_tidy_text() {
    let t = html_to_text("<p>Hello</p><p>World</p>").unwrap();
    assert!(t.contains("Hello"));
    assert!(t.contains("World"));
    assert_eq!(t, t.trim());
    assert!(t.lines().all(|l| l == l.trim_end()));
}

#[test]
fn empty_html_has_no_content() {
    assert!(matches!(html_to_text("<p>   </p>"), Err(ZhihuError::NoContent)));
}

#[test]
fn rendering_is_tidied() {
    let t = text_from_rendering(Some("  a  \r\n\n b \n\n".to_string())).unwrap();
    assert_eq!(t, "a\n\n b");
    assert!(matches!(text_from_rendering(None), Err(ZhihuError::HtmlToText)));
    assert!(matches!(
        text_from_rendering(Some(" \n \n".to_string())),
        Err(ZhihuError::NoContent)
    ));
}

fn reply(q: Option<&str>, t: Option<&str>, e: Option<&str>) -> ZhihuReply {
    ZhihuReply {
        question_title: q.map(String::from),
        title: t.map(String::from),
        excerpt_title: e.map(String::from),
        content: Some("<p>x</p>".to_string()),
        content_html: None,
    }
}

#[test]
fn title_choice() {
    let a = Target::Answer("9".into());
    assert_eq!(pick_title(&reply(Some(" Q: why? "), Some("T"), None), &a), "Q_ why_");
    assert_eq!(pick_title(&reply(Some("  "), Some("T"), None), &a), "T");
    assert_eq!(pick_title(&reply(None, None, Some("E")), &a), "E");
    assert_eq!(pick_title(&reply(None, None, None), &a), "知乎回答_9");
    assert_eq!(
        pick_title(&reply(None, None, None), &Target::Article("3".into())),
        "知乎专栏_3"
    );
}

#[test]
fn error_messages() {
    assert_eq!(
        error_message(Some("1001".into()), Some("x".into()), 403),
        "知乎暂时限制了这个链接，请稍后再试"
    );
    assert_eq!(
        error_message(Some("NEED_LOGIN".into()), None, 401),
        "知乎暂时限制了这个链接，请稍后再试"
    );
    assert_eq!(error_message(Some("n".into()), Some("m".into()), 400), "知乎接口返回错误: m");
    assert_eq!(error_message(Some("n".into()), None, 400), "知乎接口返回错误: n");
    assert_eq!(error_message(None, None, 502), "知乎接口请求失败（HTTP 502）");
}

#[test]
fn reply_checks() {
    assert!(check_zhihu_reply(200, "{\"content\":\"x\"}").is_ok());
    assert!(matches!(check_zhihu_reply(200, "<html>"), Err(ZhihuError::NotJson { status: 200 })));
    match check_zhihu_reply(200, "{\"error\":{\"message\":\"bad\"}}") {
        Err(ZhihuError::Api { message }) => assert_eq!(message, "知乎接口返回错误: bad"),
        _ => panic!("expected an API error"),
    }
    match check_zhihu_reply(500, "{}") {
        Err(ZhihuError::Api { message }) => assert_eq!(message, "知乎接口请求失败（HTTP 500）"),
        _ => panic!("expected an API error"),
    }
}

#[test]
fn document_from_reply() {
    let text = "{\"question\":{\"title\":\"A/B\"},\"content\":\"<p>Body</p>\"}";
    let r = read_zhihu_reply(text);
    assert_eq!(r.question_title.as_deref(), Some("A/B"));
    let d = zhihu_document(&r, &Target::Answer("1".into())).unwrap();
    assert_eq!(d.file_name, "A_B.txt");
    assert!(d.content.starts_with("A_B\n\nBody"));
}

#[test]
fn blank_content_does_not_fall_back() {
    let r = ZhihuReply {
        question_title: None,
        title: None,
        excerpt_title: None,
        content: Some("  ".to_string()),
        content_html: Some("<p>x</p>".to_string()),
    };
    assert!(matches!(
        zhihu_document(&r, &Target::Answer("1".into())),
        Err(ZhihuError::NoContent)
    ));
}

#[test]
fn headers_are_signed() {
    let hs = zhihu_headers("https://www.zhihu.com/api/v4/answers/1");
    assert_eq!(hs.len(), 15);
    assert_eq!(hs[11], ("cookie".to_string(), "d_c0=ZhihuAnonymousFingerprint00000000000000".to_string()));
    assert_eq!(hs[12], ("x-zse-93".to_string(), "101_3_3.0".to_string()));
    assert_eq!(hs[13].0, "x-zse-96");
    assert!(hs[13].1.starts_with("2.0_"));
    assert_eq!(hs[14], ("x-requested-with".to_string(), "fetch".to_string()));
}
