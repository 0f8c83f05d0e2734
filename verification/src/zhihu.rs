//! Zhihu answers and column articles: reading links, choosing the API call,
//! and turning its reply into a text document.

use vstd::prelude::*;
use crate::json::{json_has, json_has_at, json_parses, json_str, json_str_at, json_valid};
use crate::subtitle::{sanitize_filename, sanitized};
use crate::text::{
    chars_eq, chars_of, dec, digit_run, digit_run_end, ends_with, ends_with_chars, find, first_at,
    lower, lower_chars, opt_view, push_char, push_dec, push_str, starts_with, starts_with_chars,
    string_from, string_or, text_or, tidy_lines, tidy_text, trim, trim_bounds, trim_str,
};

verus! {

/// What a Zhihu link points at.
#[derive(Debug, Clone, PartialEq)]
pub enum Target {
    Answer(String),
    Article(String),
}

/// Why a Zhihu link or reply was refused.
#[derive(Debug)]
pub enum ZhihuError {
    /// The link does not parse as a URL.
    BadLink,
    /// The link's host is not Zhihu.
    NotZhihu,
    /// The link is neither an answer nor a column article.
    Unsupported,
    /// The reply holds no body text.
    NoContent,
    /// The body HTML could not be turned into text.
    HtmlToText,
    /// The reply is not JSON; the HTTP status it came with.
    NotJson { status: u16 },
    /// The API refused the call; the message to show.
    Api { message: String },
}

/// The digits after the first occurrence of `marker` in `path`, if there are any.
pub open spec fn digits_after(path: Seq<char>, marker: Seq<char>) -> Option<Seq<char>> {
    if exists|i: int| first_at(path, marker, i) {
        let i = choose|i: int| first_at(path, marker, i);
        let d = digit_run(path.subrange(i + marker.len(), path.len() as int));
        if d.len() == 0 {
            None
        } else {
            Some(d)
        }
    } else {
        None
    }
}

fn capture_chars(path: &Vec<char>, marker: &Vec<char>) -> (r: Option<String>)
    ensures
        r is Some <==> digits_after(path@, marker@) is Some,
        r matches Some(d) ==> digits_after(path@, marker@) == Some(d@),
{
    match find(path, marker) {
        None => {
            assert(!exists|i: int| first_at(path@, marker@, i));
            None
        },
        Some(i) => {
            proof {
                let c = choose|j: int| first_at(path@, marker@, j);
                crate::text::lemma_first_at_unique(path@, marker@, i as int, c);
                assert(crate::text::occurs_at(path@, marker@, i as int));
                assert(i + marker.len() <= path.len());
            }
            let start = i + marker.len();
            let e = digit_run_end(path, start);
            if e == start {
                None
            } else {
                Some(string_from(path, start, e))
            }
        },
    }
}

/// The run of digits right after the first `marker` in `path`.
pub fn capture_after(path: &str, marker: &str) -> (r: Option<String>)
    ensures
        r is Some <==> digits_after(path@, marker@) is Some,
        r matches Some(d) ==> digits_after(path@, marker@) == Some(d@),
{
    let p = chars_of(path);
    let m = chars_of(marker);
    capture_chars(&p, &m)
}

/// The API call that returns the content of a target.
pub open spec fn api_url_of(t: Target) -> Seq<char> {
    match t {
        Target::Answer(id) => "https://www.zhihu.com/api/v4/answers/"@ + id@
            + "?include=data%5B*%5D.content"@,
        Target::Article(id) => "https://zhuanlan.zhihu.com/api/articles/"@ + id@,
    }
}

/// The API call that returns the content of a target.
pub fn api_url(target: &Target) -> (r: String)
    ensures
        r@ == api_url_of(*target),
{
    let mut u = String::new();
    match target {
        Target::Answer(id) => {
            push_str(&mut u, "https://www.zhihu.com/api/v4/answers/");
            push_str(&mut u, id.as_str());
            push_str(&mut u, "?include=data%5B*%5D.content");
        },
        Target::Article(id) => {
            push_str(&mut u, "https://zhuanlan.zhihu.com/api/articles/");
            push_str(&mut u, id.as_str());
        },
    }
    u
}

/// The host (if any) and path of a URL, as the `url` crate reads it.
pub uninterp spec fn url_parts(s: Seq<char>) -> Option<(Option<Seq<char>>, Seq<char>)>;

/// `reqwest::Url::parse` (the `url` crate's `Url::parse`), then `Url::host_str`
/// and `Url::path` of the result, copied out.
#[verifier::external_body]
fn parse_url(s: &str) -> (r: Option<(Option<String>, String)>)
    ensures
        r is Some <==> url_parts(s@) is Some,
        r matches Some((h, p)) ==> url_parts(s@) == Some((
            match h {
                Some(x) => Some(x@),
                None => None::<Seq<char>>,
            },
            p@,
        )),
{
    let u = reqwest::Url::parse(s).ok()?;
    Some((u.host_str().map(|h| h.to_string()), u.path().to_string()))
}

/// The link with `https://` put in front when it has no `http://` or `https://`.
pub open spec fn normalized_link(t: Seq<char>) -> Seq<char> {
    if starts_with(t, "http://"@) || starts_with(t, "https://"@) {
        t
    } else {
        "https://"@ + t
    }
}

/// Whether a (lower-cased) host is Zhihu's.
pub open spec fn zhihu_host(h: Seq<char>) -> bool {
    h == "zhihu.com"@ || h == "www.zhihu.com"@ || h == "zhuanlan.zhihu.com"@ || ends_with(
        h,
        ".zhihu.com"@,
    )
}

/// The target that a path names: an answer id after `answer/`, else a column
/// article id after `p/`, else after `article/`.
pub open spec fn path_target(path: Seq<char>) -> Option<(bool, Seq<char>)> {
    match digits_after(path, "answer/"@) {
        Some(d) => Some((true, d)),
        None => match digits_after(path, "p/"@) {
            Some(d) => Some((false, d)),
            None => match digits_after(path, "article/"@) {
                Some(d) => Some((false, d)),
                None => None,
            },
        },
    }
}

/// The view of a target: whether it is an answer, and its id.
pub open spec fn target_view(t: Target) -> (bool, Seq<char>) {
    match t {
        Target::Answer(id) => (true, id@),
        Target::Article(id) => (false, id@),
    }
}

/// The outcome for a parsed link's host and path: hosts other than Zhihu's
/// are refused, then the path must name an answer or an article.
pub open spec fn parts_outcome(
    host: Option<Seq<char>>,
    path: Seq<char>,
    r: Result<Target, ZhihuError>,
) -> bool {
    let h = lower(
        match host {
            Some(x) => x,
            None => Seq::empty(),
        },
    );
    if !zhihu_host(h) {
        r matches Err(ZhihuError::NotZhihu)
    } else {
        match path_target(path) {
            Some(v) => r matches Ok(t) && target_view(t) == v,
            None => r matches Err(ZhihuError::Unsupported),
        }
    }
}

/// Decides the target from a parsed link's host and path.
pub fn target_from_parts(host: Option<String>, path: &str) -> (r: Result<Target, ZhihuError>)
    ensures
        parts_outcome(opt_view(host), path@, r),
{
    let h = match &host {
        Some(x) => chars_of(x.as_str()),
        None => Vec::new(),
    };
    let low = lower_chars(&h);
    let zhihu = chars_of("zhihu.com");
    let www = chars_of("www.zhihu.com");
    let zhuanlan = chars_of("zhuanlan.zhihu.com");
    let dot = chars_of(".zhihu.com");
    if !(chars_eq(&low, &zhihu) || chars_eq(&low, &www) || chars_eq(&low, &zhuanlan)
        || ends_with_chars(&low, &dot)) {
        return Err(ZhihuError::NotZhihu);
    }
    let p = chars_of(path);
    let answer = chars_of("answer/");
    let article_short = chars_of("p/");
    let article = chars_of("article/");
    if let Some(id) = capture_chars(&p, &answer) {
        return Ok(Target::Answer(id));
    }
    if let Some(id) = capture_chars(&p, &article_short) {
        return Ok(Target::Article(id));
    }
    if let Some(id) = capture_chars(&p, &article) {
        return Ok(Target::Article(id));
    }
    Err(ZhihuError::Unsupported)
}

/// The outcome of reading a link: a link that does not parse is refused,
/// otherwise its host and path decide.
pub open spec fn link_outcome(input: Seq<char>, r: Result<Target, ZhihuError>) -> bool {
    match url_parts(normalized_link(trim(input))) {
        None => r matches Err(ZhihuError::BadLink),
        Some((host, path)) => parts_outcome(host, path, r),
    }
}

/// Reads a Zhihu answer or column article link.
pub fn parse_target(input: &str) -> (r: Result<Target, ZhihuError>)
    ensures
        link_outcome(input@, r),
{
    let cs = chars_of(input);
    let (lo, hi) = trim_bounds(&cs);
    let t = string_from(&cs, lo, hi);
    let tc = chars_of(t.as_str());
    let http = chars_of("http://");
    let https = chars_of("https://");
    let normalized = if starts_with_chars(&tc, &http) || starts_with_chars(&tc, &https) {
        t
    } else {
        let mut n = String::new();
        push_str(&mut n, "https://");
        push_str(&mut n, t.as_str());
        n
    };
    match parse_url(normalized.as_str()) {
        None => Err(ZhihuError::BadLink),
        Some((host, path)) => target_from_parts(host, path.as_str()),
    }
}


/// The text that html2text renders from `html` at the given line width.
pub uninterp spec fn html_plain_text(html: Seq<char>, width: nat) -> Option<Seq<char>>;

/// `html2text::config::plain().string_from_read(html.as_bytes(), width)`:
/// the HTML rendered as plain text, `None` when rendering fails. The
/// renderer's source holds an `unwrap` (render/text_renderer.rs, when a word
/// is split across lines) and a bare `panic!` (lib.rs, in the table cell
/// renderer) whose unreachability it does not show; this contract leaves
/// unsaid that the call returns on every input.
#[verifier::external_body]
fn html_to_plain(html: &str, width: usize) -> (r: Option<String>)
    ensures
        r is Some <==> html_plain_text(html@, width as nat) is Some,
        r matches Some(t) ==> html_plain_text(html@, width as nat) == Some(t@),
{
    html2text::config::plain().string_from_read(html.as_bytes(), width).ok()
}

/// The body text from html2text's rendering: refused when rendering failed,
/// trailing white space taken off each line, and refused when nothing is left.
pub fn text_from_rendering(plain: Option<String>) -> (r: Result<String, ZhihuError>)
    ensures
        plain is None ==> r matches Err(ZhihuError::HtmlToText),
        plain matches Some(p) ==> if tidy_lines(p@).len() == 0 {
            r matches Err(ZhihuError::NoContent)
        } else {
            r matches Ok(t) && t@ == tidy_lines(p@)
        },
{
    let p = match plain {
        Some(p) => p,
        None => return Err(ZhihuError::HtmlToText),
    };
    let t = tidy_text(p.as_str());
    if t.as_str().is_empty() {
        Err(ZhihuError::NoContent)
    } else {
        Ok(t)
    }
}

/// Turns the answer or article HTML into plain text, 80 columns wide. That it
/// returns on every input rests on html2text, whose source does not show it
/// (see `html_to_plain`).
pub fn html_to_text(html: &str) -> (r: Result<String, ZhihuError>)
    ensures
        match html_plain_text(html@, 80) {
            None => r matches Err(ZhihuError::HtmlToText),
            Some(p) => if tidy_lines(p).len() == 0 {
                r matches Err(ZhihuError::NoContent)
            } else {
                r matches Ok(t) && t@ == tidy_lines(p)
            },
        },
{
    text_from_rendering(html_to_plain(html, 80))
}

/// The fields of an answer or article reply that the document is made of.
pub struct ZhihuReply {
    pub question_title: Option<String>,
    pub title: Option<String>,
    pub excerpt_title: Option<String>,
    pub content: Option<String>,
    pub content_html: Option<String>,
}

/// `reply` holds what the answer or article reply `text` gives.
pub open spec fn reads_zhihu(text: Seq<char>, reply: ZhihuReply) -> bool {
    &&& opt_view(reply.question_title) == json_str_at(text, "/question/title"@)
    &&& opt_view(reply.title) == json_str_at(text, "/title"@)
    &&& opt_view(reply.excerpt_title) == json_str_at(text, "/excerpt_title"@)
    &&& opt_view(reply.content) == json_str_at(text, "/content"@)
    &&& opt_view(reply.content_html) == json_str_at(text, "/content_html"@)
}

/// Reads the fields of an answer or article reply.
pub fn read_zhihu_reply(text: &str) -> (r: ZhihuReply)
    ensures
        reads_zhihu(text@, r),
        opt_view(r.question_title) == json_str_at(text@, "/question/title"@),
        opt_view(r.title) == json_str_at(text@, "/title"@),
        opt_view(r.excerpt_title) == json_str_at(text@, "/excerpt_title"@),
        opt_view(r.content) == json_str_at(text@, "/content"@),
        opt_view(r.content_html) == json_str_at(text@, "/content_html"@),
{
    ZhihuReply {
        question_title: json_str(text, "/question/title"),
        title: json_str(text, "/title"),
        excerpt_title: json_str(text, "/excerpt_title"),
        content: json_str(text, "/content"),
        content_html: json_str(text, "/content_html"),
    }
}

/// Whether an optional string is present and not only white space.
pub open spec fn nonblank(o: Option<String>) -> bool {
    o matches Some(x) && trim(x@).len() > 0
}

/// The first title that is not blank: the question's, then the title, then
/// the excerpt title.
pub open spec fn title_source(reply: ZhihuReply) -> Option<Seq<char>> {
    if nonblank(reply.question_title) {
        opt_view(reply.question_title)
    } else if nonblank(reply.title) {
        opt_view(reply.title)
    } else if nonblank(reply.excerpt_title) {
        opt_view(reply.excerpt_title)
    } else {
        None
    }
}

/// The title used when the reply gives none.
pub open spec fn fallback_title(t: Target) -> Seq<char> {
    match t {
        Target::Answer(id) => "知乎回答_"@ + id@,
        Target::Article(id) => "知乎专栏_"@ + id@,
    }
}

/// The document title: the first non-blank title, trimmed and made usable as
/// a file name; the fallback when there is none or nothing is left of it.
pub open spec fn title_of(reply: ZhihuReply, t: Target) -> Seq<char> {
    let s = match title_source(reply) {
        Some(x) => sanitized(trim(x)),
        None => Seq::empty(),
    };
    if s.len() == 0 {
        fallback_title(t)
    } else {
        s
    }
}

/// A reply without a question title but with a non-blank title of its own
/// (as a column article has) is titled by that title, trimmed and made usable
/// as a file name, unless nothing is left of it; a reply with no non-blank
/// title at all is titled `知乎回答_<id>` or `知乎专栏_<id>`.
pub proof fn article_title_used(reply: ZhihuReply, t: Target)
    ensures
        reply.question_title is None && reply.title is Some && trim(reply.title->0@).len() > 0
            && sanitized(trim(reply.title->0@)).len() > 0 ==> title_of(reply, t) == sanitized(
            trim(reply.title->0@),
        ),
        !nonblank(reply.question_title) && !nonblank(reply.title) && !nonblank(reply.excerpt_title)
            ==> title_of(reply, t) == match t {
            Target::Answer(id) => "知乎回答_"@ + id@,
            Target::Article(id) => "知乎专栏_"@ + id@,
        },
{
}

fn is_nonblank(o: &Option<String>) -> (r: bool)
    ensures
        r == nonblank(*o),
{
    match o {
        Some(x) => {
            let t = trim_str(x.as_str());
            !t.as_str().is_empty()
        },
        None => false,
    }
}

/// Picks the document title.
pub fn pick_title(reply: &ZhihuReply, target: &Target) -> (r: String)
    ensures
        r@ == title_of(*reply, *target),
{
    let chosen: Option<&String> = if is_nonblank(&reply.question_title) {
        reply.question_title.as_ref()
    } else if is_nonblank(&reply.title) {
        reply.title.as_ref()
    } else if is_nonblank(&reply.excerpt_title) {
        reply.excerpt_title.as_ref()
    } else {
        None
    };
    let s = match chosen {
        Some(x) => {
            let t = trim_str(x.as_str());
            sanitize_filename(t.as_str())
        },
        None => String::new(),
    };
    if s.as_str().is_empty() {
        let mut f = String::new();
        match target {
            Target::Answer(id) => {
                push_str(&mut f, "知乎回答_");
                push_str(&mut f, id.as_str());
            },
            Target::Article(id) => {
                push_str(&mut f, "知乎专栏_");
                push_str(&mut f, id.as_str());
            },
        }
        f
    } else {
        s
    }
}

/// The message shown when the API refuses a call.
pub open spec fn error_text(name: Seq<char>, message: Seq<char>, status: nat) -> Seq<char> {
    if name == "1001"@ || lower(name) == "need_login"@ {
        "知乎暂时限制了这个链接，请稍后再试"@
    } else if message.len() > 0 {
        "知乎接口返回错误: "@ + message
    } else if name.len() > 0 {
        "知乎接口返回错误: "@ + name
    } else {
        "知乎接口请求失败（HTTP "@ + dec(status) + "）"@
    }
}

/// The message for a refused call, from the error name and message of the
/// reply (absent ones count as empty) and the HTTP status.
pub fn error_message(name: Option<String>, message: Option<String>, status: u16) -> (r: String)
    ensures
        r@ == error_text(text_or(name, Seq::empty()), text_or(message, Seq::empty()), status as nat),
{
    proof {
        reveal_strlit("");
    }
    assert(""@ == Seq::<char>::empty());
    let name = string_or(name, "");
    let message = string_or(message, "");
    let n = chars_of(name.as_str());
    let low = lower_chars(&n);
    let code = chars_of("1001");
    let login = chars_of("need_login");
    let mut out = String::new();
    if chars_eq(&n, &code) || chars_eq(&low, &login) {
        push_str(&mut out, "知乎暂时限制了这个链接，请稍后再试");
    } else if !message.as_str().is_empty() {
        push_str(&mut out, "知乎接口返回错误: ");
        push_str(&mut out, message.as_str());
    } else if !name.as_str().is_empty() {
        push_str(&mut out, "知乎接口返回错误: ");
        push_str(&mut out, name.as_str());
    } else {
        push_str(&mut out, "知乎接口请求失败（HTTP ");
        push_dec(&mut out, status as u64);
        push_str(&mut out, "）");
    }
    out
}

/// Accepts an API reply: it must be JSON, and a reply that is not a success
/// or that carries an `error` is refused with its message.
pub fn check_zhihu_reply(status: u16, text: &str) -> (r: Result<(), ZhihuError>)
    ensures
        !json_parses(text@) ==> (r matches Err(ZhihuError::NotJson { status: s }) && s == status),
        json_parses(text@) && (!(200 <= status <= 299) || json_has_at(text@, "/error"@))
            ==> (r matches Err(ZhihuError::Api { message }) && message@ == error_text(
            text_or_opt(json_str_at(text@, "/error/name"@)),
            text_or_opt(json_str_at(text@, "/error/message"@)),
            status as nat,
        )),
        json_parses(text@) && 200 <= status <= 299 && !json_has_at(text@, "/error"@) ==> r is Ok,
{
    if !json_valid(text) {
        return Err(ZhihuError::NotJson { status });
    }
    if status < 200 || status > 299 || json_has(text, "/error") {
        let message = error_message(
            json_str(text, "/error/name"),
            json_str(text, "/error/message"),
            status,
        );
        return Err(ZhihuError::Api { message });
    }
    Ok(())
}

/// An optional string view, or empty.
pub open spec fn text_or_opt(o: Option<Seq<char>>) -> Seq<char> {
    match o {
        Some(x) => x,
        None => Seq::empty(),
    }
}

/// The fixed value of the `d_c0` cookie that requests are signed with.
pub open spec fn anonymous_d_c0() -> Seq<char> {
    "ZhihuAnonymousFingerprint00000000000000"@
}

/// The `x-zse-96` signature of a request for `url` with cookie `d_c0`.
pub uninterp spec fn zse96_of(url: Seq<char>, d_c0: Seq<char>) -> Seq<char>;

/// `zhihu_sign::sign_zhihu_request(url, d_c0, None)`: the three signing
/// headers. Its source returns `x-zse-93` with the fixed version string
/// `101_3_3.0`, `x-zse-96` with a signature computed from the URL's path and
/// the cookie, and `x-requested-with: fetch`; the contract names the signature.
#[verifier::external_body]
fn sign_request(url: &str, d_c0: &str) -> (r: Vec<(String, String)>)
    ensures
        r@.len() == 3,
        r@[0].0@ == "x-zse-93"@ && r@[0].1@ == "101_3_3.0"@,
        r@[1].0@ == "x-zse-96"@ && r@[1].1@ == zse96_of(url@, d_c0@),
        r@[2].0@ == "x-requested-with"@ && r@[2].1@ == "fetch"@,
{
    zhihu_sign::sign_zhihu_request(url, d_c0, None).to_vec()
}

/// The headers of an API request for `endpoint`, in the order they are set.
pub open spec fn request_headers(endpoint: Seq<char>) -> Seq<(Seq<char>, Seq<char>)> {
    seq![
        ("user-agent"@, "Mozilla/5.0 (Windows NT 10.0; Win64; x64) AppleWebKit/537.36 (KHTML, like Gecko) Chrome/123.0.0.0 Safari/537.36 Edg/123.0.0.0"@),
        ("accept"@, "*/*"@),
        ("accept-language"@, "zh-CN,zh;q=0.9"@),
        ("origin"@, "https://zhuanlan.zhihu.com"@),
        ("referer"@, "https://zhuanlan.zhihu.com/"@),
        ("sec-ch-ua"@, "\"Microsoft Edge\";v=\"123\", \"Not:A-Brand\";v=\"8\", \"Chromium\";v=\"123\""@),
        ("sec-ch-ua-mobile"@, "?0"@),
        ("sec-ch-ua-platform"@, "\"Windows\""@),
        ("sec-fetch-dest"@, "empty"@),
        ("sec-fetch-mode"@, "cors"@),
        ("sec-fetch-site"@, "same-site"@),
        ("cookie"@, "d_c0="@ + anonymous_d_c0()),
        ("x-zse-93"@, "101_3_3.0"@),
        ("x-zse-96"@, zse96_of(endpoint, anonymous_d_c0())),
        ("x-requested-with"@, "fetch"@),
    ]
}

fn header(name: &str, value: &str) -> (r: (String, String))
    ensures
        r.0@ == name@,
        r.1@ == value@,
{
    let mut n = String::new();
    push_str(&mut n, name);
    let mut v = String::new();
    push_str(&mut v, value);
    (n, v)
}

/// Builds the headers of an API request, signed for `endpoint`.
pub fn zhihu_headers(endpoint: &str) -> (r: Vec<(String, String)>)
    ensures
        r@.map_values(|h: (String, String)| (h.0@, h.1@)) == request_headers(endpoint@),
{
    let d_c0 = "ZhihuAnonymousFingerprint00000000000000";
    let mut hs: Vec<(String, String)> = Vec::new();
    hs.push(header("user-agent", "Mozilla/5.0 (Windows NT 10.0; Win64; x64) AppleWebKit/537.36 (KHTML, like Gecko) Chrome/123.0.0.0 Safari/537.36 Edg/123.0.0.0"));
    hs.push(header("accept", "*/*"));
    hs.push(header("accept-language", "zh-CN,zh;q=0.9"));
    hs.push(header("origin", "https://zhuanlan.zhihu.com"));
    hs.push(header("referer", "https://zhuanlan.zhihu.com/"));
    hs.push(header("sec-ch-ua", "\"Microsoft Edge\";v=\"123\", \"Not:A-Brand\";v=\"8\", \"Chromium\";v=\"123\""));
    hs.push(header("sec-ch-ua-mobile", "?0"));
    hs.push(header("sec-ch-ua-platform", "\"Windows\""));
    hs.push(header("sec-fetch-dest", "empty"));
    hs.push(header("sec-fetch-mode", "cors"));
    hs.push(header("sec-fetch-site", "same-site"));
    let mut cookie = String::new();
    push_str(&mut cookie, "d_c0=");
    push_str(&mut cookie, d_c0);
    let mut name = String::new();
    push_str(&mut name, "cookie");
    hs.push((name, cookie));
    let signed = sign_request(endpoint, d_c0);
    hs.push((signed[0].0.clone(), signed[0].1.clone()));
    hs.push((signed[1].0.clone(), signed[1].1.clone()));
    hs.push((signed[2].0.clone(), signed[2].1.clone()));
    assert(hs@.map_values(|h: (String, String)| (h.0@, h.1@)) =~= request_headers(endpoint@));
    hs
}


/// A text document made from an answer or article.
pub struct ZhihuDoc {
    pub file_name: String,
    pub content: String,
}

/// The body HTML of a reply: `content`, else `content_html`.
pub open spec fn html_source(reply: ZhihuReply) -> Option<Seq<char>> {
    match reply.content {
        Some(c) => Some(c@),
        None => opt_view(reply.content_html),
    }
}

/// The outcome of making a document: a reply without non-blank body HTML is
/// refused; otherwise the title, a blank line and the body text, saved under
/// the title with `.txt` appended.
pub open spec fn document_outcome(
    reply: ZhihuReply,
    target: Target,
    r: Result<ZhihuDoc, ZhihuError>,
) -> bool {
    match html_source(reply) {
        None => r matches Err(ZhihuError::NoContent),
        Some(h) => if trim(h).len() == 0 {
            r matches Err(ZhihuError::NoContent)
        } else {
            match html_plain_text(h, 80) {
                None => r matches Err(ZhihuError::HtmlToText),
                Some(p) => if tidy_lines(p).len() == 0 {
                    r matches Err(ZhihuError::NoContent)
                } else {
                    r matches Ok(d) && d.content@ == title_of(reply, target) + seq!['\n', '\n']
                        + tidy_lines(p) && d.file_name@ == sanitized(title_of(reply, target))
                        + ".txt"@
                },
            }
        },
    }
}

/// Makes the text document of an answer or article from its reply.
pub fn zhihu_document(reply: &ZhihuReply, target: &Target) -> (r: Result<ZhihuDoc, ZhihuError>)
    ensures
        document_outcome(*reply, *target, r),
{
    let title = pick_title(reply, target);
    let html: Option<&String> = match &reply.content {
        Some(c) => Some(c),
        None => reply.content_html.as_ref(),
    };
    let html = match html {
        Some(h) => h,
        None => return Err(ZhihuError::NoContent),
    };
    if trim_str(html.as_str()).as_str().is_empty() {
        return Err(ZhihuError::NoContent);
    }
    let text = html_to_text(html.as_str())?;
    let mut content = String::new();
    push_str(&mut content, title.as_str());
    push_char(&mut content, '\n');
    push_char(&mut content, '\n');
    push_str(&mut content, text.as_str());
    assert(content@ == title@ + seq!['\n', '\n'] + text@);
    let mut file_name = sanitize_filename(title.as_str());
    push_str(&mut file_name, ".txt");
    Ok(ZhihuDoc { file_name, content })
}

} // verus!
