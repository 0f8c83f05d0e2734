use bili_subtitle_downloader::subtitle::{
    format_srt_time, lines_to_srt, lines_to_txt, sanitize_filename, SubLine,
};

fn line(from: u64, to: u64, content: &str) -> SubLine {
    SubLine::new(from, to, content.to_string())
}

#[test]
fn srt_times() {
    assert_eq!(format_srt_time(0), "00:00:00,000");
    assert_eq!(format_srt_time(1_500), "00:00:01,500");
    assert_eq!(format_srt_time(3_723_004), "01:02:03,004");
    assert_eq!(format_srt_time(360_000_000), "100:00:00,000");
}

#[test]
fn srt_document() {
    let ls = vec![line(0, 1_000, "hello"), line(1_000, 2_500, " world ")];
    assert_eq!(
        lines_to_srt(&ls),
        "1\n00:00:00,000 --> 00:00:01,000\nhello\n\n2\n00:00:01,000 --> 00:00:02,500\n world \n\n"
    );
    assert_eq!(lines_to_srt(&vec![]), "");
}

#[test]
fn txt_document() {
    let ls = vec![line(0, 1, " a "), line(1, 2, "b\t")];
    assert_eq!(lines_to_txt(&ls), "a\nb\n");
    assert_eq!(lines_to_txt(&vec![]), "\n");
}

#[test]
fn file_names() {
    assert_eq!(sanitize_filename("  a/b\\c:d*e?f\"g<h>i|j  "), "a_b_c_d_e_f_g_h_i_j");
    assert_eq!(sanitize_filename("\u{3000}标题\u{3000}"), "标题");
    assert_eq!(sanitize_filename(""), "");
    let once = sanitize_filename(" x/y ");
    assert_eq!(sanitize_filename(&once), once);
}
