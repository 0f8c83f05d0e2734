# bili_subtitle_downloader

Downloads the CC subtitles of Bilibili videos as plain text or SRT, and turns
Zhihu answers and column articles into text files. The decisions of the
program (reading links and ids, building and signing API calls, reading the
JSON replies, formatting subtitles, naming files, the QR-code login loop, the
command line) form a library whose functions carry contracts proved by Verus.

Layout:

- `src/` — the verified library.
  - `text.rs`: characters, trimming, decimal notation, searching, lines.
  - `json.rs`: reading values out of JSON text with serde_json.
  - `ids.rs`: BV ids, AV ids, part numbers, WBI key names.
  - `bili.rs`: link classification, API calls and the reading of their replies.
  - `wbi.rs`: WBI request signing.
  - `subtitle.rs`: cues, SRT and plain-text output, safe file names.
  - `zhihu.rs`: Zhihu links, request headers, replies and documents.
  - `qr.rs`: the login QR code and the login loop's decisions.
  - `video.rs`: choosing a video stream, whether ffmpeg must merge it, and
    the names of the saved and temporary files.
  - `window.rs`: the state of the desktop window and how the results of its
    background work change it (selected part, status line, busy flag, login).
  - `cli.rs`, `external.rs`, `webtext.rs`, `transcribe.rs`: the command line,
    Douyin/Xiaohongshu links, copied text, transcript file names.
- `app/` — the command-line program: network, files, processes and the clock.
- `tests/` — tests of the library on concrete values.

Usage:

```text
bili-subtitle-downloader <链接>          # 第一条字幕保存为 TXT
bili-subtitle-downloader --srt <链接>    # 保存为 SRT
bili-subtitle-downloader --debug <链接>  # 打印字幕接口原始返回
bili-subtitle-downloader --streams <链接> # 打印可用画质
bili-subtitle-downloader --video <链接> [qn] # 下载视频
```

Files are saved in the `字幕输出` folder of the working directory.

Proved contracts promise that library functions do not panic, with one
exception: turning Zhihu HTML into text (`zhihu::html_to_text` and
`zhihu::zhihu_document`) calls html2text, whose renderer holds an `unwrap` and
a `panic!` that its source does not show unreachable.

What this program does not include:

- The desktop window itself. Its state and decisions are in `src/window.rs`,
  but drawing it needs eframe and rfd, which do not fit in this build; run
  without arguments, the program prints its usage. The QR-code login loop
  (`app/login.rs`) and transcription are the window's functions; Zhihu
  articles, copied text and Douyin/Xiaohongshu downloads have no entry point.
  None of these is reachable from the command line.
- The list of video streams: the play-address call that lists a part's
  qualities is not part of this program, so `--streams` lists none and
  `--video` stops with 没有可用的视频流. Choosing a stream, the ffmpeg check,
  the file names, the download and the merge are in place.
