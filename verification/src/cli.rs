//! The command line: its options, and the names of the files it writes.

use vstd::prelude::*;
use crate::subtitle::{forbidden_in_name, sanitize_filename, sanitized};
use crate::text::{
    chars_of, dec, is_space, is_space_char, lemma_trim_shape, lemma_trim_start_shape,
    parse_unsigned, parse_unsigned_range, push_char, push_dec, push_str, starts_with,
    starts_with_chars, string_from, trim, trim_bounds, trim_start,
};

verus! {

/// What the command line asks for.
#[derive(Debug)]
pub struct CliOptions {
    /// `--debug`: print the raw subtitle list reply.
    pub debug: bool,
    /// `--srt`: save subtitles as SRT rather than plain text.
    pub want_srt: bool,
    /// `--streams`: only list the available qualities.
    pub streams_only: bool,
    /// `--video`: download the video.
    pub video_mode: bool,
    /// The quality asked for after `--video <link>`.
    pub video_qn: Option<u64>,
    /// The link or id.
    pub input: String,
}

/// The options as plain values: debug, srt, streams, video, quality, input.
pub type CliModel = (bool, bool, bool, bool, Option<u64>, Seq<char>);

/// The leading characters of `s` that are not white space.
pub open spec fn word_prefix(s: Seq<char>) -> Seq<char>
    decreases s.len(),
{
    if s.len() > 0 && !is_space(s[0]) {
        seq![s[0]] + word_prefix(s.drop_first())
    } else {
        Seq::empty()
    }
}

/// The first word of `s`, as `split_whitespace().next()` gives it.
pub open spec fn first_word(s: Seq<char>) -> Option<Seq<char>> {
    let t = trim_start(s);
    if t.len() == 0 {
        None
    } else {
        Some(word_prefix(t))
    }
}

/// What follows the first word of `s`.
pub open spec fn after_first_word(s: Seq<char>) -> Seq<char> {
    let t = trim_start(s);
    t.subrange(word_prefix(t).len() as int, t.len() as int)
}

/// The first word is a prefix of `s` without white space, ended by white
/// space or by the end of `s`.
pub proof fn lemma_word_prefix_len(s: Seq<char>)
    ensures
        word_prefix(s).len() <= s.len(),
        forall|j: int| 0 <= j < word_prefix(s).len() ==> word_prefix(s)[j] == s[j],
        word_prefix(s).len() < s.len() ==> is_space(s[word_prefix(s).len() as int]),
        forall|j: int| 0 <= j < word_prefix(s).len() ==> !is_space(#[trigger] s[j]),
    decreases s.len(),
{
    if s.len() > 0 && !is_space(s[0]) {
        let t = s.drop_first();
        lemma_word_prefix_len(t);
        assert forall|j: int| 0 <= j < word_prefix(s).len() implies word_prefix(s)[j] == s[j] by {
            if j > 0 {
                assert(word_prefix(s)[j] == word_prefix(t)[j - 1]);
                assert(t[j - 1] == s[j]);
            }
        }
        assert forall|j: int| 0 <= j < word_prefix(s).len() implies !is_space(#[trigger] s[j]) by {
            if j > 0 {
                assert(s[j] == t[j - 1]);
            }
        }
        if word_prefix(s).len() < s.len() {
            assert(s[word_prefix(s).len() as int] == t[word_prefix(t).len() as int]);
        }
    }
}

/// The quality that the word after the link gives, if it reads as a `u64`.
pub open spec fn quality_of(rest: Seq<char>) -> Option<u64> {
    match first_word(after_first_word(rest)) {
        Some(w) => match parse_unsigned(w, u64::MAX as nat) {
            Some(v) => Some(v as u64),
            None => None,
        },
        None => None,
    }
}

/// The options that the (trimmed) argument `input` gives on top of `m`: the
/// flags `--debug `, `--srt `, `--streams ` are taken off the front one after
/// another; `--video ` takes the next word as the link and the word after it
/// as the quality.
pub open spec fn cli_parse(input: Seq<char>, m: CliModel) -> CliModel
    decreases input.len(),
{
    if starts_with(input, seq!['-', '-', 'd', 'e', 'b', 'u', 'g', ' ']) {
        let rest = trim(input.subrange(8, input.len() as int));
        proof {
            lemma_trim_shape(input.subrange(8, input.len() as int));
        }
        cli_parse(rest, (true, m.1, m.2, m.3, m.4, m.5))
    } else if starts_with(input, seq!['-', '-', 's', 'r', 't', ' ']) {
        let rest = trim(input.subrange(6, input.len() as int));
        proof {
            lemma_trim_shape(input.subrange(6, input.len() as int));
        }
        cli_parse(rest, (m.0, true, m.2, m.3, m.4, m.5))
    } else if starts_with(input, seq!['-', '-', 's', 't', 'r', 'e', 'a', 'm', 's', ' ']) {
        let rest = trim(input.subrange(10, input.len() as int));
        proof {
            lemma_trim_shape(input.subrange(10, input.len() as int));
        }
        cli_parse(rest, (m.0, m.1, true, m.3, m.4, m.5))
    } else if starts_with(input, seq!['-', '-', 'v', 'i', 'd', 'e', 'o', ' ']) {
        let rest = input.subrange(8, input.len() as int);
        let a0 = match first_word(rest) {
            Some(w) => w,
            None => Seq::empty(),
        };
        proof {
            lemma_trim_start_shape(rest);
            lemma_word_prefix_len(trim_start(rest));
        }
        cli_parse(a0, (m.0, m.1, m.2, true, quality_of(rest), m.5))
    } else {
        (m.0, m.1, m.2, m.3, m.4, input)
    }
}

/// The view of parsed options.
pub open spec fn cli_view(o: CliOptions) -> CliModel {
    (o.debug, o.want_srt, o.streams_only, o.video_mode, o.video_qn, o.input@)
}

/// The bounds of the first word of `cs[lo..hi]` and where the text after it starts.
fn first_word_at(cs: &Vec<char>, lo: usize, hi: usize) -> (r: (usize, usize))
    requires
        lo <= hi <= cs@.len(),
    ensures
        lo <= r.0 <= r.1 <= hi,
        first_word(cs@.subrange(lo as int, hi as int)) is None <==> r.0 == hi,
        r.0 < hi ==> first_word(cs@.subrange(lo as int, hi as int)) == Some(
            cs@.subrange(r.0 as int, r.1 as int),
        ),
        after_first_word(cs@.subrange(lo as int, hi as int)) == cs@.subrange(r.1 as int, hi as int),
{
    let mut a = lo;
    while a < hi && is_space_char(cs[a])
        invariant
            lo <= a <= hi <= cs@.len(),
            forall|j: int| lo <= j < a ==> is_space(#[trigger] cs@[j]),
        decreases hi - a,
    {
        a = a + 1;
    }
    let ghost s = cs@.subrange(lo as int, hi as int);
    proof {
        assert forall|j: int| 0 <= j < a - lo implies is_space(#[trigger] s[j]) by {
            assert(s[j] == cs@[lo + j]);
        }
        crate::text::lemma_trim_start_drop(s, a - lo);
        assert(s.subrange(a - lo, s.len() as int) == cs@.subrange(a as int, hi as int));
        let t = cs@.subrange(a as int, hi as int);
        if t.len() > 0 {
            assert(t[0] == cs@[a as int]);
        }
        assert(trim_start(t) == t);
    }
    let mut b = a;
    while b < hi && !is_space_char(cs[b])
        invariant
            a <= b <= hi <= cs@.len(),
            forall|j: int| a <= j < b ==> !is_space(#[trigger] cs@[j]),
        decreases hi - b,
    {
        b = b + 1;
    }
    proof {
        let t = cs@.subrange(a as int, hi as int);
        lemma_word_prefix_len(t);
        let w = word_prefix(t);
        assert(w.len() == b - a) by {
            if w.len() < b - a {
                assert(is_space(t[w.len() as int]));
                assert(t[w.len() as int] == cs@[a + w.len()]);
            }
            if w.len() > b - a {
                assert(!is_space(t[b - a]));
                assert(t[b - a] == cs@[b as int]);
            }
        }
        assert(w == cs@.subrange(a as int, b as int));
        assert(t.subrange(b - a, t.len() as int) == cs@.subrange(b as int, hi as int));
    }
    (a, b)
}

/// Reads the command-line argument.
pub fn parse_cli_args(arg: &str) -> (r: CliOptions)
    ensures
        cli_view(r) == cli_parse(trim(arg@), (false, false, false, false, None, Seq::empty())),
{
    let mut debug = false;
    let mut want_srt = false;
    let mut streams_only = false;
    let mut video_mode = false;
    let mut video_qn: Option<u64> = None;
    let cs0 = chars_of(arg);
    let (lo0, hi0) = trim_bounds(&cs0);
    let mut input = string_from(&cs0, lo0, hi0);
    let debug_flag = chars_of("--debug ");
    let srt_flag = chars_of("--srt ");
    let streams_flag = chars_of("--streams ");
    let video_flag = chars_of("--video ");
    proof {
        reveal_strlit("--debug ");
        reveal_strlit("--srt ");
        reveal_strlit("--streams ");
        reveal_strlit("--video ");
    }
    assert(debug_flag@ == seq!['-', '-', 'd', 'e', 'b', 'u', 'g', ' ']);
    assert(srt_flag@ == seq!['-', '-', 's', 'r', 't', ' ']);
    assert(streams_flag@ == seq!['-', '-', 's', 't', 'r', 'e', 'a', 'm', 's', ' ']);
    assert(video_flag@ == seq!['-', '-', 'v', 'i', 'd', 'e', 'o', ' ']);
    let ghost target = cli_parse(trim(arg@), (false, false, false, false, None, Seq::empty()));
    loop
        invariant
            debug_flag@ == seq!['-', '-', 'd', 'e', 'b', 'u', 'g', ' '],
            srt_flag@ == seq!['-', '-', 's', 'r', 't', ' '],
            streams_flag@ == seq!['-', '-', 's', 't', 'r', 'e', 'a', 'm', 's', ' '],
            video_flag@ == seq!['-', '-', 'v', 'i', 'd', 'e', 'o', ' '],
            target == cli_parse(trim(arg@), (false, false, false, false, None, Seq::empty())),
            target == cli_parse(
                input@,
                (debug, want_srt, streams_only, video_mode, video_qn, Seq::empty()),
            ),
        decreases input@.len(),
    {
        let cs = chars_of(input.as_str());
        let n = cs.len();
        let ghost m = (debug, want_srt, streams_only, video_mode, video_qn, Seq::<char>::empty());
        let ghost before = input@;
        if starts_with_chars(&cs, &debug_flag) {
            debug = true;
            let (lo, hi) = trim_bounds_from(&cs, 8);
            input = string_from(&cs, lo, hi);
            assert(input@ == trim(before.subrange(8, before.len() as int)));
            assert(cli_parse(before, m) == cli_parse(input@, (true, m.1, m.2, m.3, m.4, m.5)));
        } else if starts_with_chars(&cs, &srt_flag) {
            want_srt = true;
            let (lo, hi) = trim_bounds_from(&cs, 6);
            input = string_from(&cs, lo, hi);
            assert(input@ == trim(before.subrange(6, before.len() as int)));
            assert(cli_parse(before, m) == cli_parse(input@, (m.0, true, m.2, m.3, m.4, m.5)));
        } else if starts_with_chars(&cs, &streams_flag) {
            streams_only = true;
            let (lo, hi) = trim_bounds_from(&cs, 10);
            input = string_from(&cs, lo, hi);
            assert(input@ == trim(before.subrange(10, before.len() as int)));
            assert(cli_parse(before, m) == cli_parse(input@, (m.0, m.1, true, m.3, m.4, m.5)));
        } else if starts_with_chars(&cs, &video_flag) {
            video_mode = true;
            let (a, b) = first_word_at(&cs, 8, n);
            let (c, d) = first_word_at(&cs, b, n);
            proof {
                lemma_word_prefix_len(trim_start(cs@.subrange(8, n as int)));
                lemma_trim_start_shape(cs@.subrange(8, n as int));
            }
            video_qn = if c < n {
                match parse_unsigned_range(&cs, c, d, u64::MAX) {
                    Some(v) => Some(v),
                    None => None,
                }
            } else {
                None
            };
            input = string_from(&cs, a, b);
            proof {
                let rest = before.subrange(8, before.len() as int);
                assert(rest == cs@.subrange(8, n as int));
                assert(video_qn == quality_of(rest));
                let a0 = match first_word(rest) {
                    Some(w) => w,
                    None => Seq::<char>::empty(),
                };
                assert(input@ == a0);
                assert(cli_parse(before, m) == cli_parse(a0, (m.0, m.1, m.2, true, quality_of(rest), m.5)));
            }
        } else {
            assert(cli_parse(before, m) == (m.0, m.1, m.2, m.3, m.4, before));
            return CliOptions { debug, want_srt, streams_only, video_mode, video_qn, input };
        }
        assert(cli_parse(before, m) == cli_parse(
            input@,
            (debug, want_srt, streams_only, video_mode, video_qn, Seq::<char>::empty()),
        ));
    }
}

/// Trim bounds of `cs[from..]`.
fn trim_bounds_from(cs: &Vec<char>, from: usize) -> (r: (usize, usize))
    requires
        from <= cs@.len(),
    ensures
        from <= r.0 <= r.1 <= cs@.len(),
        cs@.subrange(r.0 as int, r.1 as int) == trim(cs@.subrange(from as int, cs@.len() as int)),
{
    let rest = string_from(cs, from, cs.len());
    let rc = chars_of(rest.as_str());
    let (lo, hi) = trim_bounds(&rc);
    assert(rc@.subrange(lo as int, hi as int) == cs@.subrange(from + lo, from + hi));
    (from + lo, from + hi)
}


/// `_P<page>` for parts after the first, nothing for the first.
pub open spec fn part_suffix(page: nat) -> Seq<char> {
    if page > 1 {
        seq!['_', 'P'] + dec(page)
    } else {
        Seq::empty()
    }
}

/// The name of a saved subtitle file: the title made usable as a file name,
/// the part, the language and the format.
pub open spec fn subtitle_name(title: Seq<char>, page: nat, lan: Seq<char>, srt: bool) -> Seq<char> {
    sanitized(title) + part_suffix(page) + seq!['_'] + lan + seq!['.'] + if srt {
        seq!['s', 'r', 't']
    } else {
        seq!['t', 'x', 't']
    }
}

/// Names the file that a subtitle track of a video part is saved to.
pub fn subtitle_file_name(title: &str, page: usize, lan: &str, srt: bool) -> (r: String)
    ensures
        r@ == subtitle_name(title@, page as nat, lan@, srt),
{
    let mut name = sanitize_filename(title);
    let ghost n0 = name@;
    if page > 1 {
        push_char(&mut name, '_');
        push_char(&mut name, 'P');
        push_dec(&mut name, page as u64);
    }
    assert(name@ == n0 + part_suffix(page as nat));
    push_char(&mut name, '_');
    push_str(&mut name, lan);
    push_char(&mut name, '.');
    let ghost n2 = name@;
    if srt {
        push_char(&mut name, 's');
        push_char(&mut name, 'r');
        push_char(&mut name, 't');
        assert(name@ == n2 + seq!['s', 'r', 't']);
    } else {
        push_char(&mut name, 't');
        push_char(&mut name, 'x');
        push_char(&mut name, 't');
        assert(name@ == n2 + seq!['t', 'x', 't']);
    }
    name
}


/// A word that does not start with `-` is taken as the link, with the
/// options gathered before it unchanged.
proof fn lemma_plain_word(link: Seq<char>, m: CliModel)
    requires
        link.len() > 0,
        link[0] != '-',
    ensures
        cli_parse(link, m) == (m.0, m.1, m.2, m.3, m.4, link),
{
    assert(!starts_with(link, seq!['-', '-', 'd', 'e', 'b', 'u', 'g', ' '])) by {
        if link.len() >= 8 {
            assert(link.subrange(0, 8)[0] == link[0]);
        }
    }
    assert(!starts_with(link, seq!['-', '-', 's', 'r', 't', ' '])) by {
        if link.len() >= 6 {
            assert(link.subrange(0, 6)[0] == link[0]);
        }
    }
    assert(!starts_with(link, seq!['-', '-', 's', 't', 'r', 'e', 'a', 'm', 's', ' '])) by {
        if link.len() >= 10 {
            assert(link.subrange(0, 10)[0] == link[0]);
        }
    }
    assert(!starts_with(link, seq!['-', '-', 'v', 'i', 'd', 'e', 'o', ' '])) by {
        if link.len() >= 8 {
            assert(link.subrange(0, 8)[0] == link[0]);
        }
    }
}

/// A link given alone asks for plain-text subtitles of that link, and
/// nothing else, when it is one word that does not start with `-`.
pub proof fn plain_link_gives_txt(link: Seq<char>)
    requires
        link.len() > 0,
        forall|i: int| 0 <= i < link.len() ==> !is_space(#[trigger] link[i]),
        link[0] != '-',
    ensures
        cli_parse(trim(link), (false, false, false, false, None, Seq::empty())) == (
            false,
            false,
            false,
            false,
            None::<u64>,
            link,
        ),
{
    assert(!is_space(link[0]) && !is_space(link.last()));
    crate::text::lemma_trim_fixed(link);
    lemma_plain_word(link, (false, false, false, false, None, Seq::empty()));
}

/// `--srt <link>` asks for SRT subtitles of the link, and nothing else, when
/// the link is one word that does not start with `-`.
pub proof fn srt_flag_then_link(link: Seq<char>)
    requires
        link.len() > 0,
        forall|i: int| 0 <= i < link.len() ==> !is_space(#[trigger] link[i]),
        link[0] != '-',
    ensures
        cli_parse(
            trim(seq!['-', '-', 's', 'r', 't', ' '] + link),
            (false, false, false, false, None, Seq::empty()),
        ) == (false, true, false, false, None::<u64>, link),
{
    let flag = seq!['-', '-', 's', 'r', 't', ' '];
    let s = flag + link;
    assert(s.last() == link.last());
    assert(!is_space(s[0]) && !is_space(s.last()));
    crate::text::lemma_trim_fixed(s);
    assert(!starts_with(s, seq!['-', '-', 'd', 'e', 'b', 'u', 'g', ' '])) by {
        if s.len() >= 8 {
            assert(s.subrange(0, 8)[2] == s[2]);
        }
    }
    assert(starts_with(s, flag)) by {
        assert(s.subrange(0, 6) =~= flag);
    }
    assert(s.subrange(6, s.len() as int) == link);
    assert(!is_space(link[0]) && !is_space(link.last()));
    crate::text::lemma_trim_fixed(link);
    let m1: CliModel = (false, true, false, false, None, Seq::empty());
    lemma_plain_word(link, m1);
    assert(trim(s.subrange(6, s.len() as int)) == link);
}

/// A word without white space is all of its own first word.
proof fn lemma_whole_word(w: Seq<char>)
    requires
        forall|i: int| 0 <= i < w.len() ==> !is_space(#[trigger] w[i]),
    ensures
        word_prefix(w) == w,
    decreases w.len(),
{
    if w.len() > 0 {
        let t = w.drop_first();
        assert forall|i: int| 0 <= i < t.len() implies !is_space(#[trigger] t[i]) by {
            assert(t[i] == w[i + 1]);
        }
        lemma_whole_word(t);
        assert(seq![w[0]] + t == w);
    }
}

/// A word without white space is no option, even when it starts with `-`:
/// every option ends with a space.
proof fn lemma_spaceless_word(w: Seq<char>, m: CliModel)
    requires
        forall|i: int| 0 <= i < w.len() ==> !is_space(#[trigger] w[i]),
    ensures
        cli_parse(w, m) == (m.0, m.1, m.2, m.3, m.4, w),
{
    assert(!starts_with(w, seq!['-', '-', 'd', 'e', 'b', 'u', 'g', ' '])) by {
        if w.len() >= 8 {
            assert(w.subrange(0, 8)[7] == w[7]);
            assert(!is_space(w[7]));
        }
    }
    assert(!starts_with(w, seq!['-', '-', 's', 'r', 't', ' '])) by {
        if w.len() >= 6 {
            assert(w.subrange(0, 6)[5] == w[5]);
            assert(!is_space(w[5]));
        }
    }
    assert(!starts_with(w, seq!['-', '-', 's', 't', 'r', 'e', 'a', 'm', 's', ' '])) by {
        if w.len() >= 10 {
            assert(w.subrange(0, 10)[9] == w[9]);
            assert(!is_space(w[9]));
        }
    }
    assert(!starts_with(w, seq!['-', '-', 'v', 'i', 'd', 'e', 'o', ' '])) by {
        if w.len() >= 8 {
            assert(w.subrange(0, 8)[7] == w[7]);
            assert(!is_space(w[7]));
        }
    }
}

/// `--video <link>` with no word after the link asks for the video of that
/// link with no quality chosen, so that the first (highest) one is taken.
pub proof fn video_flag_without_quality(link: Seq<char>)
    requires
        link.len() > 0,
        forall|i: int| 0 <= i < link.len() ==> !is_space(#[trigger] link[i]),
    ensures
        cli_parse(
            trim(seq!['-', '-', 'v', 'i', 'd', 'e', 'o', ' '] + link),
            (false, false, false, false, None, Seq::empty()),
        ) == (false, false, false, true, None::<u64>, link),
{
    let flag = seq!['-', '-', 'v', 'i', 'd', 'e', 'o', ' '];
    let s = flag + link;
    assert(s.last() == link.last());
    assert(!is_space(s[0]) && !is_space(s.last()));
    crate::text::lemma_trim_fixed(s);
    assert(!starts_with(s, seq!['-', '-', 'd', 'e', 'b', 'u', 'g', ' '])) by {
        assert(s.subrange(0, 8)[2] == s[2]);
    }
    assert(!starts_with(s, seq!['-', '-', 's', 'r', 't', ' '])) by {
        assert(s.subrange(0, 6)[2] == s[2]);
    }
    assert(!starts_with(s, seq!['-', '-', 's', 't', 'r', 'e', 'a', 'm', 's', ' '])) by {
        if s.len() >= 10 {
            assert(s.subrange(0, 10)[2] == s[2]);
        }
    }
    assert(starts_with(s, flag)) by {
        assert(s.subrange(0, 8) =~= flag);
    }
    let rest = s.subrange(8, s.len() as int);
    assert(rest == link);
    assert(!is_space(link[0]));
    assert(trim_start(link) == link);
    lemma_whole_word(link);
    assert(first_word(rest) == Some(link));
    assert(link.subrange(link.len() as int, link.len() as int) =~= Seq::<char>::empty());
    assert(after_first_word(rest) =~= Seq::<char>::empty());
    assert(trim_start(Seq::<char>::empty()) == Seq::<char>::empty());
    assert(first_word(Seq::<char>::empty()) is None);
    assert(quality_of(rest) is None);
    lemma_spaceless_word(link, (false, false, false, true, None, Seq::empty()));
}

/// The first word of a word, a space and more is that word.
proof fn lemma_word_then_space(w: Seq<char>, x: Seq<char>)
    requires
        forall|i: int| 0 <= i < w.len() ==> !is_space(#[trigger] w[i]),
    ensures
        word_prefix(w + seq![' '] + x) == w,
{
    let s = w + seq![' '] + x;
    lemma_word_prefix_len(s);
    let p = word_prefix(s);
    assert(is_space(s[w.len() as int]));
    if p.len() > w.len() {
        assert(!is_space(s[w.len() as int]));
    }
    if p.len() < w.len() {
        assert(s[p.len() as int] == w[p.len() as int]);
    }
    assert(p.len() == w.len());
    assert forall|j: int| 0 <= j < p.len() implies p[j] == w[j] by {
        assert(p[j] == s[j]);
        assert(s[j] == w[j]);
    }
    assert(p =~= w);
}

/// `--video <link> <n>` asks for the video of the link in quality `n`, for
/// any `n` that fits in a `u64`.
pub proof fn video_flag_with_quality(link: Seq<char>, q: u64)
    requires
        link.len() > 0,
        forall|i: int| 0 <= i < link.len() ==> !is_space(#[trigger] link[i]),
    ensures
        cli_parse(
            trim(seq!['-', '-', 'v', 'i', 'd', 'e', 'o', ' '] + link + seq![' '] + dec(q as nat)),
            (false, false, false, false, None, Seq::empty()),
        ) == (false, false, false, true, Some(q), link),
{
    let flag = seq!['-', '-', 'v', 'i', 'd', 'e', 'o', ' '];
    let d = dec(q as nat);
    crate::text::lemma_dec_digits(q as nat);
    crate::text::lemma_dec_len(q as nat);
    assert forall|i: int| 0 <= i < d.len() implies !is_space(#[trigger] d[i]) by {
        assert(crate::text::is_digit(d[i]));
    }
    let s = flag + link + seq![' '] + d;
    assert(s.last() == d.last());
    assert(!is_space(s[0]) && !is_space(s.last()));
    crate::text::lemma_trim_fixed(s);
    assert(!starts_with(s, seq!['-', '-', 'd', 'e', 'b', 'u', 'g', ' '])) by {
        assert(s.subrange(0, 8)[2] == s[2]);
    }
    assert(!starts_with(s, seq!['-', '-', 's', 'r', 't', ' '])) by {
        assert(s.subrange(0, 6)[2] == s[2]);
    }
    assert(!starts_with(s, seq!['-', '-', 's', 't', 'r', 'e', 'a', 'm', 's', ' '])) by {
        if s.len() >= 10 {
            assert(s.subrange(0, 10)[2] == s[2]);
        }
    }
    assert(starts_with(s, flag)) by {
        assert(s.subrange(0, 8) =~= flag);
    }
    let rest = s.subrange(8, s.len() as int);
    assert(rest =~= link + seq![' '] + d);
    assert(!is_space(rest[0]));
    assert(trim_start(rest) == rest);
    lemma_word_then_space(link, d);
    assert(first_word(rest) == Some(link));
    let after = rest.subrange(link.len() as int, rest.len() as int);
    assert(after =~= seq![' '] + d);
    assert(after_first_word(rest) == after);
    assert(trim_start(after) == trim_start(after.drop_first()));
    assert(after.drop_first() =~= d);
    assert(!is_space(d[0]));
    assert(trim_start(d) == d);
    lemma_whole_word(d);
    assert(first_word(after) == Some(d));
    assert(d[0] != '+');
    assert(crate::text::all_digits(d));
    assert(parse_unsigned(d, u64::MAX as nat) == Some(q as nat));
    assert(quality_of(rest) == Some(q));
    lemma_spaceless_word(link, (false, false, false, true, Some(q), Seq::empty()));
}

/// The name of a saved subtitle file holds none of the characters that file
/// names may not hold, when the language code holds none.
pub proof fn subtitle_name_is_plain(title: Seq<char>, page: nat, lan: Seq<char>, srt: bool)
    requires
        forall|i: int| 0 <= i < lan.len() ==> !forbidden_in_name(#[trigger] lan[i]),
    ensures
        forall|i: int|
            0 <= i < subtitle_name(title, page, lan, srt).len() ==> !forbidden_in_name(
                #[trigger] subtitle_name(title, page, lan, srt)[i],
            ),
{
    crate::subtitle::sanitized_is_clean(title);
    crate::text::lemma_dec_digits(page);
    let a = sanitized(title);
    let p = part_suffix(page);
    let e = if srt {
        seq!['s', 'r', 't']
    } else {
        seq!['t', 'x', 't']
    };
    let name = subtitle_name(title, page, lan, srt);
    assert(name == a + p + seq!['_'] + lan + seq!['.'] + e);
    assert forall|i: int| 0 <= i < p.len() implies !forbidden_in_name(#[trigger] p[i]) by {
        if i >= 2 {
            assert(p[i] == dec(page)[i - 2]);
            assert(crate::text::is_digit(dec(page)[i - 2]));
        }
    }
    assert forall|i: int| 0 <= i < name.len() implies !forbidden_in_name(#[trigger] name[i]) by {
        let k1 = a.len() as int;
        let k2 = k1 + p.len();
        let k3 = k2 + 1 + lan.len();
        if i < k1 {
            assert(name[i] == a[i]);
        } else if i < k2 {
            assert(name[i] == p[i - k1]);
        } else if i == k2 {
            assert(name[i] == '_');
        } else if i < k3 {
            assert(name[i] == lan[i - k2 - 1]);
        } else if i == k3 {
            assert(name[i] == '.');
        } else {
            assert(name[i] == e[i - k3 - 1]);
        }
    }
}

} // verus!
