use vstd::prelude::*;
use crate::text::{
    all_digits, lemma_dec_digits,
    chars_of, dec, digits_value, is_space, join, lemma_padded, lemma_split_join, lemma_trim_fixed,
    lemma_trim_shape, lf_lines, no_lf, padded, pow10, push_char, push_dec, push_padded, push_str,
    split_lf, string_from, trim, trim_bounds, trim_str,
};

verus! {

/// One subtitle cue: start and end time in whole milliseconds, and its text.
pub struct SubLine {
    pub from: u64,
    pub to: u64,
    pub content: String,
}

impl SubLine {
    /// A cue from `from` to `to` milliseconds with the given text.
    pub fn new(from: u64, to: u64, content: String) -> (r: SubLine)
        ensures
            r.from == from,
            r.to == to,
            r.content@ == content@,
    {
        SubLine { from, to, content }
    }
}

/// `HH:MM:SS,mmm` for a time of `t` milliseconds; the hours field grows
/// beyond two digits when it has to.
pub open spec fn srt_time(t: nat) -> Seq<char> {
    padded(t / 3_600_000, 2) + seq![':'] + padded((t / 60_000) % 60, 2) + seq![':']
        + padded((t / 1000) % 60, 2) + seq![','] + padded(t % 1000, 3)
}

/// Formats a time given in whole milliseconds as an SRT timestamp.
pub fn format_srt_time(total_ms: u64) -> (r: String)
    ensures
        r@ == srt_time(total_ms as nat),
{
    let ms = total_ms % 1000;
    let s = (total_ms / 1000) % 60;
    let m = (total_ms / 60_000) % 60;
    let h = total_ms / 3_600_000;
    let mut out = String::new();
    push_padded(&mut out, h, 2);
    push_char(&mut out, ':');
    push_padded(&mut out, m, 2);
    push_char(&mut out, ':');
    push_padded(&mut out, s, 2);
    push_char(&mut out, ',');
    push_padded(&mut out, ms, 3);
    out
}

/// The SRT block of the cue numbered `index`.
pub open spec fn srt_block(index: nat, l: SubLine) -> Seq<char> {
    dec(index) + seq!['\n'] + srt_time(l.from as nat) + seq![' ', '-', '-', '>', ' ']
        + srt_time(l.to as nat) + seq!['\n'] + l.content@ + seq!['\n', '\n']
}

/// The SRT text of the first `n` cues of `ls`, numbered from 1.
pub open spec fn srt_text(ls: Seq<SubLine>, n: nat) -> Seq<char>
    decreases n,
{
    if n == 0 || n > ls.len() {
        Seq::empty()
    } else {
        srt_text(ls, (n - 1) as nat) + srt_block(n, ls[n - 1])
    }
}

/// The trimmed texts of the cues, in order.
pub open spec fn trimmed_contents(ls: Seq<SubLine>) -> Seq<Seq<char>> {
    ls.map_values(|l: SubLine| trim(l.content@))
}

/// The plain-text form: each cue's trimmed text on a line of its own.
pub open spec fn txt_text(ls: Seq<SubLine>) -> Seq<char> {
    join(trimmed_contents(ls), seq!['\n']) + seq!['\n']
}

/// Appends the SRT block of one cue.
fn push_srt_block(out: &mut String, index: u64, l: &SubLine)
    ensures
        final(out)@ == old(out)@ + srt_block(index as nat, *l),
{
    let mut b = String::new();
    push_dec(&mut b, index);
    push_char(&mut b, '\n');
    let t = format_srt_time(l.from);
    push_str(&mut b, t.as_str());
    let ghost b1 = b@;
    push_char(&mut b, ' ');
    push_char(&mut b, '-');
    push_char(&mut b, '-');
    push_char(&mut b, '>');
    push_char(&mut b, ' ');
    assert(b@ == b1 + seq![' ', '-', '-', '>', ' ']);
    let t = format_srt_time(l.to);
    push_str(&mut b, t.as_str());
    push_char(&mut b, '\n');
    push_str(&mut b, l.content.as_str());
    let ghost b2 = b@;
    push_char(&mut b, '\n');
    push_char(&mut b, '\n');
    assert(b@ == b2 + seq!['\n', '\n']);
    assert(b@ == srt_block(index as nat, *l));
    push_str(out, b.as_str());
}

/// Renders cues as an SRT document.
pub fn lines_to_srt(lines: &Vec<SubLine>) -> (r: String)
    ensures
        r@ == srt_text(lines@, lines@.len()),
{
    let mut out = String::new();
    let mut i: usize = 0;
    while i < lines.len()
        invariant
            i <= lines@.len(),
            out@ == srt_text(lines@, i as nat),
        decreases lines.len() - i,
    {
        push_srt_block(&mut out, (i + 1) as u64, &lines[i]);
        i = i + 1;
    }
    out
}

/// Renders cues as plain text, one trimmed cue per line, ending with a newline.
pub fn lines_to_txt(lines: &Vec<SubLine>) -> (r: String)
    ensures
        r@ == txt_text(lines@),
{
    let mut out = String::new();
    let mut i: usize = 0;
    while i < lines.len()
        invariant
            i <= lines@.len(),
            out@ == join(trimmed_contents(lines@).take(i as int), seq!['\n']),
        decreases lines.len() - i,
    {
        let t = trim_str(lines[i].content.as_str());
        if i > 0 {
            push_char(&mut out, '\n');
        }
        push_str(&mut out, t.as_str());
        proof {
            let p = trimmed_contents(lines@);
            assert(p.take(i + 1).drop_last() == p.take(i as int));
            assert(p.take(i + 1).last() == t@);
            if i == 0 {
                assert(p.take(1).len() == 1);
            }
        }
        i = i + 1;
    }
    assert(trimmed_contents(lines@).take(lines@.len() as int) == trimmed_contents(lines@));
    push_char(&mut out, '\n');
    out
}

/// Whether `c` is one of the characters that file names may not hold.
pub open spec fn forbidden_in_name(c: char) -> bool {
    c == '/' || c == '\\' || c == ':' || c == '*' || c == '?' || c == '"' || c == '<'
        || c == '>' || c == '|'
}

/// A forbidden character replaced by `_`; others kept.
pub open spec fn sanitize_char(c: char) -> char {
    if forbidden_in_name(c) { '_' } else { c }
}

/// The forbidden characters replaced by `_`, then white space trimmed.
pub open spec fn sanitized(s: Seq<char>) -> Seq<char> {
    trim(s.map_values(|c: char| sanitize_char(c)))
}

/// Makes a string usable as a file name.
pub fn sanitize_filename(s: &str) -> (r: String)
    ensures
        r@ == sanitized(s@),
{
    let cs = chars_of(s);
    let mut mapped: Vec<char> = Vec::new();
    let mut i: usize = 0;
    while i < cs.len()
        invariant
            i <= cs@.len(),
            mapped@.len() == i,
            forall|j: int| 0 <= j < i ==> mapped@[j] == sanitize_char(cs@[j]),
        decreases cs.len() - i,
    {
        let c = cs[i];
        let d = if c == '/' || c == '\\' || c == ':' || c == '*' || c == '?' || c == '"' || c
            == '<' || c == '>' || c == '|' {
            '_'
        } else {
            c
        };
        mapped.push(d);
        i = i + 1;
    }
    assert(mapped@ == s@.map_values(|c: char| sanitize_char(c)));
    let (lo, hi) = trim_bounds(&mapped);
    string_from(&mapped, lo, hi)
}


/// Sanitizing a file name a second time changes nothing.
pub proof fn sanitize_idempotent(s: Seq<char>)
    ensures
        sanitized(sanitized(s)) == sanitized(s),
{
    let m = s.map_values(|c: char| sanitize_char(c));
    let t = sanitized(s);
    let (a, b) = lemma_trim_shape(m);
    assert(t.map_values(|c: char| sanitize_char(c)) == t) by {
        assert forall|i: int| 0 <= i < t.len() implies sanitize_char(#[trigger] t[i]) == t[i] by {
            assert(t[i] == m[a + i]);
        }
    }
    lemma_trim_fixed(t);
}

/// A sanitized name holds none of the forbidden characters and has no white
/// space at either end.
pub proof fn sanitized_is_clean(s: Seq<char>)
    ensures
        forall|i: int| 0 <= i < sanitized(s).len() ==> !forbidden_in_name(#[trigger] sanitized(s)[i]),
        sanitized(s).len() > 0 ==> !is_space(sanitized(s)[0]) && !is_space(sanitized(s).last()),
{
    let m = s.map_values(|c: char| sanitize_char(c));
    let t = sanitized(s);
    let (a, b) = lemma_trim_shape(m);
    assert forall|i: int| 0 <= i < t.len() implies !forbidden_in_name(#[trigger] t[i]) by {
        assert(t[i] == m[a + i]);
    }
}


/// Reading an SRT timestamp back: below 100 hours it is twelve characters,
/// `HH:MM:SS,mmm`, whose fields give back the time it was made from.
pub proof fn srt_time_reads_back(t: nat)
    requires
        t < 360_000_000,
    ensures
        srt_time(t).len() == 12,
        srt_time(t)[2] == ':' && srt_time(t)[5] == ':' && srt_time(t)[8] == ',',
        digits_value(srt_time(t).subrange(3, 5)) < 60,
        digits_value(srt_time(t).subrange(6, 8)) < 60,
        digits_value(srt_time(t).subrange(0, 2)) * 3_600_000 + digits_value(
            srt_time(t).subrange(3, 5),
        ) * 60_000 + digits_value(srt_time(t).subrange(6, 8)) * 1000 + digits_value(
            srt_time(t).subrange(9, 12),
        ) == t,
{
    assert(pow10(2) == 100 && pow10(3) == 1000) by {
        reveal_with_fuel(pow10, 4);
    }
    let h = t / 3_600_000;
    let m = (t / 60_000) % 60;
    let s = (t / 1000) % 60;
    let ms = t % 1000;
    lemma_padded(h, 2);
    lemma_padded(m, 2);
    lemma_padded(s, 2);
    lemma_padded(ms, 3);
    let r = srt_time(t);
    let ph = padded(h, 2);
    let pm = padded(m, 2);
    let ps = padded(s, 2);
    let pms = padded(ms, 3);
    assert(r == ph + seq![':'] + pm + seq![':'] + ps + seq![','] + pms);
    assert(r.subrange(0, 2) == ph);
    assert(r.subrange(3, 5) == pm);
    assert(r.subrange(6, 8) == ps);
    assert(r.subrange(9, 12) == pms);
    assert(h * 3_600_000 + m * 60_000 + s * 1000 + ms == t) by (nonlinear_arith)
        requires
            h == t / 3_600_000,
            m == (t / 60_000) % 60,
            s == (t / 1000) % 60,
            ms == t % 1000,
            t < 360_000_000,
    {
    }
}

/// Adding a cue at the end of the list adds its block, numbered next, at the
/// end of the SRT document.
pub proof fn srt_append(ls: Seq<SubLine>, l: SubLine)
    ensures
        srt_text(ls.push(l), ls.len() + 1) == srt_text(ls, ls.len()) + srt_block(
            (ls.len() + 1) as nat,
            l,
        ),
{
    lemma_srt_prefix(ls, l, ls.len());
}

proof fn lemma_srt_prefix(ls: Seq<SubLine>, l: SubLine, k: nat)
    requires
        k <= ls.len(),
    ensures
        srt_text(ls.push(l), k) == srt_text(ls, k),
    decreases k,
{
    if k > 0 {
        lemma_srt_prefix(ls, l, (k - 1) as nat);
        assert(ls.push(l)[k - 1] == ls[k - 1]);
    }
}


proof fn lemma_srt_text_prefix(ls: Seq<SubLine>, k: nat, n: nat)
    requires
        k <= n <= ls.len(),
    ensures
        srt_text(ls, k).len() <= srt_text(ls, n).len(),
        srt_text(ls, n).subrange(0, srt_text(ls, k).len() as int) == srt_text(ls, k),
    decreases n - k,
{
    if k < n {
        lemma_srt_text_prefix(ls, k, (n - 1) as nat);
        let p = srt_text(ls, (n - 1) as nat);
        let b = srt_block(n, ls[n - 1]);
        assert(srt_text(ls, n) == p + b);
        assert((p + b).subrange(0, srt_text(ls, k).len() as int) == p.subrange(
            0,
            srt_text(ls, k).len() as int,
        ));
    }
}

proof fn lemma_block_starts(k: nat, l: SubLine)
    ensures
        srt_block(k, l).len() >= dec(k).len() + 1,
        srt_block(k, l).subrange(0, dec(k).len() as int + 1) == dec(k).push('\n'),
{
    let b = srt_block(k, l);
    let n = dec(k);
    let rest = srt_time(l.from as nat) + seq![' ', '-', '-', '>', ' '] + srt_time(l.to as nat)
        + seq!['\n'] + l.content@ + seq!['\n', '\n'];
    assert(b =~= n.push('\n') + rest);
    assert(b.subrange(0, n.len() as int + 1) =~= n.push('\n'));
}

proof fn lemma_middle(doc: Seq<char>, p: Seq<char>, b: Seq<char>, m: int)
    requires
        p.len() + b.len() <= doc.len(),
        doc.subrange(0, (p + b).len() as int) == p + b,
        0 <= m <= b.len(),
    ensures
        doc.subrange(p.len() as int, p.len() + m) == b.subrange(0, m),
{
    let o = p.len() as int;
    assert forall|j: int| 0 <= j < m implies doc.subrange(o, o + m)[j] == b.subrange(0, m)[j] by {
        assert(doc.subrange(0, (p + b).len() as int)[o + j] == doc[o + j]);
        assert((p + b)[o + j] == b[j]);
    }
    assert(doc.subrange(o, o + m) =~= b.subrange(0, m));
}

/// Every block of an SRT document starts with its cue's number, counted from
/// 1: right after the blocks of the cues before it, the block of the cue at
/// position `i` (from 0) starts with the decimal digits of `i + 1` and a line
/// break.
pub proof fn srt_blocks_numbered(ls: Seq<SubLine>, i: int)
    requires
        0 <= i < ls.len(),
    ensures
        ({
            let doc = srt_text(ls, ls.len());
            let o = srt_text(ls, i as nat).len() as int;
            let n = dec((i + 1) as nat);
            &&& all_digits(n)
            &&& digits_value(n) == i + 1
            &&& o + n.len() + 1 <= doc.len()
            &&& doc.subrange(o, o + n.len() + 1) == n.push('\n')
        }),
{
    let k = (i + 1) as nat;
    let n = dec(k);
    lemma_dec_digits(k);
    lemma_srt_text_prefix(ls, k, ls.len());
    let p = srt_text(ls, i as nat);
    let b = srt_block(k, ls[i]);
    assert(srt_text(ls, k) == p + b);
    lemma_block_starts(k, ls[i]);
    lemma_middle(srt_text(ls, ls.len()), p, b, n.len() as int + 1);
}

/// The plain-text form has one line per cue, each cue's trimmed text, when
/// no trimmed cue text holds a line break.
pub proof fn txt_one_line_per_cue(ls: Seq<SubLine>)
    requires
        ls.len() > 0,
        forall|i: int| 0 <= i < ls.len() ==> no_lf(trim(#[trigger] ls[i].content@)),
    ensures
        lf_lines(txt_text(ls)) == trimmed_contents(ls),
        lf_lines(txt_text(ls)).len() == ls.len(),
        forall|i: int| 0 <= i < ls.len() ==> lf_lines(txt_text(ls))[i] == trim(#[trigger] ls[i].content@),
{
    let ps = trimmed_contents(ls);
    assert forall|i: int| 0 <= i < ps.len() implies no_lf(#[trigger] ps[i]) by {
        assert(ps[i] == trim(ls[i].content@));
    }
    lemma_split_join(ps);
    let j = join(ps, seq!['\n']);
    let jl = j + seq!['\n'];
    assert(jl.drop_last() == j);
    assert(split_lf(jl) == ps.push(Seq::<char>::empty()));
    assert(ps.push(Seq::<char>::empty()).drop_last() == ps);
}

/// A name whose ends are not white space keeps its length: each of
/// `/ \ : * ? " < > |` becomes `_` and every other character stays.
pub proof fn sanitize_replaces_forbidden(s: Seq<char>)
    requires
        s.len() > 0 ==> !is_space(s[0]) && !is_space(s.last()),
    ensures
        sanitized(s).len() == s.len(),
        forall|i: int|
            0 <= i < s.len() ==> #[trigger] sanitized(s)[i] == if s[i] == '/' || s[i] == '\\'
                || s[i] == ':' || s[i] == '*' || s[i] == '?' || s[i] == '"' || s[i] == '<' || s[i]
                == '>' || s[i] == '|' {
                '_'
            } else {
                s[i]
            },
{
    let m = s.map_values(|c: char| sanitize_char(c));
    if s.len() > 0 {
        assert(m[0] == sanitize_char(s[0]));
        assert(m.last() == sanitize_char(s.last()));
    }
    lemma_trim_fixed(m);
}

} // verus!
