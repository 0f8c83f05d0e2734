use vstd::prelude::*;

verus! {

/// Whether `c` is an ASCII decimal digit.
pub open spec fn is_digit(c: char) -> bool {
    '0' <= c && c <= '9'
}

/// Whether `c` is an ASCII letter or digit.
pub open spec fn is_alnum(c: char) -> bool {
    is_digit(c) || ('a' <= c && c <= 'z') || ('A' <= c && c <= 'Z')
}

/// ASCII lower-casing of one character; other characters are unchanged.
pub open spec fn ascii_lower(c: char) -> char {
    if 'A' <= c && c <= 'Z' {
        ((c as u32) + 32) as char
    } else {
        c
    }
}

/// ASCII lower-casing of a string, character by character.
pub open spec fn lower(s: Seq<char>) -> Seq<char> {
    s.map_values(|c: char| ascii_lower(c))
}

/// The characters with the Unicode `White_Space` property, which is what
/// `char::is_whitespace` tests.
pub open spec fn is_space(c: char) -> bool {
    let u = c as u32;
    (0x09 <= u && u <= 0x0d) || u == 0x20 || u == 0x85 || u == 0xa0 || u == 0x1680
        || (0x2000 <= u && u <= 0x200a) || u == 0x2028 || u == 0x2029 || u == 0x202f
        || u == 0x205f || u == 0x3000
}

/// What `str::trim_start` leaves: leading white space removed.
pub open spec fn trim_start(s: Seq<char>) -> Seq<char>
    decreases s.len(),
{
    if s.len() > 0 && is_space(s[0]) {
        trim_start(s.drop_first())
    } else {
        s
    }
}

/// What `str::trim_end` leaves: trailing white space removed.
pub open spec fn trim_end(s: Seq<char>) -> Seq<char>
    decreases s.len(),
{
    if s.len() > 0 && is_space(s.last()) {
        trim_end(s.drop_last())
    } else {
        s
    }
}

/// What `str::trim` leaves: leading and trailing white space removed.
pub open spec fn trim(s: Seq<char>) -> Seq<char> {
    trim_end(trim_start(s))
}

/// The character of the decimal digit `d` (for `d < 10`).
pub open spec fn digit_char(d: nat) -> char {
    (48 + d) as char
}

/// Decimal notation of `n`, without leading zeros.
pub open spec fn dec(n: nat) -> Seq<char>
    decreases n,
{
    if n < 10 {
        seq![digit_char(n)]
    } else {
        dec(n / 10).push(digit_char(n % 10))
    }
}

/// Decimal notation of `n`, padded on the left with zeros to at least `w` characters.
pub open spec fn padded(n: nat, w: nat) -> Seq<char> {
    if dec(n).len() >= w {
        dec(n)
    } else {
        Seq::new((w - dec(n).len()) as nat, |i: int| '0') + dec(n)
    }
}

/// Decimal notation of a signed integer, as `i64::to_string` writes it.
pub open spec fn dec_int(n: int) -> Seq<char> {
    if n < 0 {
        seq!['-'] + dec((-n) as nat)
    } else {
        dec(n as nat)
    }
}

/// The value of a string of decimal digits.
pub open spec fn digits_value(s: Seq<char>) -> nat
    decreases s.len(),
{
    if s.len() == 0 {
        0
    } else {
        digits_value(s.drop_last()) * 10 + ((s.last() as u32) - 48) as nat
    }
}

/// Whether every character of `s` is an ASCII digit.
pub open spec fn all_digits(s: Seq<char>) -> bool {
    forall|i: int| 0 <= i < s.len() ==> is_digit(#[trigger] s[i])
}

/// The longest prefix of `s` made of ASCII digits.
pub open spec fn digit_run(s: Seq<char>) -> Seq<char>
    decreases s.len(),
{
    if s.len() > 0 && is_digit(s[0]) {
        seq![s[0]] + digit_run(s.drop_first())
    } else {
        Seq::empty()
    }
}

/// Whether `needle` occurs in `hay` at position `i`.
pub open spec fn occurs_at(hay: Seq<char>, needle: Seq<char>, i: int) -> bool {
    0 <= i && i + needle.len() <= hay.len() && hay.subrange(i, i + needle.len()) == needle
}

/// Whether `needle` occurs anywhere in `hay`.
pub open spec fn contains(hay: Seq<char>, needle: Seq<char>) -> bool {
    exists|i: int| occurs_at(hay, needle, i)
}

/// Whether `hay` starts with `prefix`.
pub open spec fn starts_with(hay: Seq<char>, prefix: Seq<char>) -> bool {
    occurs_at(hay, prefix, 0)
}

/// Whether `hay` ends with `suffix`.
pub open spec fn ends_with(hay: Seq<char>, suffix: Seq<char>) -> bool {
    occurs_at(hay, suffix, hay.len() - suffix.len())
}

/// Whether `needle` first occurs in `hay` at position `i`, as `str::find` reports it.
pub open spec fn first_at(hay: Seq<char>, needle: Seq<char>, i: int) -> bool {
    occurs_at(hay, needle, i) && forall|j: int| 0 <= j < i ==> !occurs_at(hay, needle, j)
}

/// Appends one character to a string.
///
/// Calls `String::push`, which std documents as appending the given `char`
/// to the end of the string; the contract says exactly that.
#[verifier::external_body]
pub(crate) fn push_char(s: &mut String, c: char)
    ensures
        final(s)@ == old(s)@.push(c),
{
    s.push(c);
}

/// The characters of a string slice, in order.
pub fn chars_of(s: &str) -> (r: Vec<char>)
    ensures
        r@ == s@,
{
    let mut out: Vec<char> = Vec::new();
    for c in it: s.chars()
        invariant
            out@ == it.seq().take(it.index() as int),
    {
        out.push(c);
    }
    out
}

/// A string made of the characters `cs[lo..hi]`.
pub fn string_from(cs: &Vec<char>, lo: usize, hi: usize) -> (r: String)
    requires
        lo <= hi <= cs@.len(),
    ensures
        r@ == cs@.subrange(lo as int, hi as int),
{
    let mut out = String::new();
    let mut i = lo;
    while i < hi
        invariant
            lo <= i <= hi <= cs@.len(),
            out@ == cs@.subrange(lo as int, i as int),
        decreases hi - i,
    {
        push_char(&mut out, cs[i]);
        assert(cs@.subrange(lo as int, i + 1) == cs@.subrange(lo as int, i as int).push(cs@[i as int]));
        i = i + 1;
    }
    out
}

/// Appends the characters `cs[lo..hi]` to `out`.
pub fn push_range(out: &mut String, cs: &Vec<char>, lo: usize, hi: usize)
    requires
        lo <= hi <= cs@.len(),
    ensures
        final(out)@ == old(out)@ + cs@.subrange(lo as int, hi as int),
{
    let mut i = lo;
    while i < hi
        invariant
            lo <= i <= hi <= cs@.len(),
            out@ == old(out)@ + cs@.subrange(lo as int, i as int),
        decreases hi - i,
    {
        push_char(out, cs[i]);
        assert(cs@.subrange(lo as int, i + 1) == cs@.subrange(lo as int, i as int).push(cs@[i as int]));
        i = i + 1;
    }
}

/// Appends a string slice to `out`.
pub fn push_str(out: &mut String, s: &str)
    ensures
        final(out)@ == old(out)@ + s@,
{
    let cs = chars_of(s);
    push_range(out, &cs, 0, cs.len());
    assert(cs@.subrange(0, cs@.len() as int) == s@);
}

/// Whether `c` is an ASCII decimal digit.
pub fn is_digit_char(c: char) -> (r: bool)
    ensures
        r == is_digit(c),
{
    '0' <= c && c <= '9'
}

/// Whether `c` is an ASCII letter or digit.
pub fn is_alnum_char(c: char) -> (r: bool)
    ensures
        r == is_alnum(c),
{
    ('0' <= c && c <= '9') || ('a' <= c && c <= 'z') || ('A' <= c && c <= 'Z')
}

/// Whether `c` is white space, as `char::is_whitespace` tells.
pub fn is_space_char(c: char) -> (r: bool)
    ensures
        r == is_space(c),
{
    let u = c as u32;
    (0x09 <= u && u <= 0x0d) || u == 0x20 || u == 0x85 || u == 0xa0 || u == 0x1680
        || (0x2000 <= u && u <= 0x200a) || u == 0x2028 || u == 0x2029 || u == 0x202f
        || u == 0x205f || u == 0x3000
}

/// ASCII lower-casing of one character.
pub fn ascii_lower_char(c: char) -> (r: char)
    ensures
        r == ascii_lower(c),
{
    if 'A' <= c && c <= 'Z' {
        let u = (c as u32) + 32;
        let l = (u as u8) as char;
        assert(l == u as char);
        l
    } else {
        c
    }
}


/// ASCII lower-casing of a character vector.
pub fn lower_chars(cs: &Vec<char>) -> (r: Vec<char>)
    ensures
        r@ == lower(cs@),
{
    let mut out: Vec<char> = Vec::new();
    let mut i: usize = 0;
    while i < cs.len()
        invariant
            i <= cs@.len(),
            out@.len() == i,
            forall|j: int| 0 <= j < i ==> out@[j] == ascii_lower(cs@[j]),
        decreases cs.len() - i,
    {
        out.push(ascii_lower_char(cs[i]));
        i = i + 1;
    }
    assert(out@ == lower(cs@));
    out
}

/// Leading white space can be dropped before trimming the start.
pub proof fn lemma_trim_start_drop(s: Seq<char>, k: int)
    requires
        0 <= k <= s.len(),
        forall|j: int| 0 <= j < k ==> is_space(#[trigger] s[j]),
    ensures
        trim_start(s) == trim_start(s.subrange(k, s.len() as int)),
    decreases k,
{
    if k > 0 {
        assert(is_space(s[0]));
        let t = s.drop_first();
        assert forall|j: int| 0 <= j < k - 1 implies is_space(#[trigger] t[j]) by {
            assert(t[j] == s[j + 1]);
        }
        lemma_trim_start_drop(t, k - 1);
        assert(t.subrange(k - 1, t.len() as int) == s.subrange(k, s.len() as int));
    } else {
        assert(s.subrange(0, s.len() as int) == s);
    }
}

/// Trailing white space can be dropped before trimming the end.
pub proof fn lemma_trim_end_drop(s: Seq<char>, k: int)
    requires
        0 <= k <= s.len(),
        forall|j: int| k <= j < s.len() ==> is_space(#[trigger] s[j]),
    ensures
        trim_end(s) == trim_end(s.subrange(0, k)),
    decreases s.len() - k,
{
    if k < s.len() {
        assert(is_space(s.last()));
        let t = s.drop_last();
        assert forall|j: int| k <= j < t.len() implies is_space(#[trigger] t[j]) by {
            assert(t[j] == s[j]);
        }
        lemma_trim_end_drop(t, k);
        assert(t.subrange(0, k) == s.subrange(0, k));
    } else {
        assert(s.subrange(0, k) == s);
    }
}

/// The bounds `lo..hi` of `cs` that `trim` keeps.
pub fn trim_bounds(cs: &Vec<char>) -> (r: (usize, usize))
    ensures
        r.0 <= r.1 <= cs@.len(),
        cs@.subrange(r.0 as int, r.1 as int) == trim(cs@),
{
    let n = cs.len();
    let mut lo: usize = 0;
    while lo < n && is_space_char(cs[lo])
        invariant
            lo <= n == cs@.len(),
            forall|j: int| 0 <= j < lo ==> is_space(#[trigger] cs@[j]),
        decreases n - lo,
    {
        lo = lo + 1;
    }
    proof {
        lemma_trim_start_drop(cs@, lo as int);
    }
    let ghost rest = cs@.subrange(lo as int, n as int);
    assert(trim_start(rest) == rest);
    let mut hi: usize = n;
    while hi > lo && is_space_char(cs[hi - 1])
        invariant
            lo <= hi <= n == cs@.len(),
            rest == cs@.subrange(lo as int, n as int),
            forall|j: int| hi <= j < n ==> is_space(#[trigger] cs@[j]),
        decreases hi,
    {
        hi = hi - 1;
    }
    proof {
        assert forall|j: int| hi - lo <= j < rest.len() implies is_space(#[trigger] rest[j]) by {
            assert(rest[j] == cs@[lo + j]);
        }
        lemma_trim_end_drop(rest, hi - lo);
        assert(rest.subrange(0, hi - lo) == cs@.subrange(lo as int, hi as int));
        let u = cs@.subrange(lo as int, hi as int);
        if u.len() > 0 {
            assert(u.last() == cs@[hi - 1]);
        }
    }
    (lo, hi)
}

/// `str::trim` of a string slice.
pub fn trim_str(s: &str) -> (r: String)
    ensures
        r@ == trim(s@),
{
    let cs = chars_of(s);
    let (lo, hi) = trim_bounds(&cs);
    string_from(&cs, lo, hi)
}


/// Parse of an unsigned decimal integer bounded by `max`, as `u64::from_str`
/// (and its `usize` twin) reads it: an optional `+`, then one or more digits
/// whose value does not exceed `max`.
pub open spec fn parse_unsigned(s: Seq<char>, max: nat) -> Option<nat> {
    let body = if s.len() > 0 && s[0] == '+' { s.drop_first() } else { s };
    if body.len() > 0 && all_digits(body) && digits_value(body) <= max {
        Some(digits_value(body))
    } else {
        None
    }
}

/// A digit string is worth at least as much as any of its prefixes.
pub proof fn lemma_digits_prefix_le(s: Seq<char>, k: int)
    requires
        0 <= k <= s.len(),
    ensures
        all_digits(s) ==> digits_value(s.take(k)) <= digits_value(s),
    decreases s.len() - k,
{
    if k < s.len() && all_digits(s) {
        let t = s.drop_last();
        assert forall|i: int| 0 <= i < t.len() implies is_digit(#[trigger] t[i]) by {
            assert(t[i] == s[i]);
        }
        lemma_digits_prefix_le(t, k);
        assert(t.take(k) == s.take(k));
    } else {
        assert(s.take(k) == s || !all_digits(s));
    }
}

/// `10` to the power `k`.
pub open spec fn pow10(k: nat) -> nat
    decreases k,
{
    if k == 0 { 1 } else { 10 * pow10((k - 1) as nat) }
}

/// A number below `10^k` (or any `u64`, for `k == 20`) has at most `k`
/// decimal digits.
pub proof fn lemma_dec_len_le(n: nat, k: nat)
    requires
        k >= 1,
        n < pow10(k) || (k == 20 && n <= 0xffff_ffff_ffff_ffff),
    ensures
        dec(n).len() <= k,
    decreases k,
{
    if k == 20 {
        assert(pow10(20) == 100000000000000000000nat) by {
            reveal_with_fuel(pow10, 21);
        }
    }
    if n >= 10 {
        assert(n / 10 < pow10((k - 1) as nat));
        if k == 1 {
            assert(pow10(1) == 10) by { reveal_with_fuel(pow10, 2); }
        }
        lemma_dec_len_le(n / 10, (k - 1) as nat);
    }
}

/// The length of short decimal notations.
pub proof fn lemma_dec_len(n: nat)
    ensures
        1 <= dec(n).len(),
        n < 10 ==> dec(n).len() == 1,
        10 <= n < 100 ==> dec(n).len() == 2,
        100 <= n < 1000 ==> dec(n).len() == 3,
    decreases n,
{
    if n >= 10 {
        lemma_dec_len(n / 10);
    }
}

/// Appends the decimal notation of `n` to `out`.
pub fn push_dec(out: &mut String, n: u64)
    ensures
        final(out)@ == old(out)@ + dec(n as nat),
    decreases n,
{
    if n >= 10 {
        push_dec(out, n / 10);
    }
    let d = (n % 10) as u8;
    let c = (48u8 + d) as char;
    assert(c == digit_char((n % 10) as nat));
    push_char(out, c);
}

/// The number of characters in the decimal notation of `n`.
pub fn dec_len(n: u64) -> (r: usize)
    ensures
        r == dec(n as nat).len(),
        r <= 20,
    decreases n,
{
    proof {
        lemma_dec_len_le(n as nat, 20);
    }
    if n >= 10 {
        let k = dec_len(n / 10);
        k + 1
    } else {
        1
    }
}

/// Appends `n` in decimal, padded with zeros to at least `w` characters.
pub fn push_padded(out: &mut String, n: u64, w: usize)
    ensures
        final(out)@ == old(out)@ + padded(n as nat, w as nat),
{
    let k = dec_len(n);
    let ghost start = out@;
    if k < w {
        let mut i = k;
        while i < w
            invariant
                k <= i <= w,
                k == dec(n as nat).len(),
                out@ == start + Seq::new((i - k) as nat, |j: int| '0'),
            decreases w - i,
        {
            push_char(out, '0');
            assert(Seq::new((i + 1 - k) as nat, |j: int| '0') == Seq::new((i - k) as nat, |j: int| '0').push('0'));
            i = i + 1;
        }
    }
    push_dec(out, n);
    assert(out@ == start + padded(n as nat, w as nat));
}

/// Appends the decimal notation of a signed integer, as `i64::to_string` writes it.
pub fn push_int(out: &mut String, n: i64)
    ensures
        final(out)@ == old(out)@ + dec_int(n as int),
{
    if n < 0 {
        push_char(out, '-');
        let m: u64 = if n == i64::MIN { 9223372036854775808u64 } else { (-n) as u64 };
        push_dec(out, m);
        assert(old(out)@.push('-') + dec(m as nat) == old(out)@ + (seq!['-'] + dec(m as nat)));
    } else {
        push_dec(out, n as u64);
    }
}

/// Reads `cs[lo..hi]` with `parse_unsigned` for the bound `max`.
pub fn parse_unsigned_range(cs: &Vec<char>, lo: usize, hi: usize, max: u64) -> (r: Option<u64>)
    requires
        lo <= hi <= cs@.len(),
    ensures
        r is Some <==> parse_unsigned(cs@.subrange(lo as int, hi as int), max as nat) is Some,
        r matches Some(v) ==> parse_unsigned(cs@.subrange(lo as int, hi as int), max as nat) == Some(v as nat),
{
    let ghost s = cs@.subrange(lo as int, hi as int);
    let mut i = lo;
    if i < hi && cs[i] == '+' {
        i = i + 1;
    }
    let ghost body = cs@.subrange(i as int, hi as int);
    assert(body == (if s.len() > 0 && s[0] == '+' { s.drop_first() } else { s }));
    if i == hi {
        return None;
    }
    let start = i;
    let mut v: u64 = 0;
    while i < hi
        invariant
            lo <= start <= i <= hi <= cs@.len(),
            body == cs@.subrange(start as int, hi as int),
            s == cs@.subrange(lo as int, hi as int),
            body == (if s.len() > 0 && s[0] == '+' { s.drop_first() } else { s }),
            all_digits(cs@.subrange(start as int, i as int)),
            v == digits_value(cs@.subrange(start as int, i as int)),
            v <= max,
        decreases hi - i,
    {
        let c = cs[i];
        assert(cs@.subrange(start as int, i + 1) == cs@.subrange(start as int, i as int).push(c));
        assert(cs@.subrange(start as int, i + 1).drop_last() == cs@.subrange(start as int, i as int));
        if !is_digit_char(c) {
            assert(body[i - start] == c);
            assert(!all_digits(body));
            return None;
        }
        let d = (c as u32 - 48) as u64;
        assert(digits_value(cs@.subrange(start as int, i + 1)) == v * 10 + d);
        let next = match v.checked_mul(10) {
            Some(t) => t.checked_add(d),
            None => None,
        };
        let nv = match next {
            Some(u) => u,
            None => {
                proof {
                    lemma_digits_prefix_le(body, (i - start + 1) as int);
                    assert(body.take(i - start + 1) == cs@.subrange(start as int, i + 1));
                }
                return None;
            },
        };
        if nv > max {
            proof {
                lemma_digits_prefix_le(body, (i - start + 1) as int);
                assert(body.take(i - start + 1) == cs@.subrange(start as int, i + 1));
            }
            return None;
        }
        v = nv;
        i = i + 1;
    }
    assert(body == cs@.subrange(start as int, i as int));
    Some(v)
}


/// `trim_start` removes a prefix of white space and stops at a non-space character.
pub proof fn lemma_trim_start_shape(s: Seq<char>) -> (k: int)
    ensures
        0 <= k <= s.len(),
        trim_start(s) == s.subrange(k, s.len() as int),
        forall|j: int| 0 <= j < k ==> is_space(#[trigger] s[j]),
        k < s.len() ==> !is_space(s[k]),
    decreases s.len(),
{
    if s.len() > 0 && is_space(s[0]) {
        let t = s.drop_first();
        let k1 = lemma_trim_start_shape(t);
        assert(t.subrange(k1, t.len() as int) == s.subrange(k1 + 1, s.len() as int));
        assert forall|j: int| 0 <= j < k1 + 1 implies is_space(#[trigger] s[j]) by {
            if j > 0 {
                assert(s[j] == t[j - 1]);
            }
        }
        if k1 + 1 < s.len() {
            assert(s[k1 + 1] == t[k1]);
        }
        k1 + 1
    } else {
        assert(s.subrange(0, s.len() as int) == s);
        0
    }
}

/// `trim_end` removes a suffix of white space and stops at a non-space character.
pub proof fn lemma_trim_end_shape(s: Seq<char>) -> (k: int)
    ensures
        0 <= k <= s.len(),
        trim_end(s) == s.subrange(0, k),
        forall|j: int| k <= j < s.len() ==> is_space(#[trigger] s[j]),
        k > 0 ==> !is_space(s[k - 1]),
    decreases s.len(),
{
    if s.len() > 0 && is_space(s.last()) {
        let t = s.drop_last();
        let k1 = lemma_trim_end_shape(t);
        assert(t.subrange(0, k1) == s.subrange(0, k1));
        assert forall|j: int| k1 <= j < s.len() implies is_space(#[trigger] s[j]) by {
            if j < t.len() {
                assert(s[j] == t[j]);
            }
        }
        if k1 > 0 {
            assert(s[k1 - 1] == t[k1 - 1]);
        }
        k1
    } else {
        assert(s.subrange(0, s.len() as int) == s);
        s.len() as int
    }
}

/// The result of `trim` is a slice of its argument with no white space at either end.
pub proof fn lemma_trim_shape(s: Seq<char>) -> (r: (int, int))
    ensures
        0 <= r.0 <= r.1 <= s.len(),
        trim(s) == s.subrange(r.0, r.1),
        trim(s).len() > 0 ==> !is_space(trim(s)[0]) && !is_space(trim(s).last()),
{
    let a = lemma_trim_start_shape(s);
    let u = s.subrange(a, s.len() as int);
    let b = lemma_trim_end_shape(u);
    assert(u.subrange(0, b) == s.subrange(a, a + b));
    let t = trim(s);
    if t.len() > 0 {
        assert(t[0] == s[a]);
        assert(t.last() == u[b - 1]);
    }
    (a, a + b)
}

/// A string with no white space at either end is its own trim.
pub proof fn lemma_trim_fixed(s: Seq<char>)
    requires
        s.len() > 0 ==> !is_space(s[0]) && !is_space(s.last()),
    ensures
        trim(s) == s,
{
    assert(trim_start(s) == s);
    assert(trim_end(s) == s);
}

/// Whether `needle` occurs in `hay` at position `i`.
pub fn matches_at(hay: &Vec<char>, needle: &Vec<char>, i: usize) -> (r: bool)
    ensures
        r == occurs_at(hay@, needle@, i as int),
{
    if i > hay.len() || hay.len() - i < needle.len() {
        return false;
    }
    let mut k: usize = 0;
    while k < needle.len()
        invariant
            i + needle@.len() <= hay@.len(),
            hay@.len() <= usize::MAX,
            k <= needle@.len(),
            forall|j: int| 0 <= j < k ==> hay@[i + j] == needle@[j],
        decreases needle.len() - k,
    {
        if hay[i + k] != needle[k] {
            assert(hay@.subrange(i as int, i + needle@.len())[k as int] != needle@[k as int]);
            return false;
        }
        k = k + 1;
    }
    assert(hay@.subrange(i as int, i + needle@.len()) == needle@);
    true
}

/// The first position of `needle` in `hay`, as `str::find` reports it.
pub fn find(hay: &Vec<char>, needle: &Vec<char>) -> (r: Option<usize>)
    ensures
        r matches Some(i) ==> first_at(hay@, needle@, i as int),
        r is None ==> !contains(hay@, needle@),
{
    if needle.len() > hay.len() {
        return None;
    }
    let last = hay.len() - needle.len();
    let mut i: usize = 0;
    while i < last
        invariant
            i <= last,
            last + needle@.len() == hay@.len(),
            forall|j: int| 0 <= j < i ==> !occurs_at(hay@, needle@, j),
        decreases last - i,
    {
        if matches_at(hay, needle, i) {
            return Some(i);
        }
        i = i + 1;
    }
    if matches_at(hay, needle, last) {
        return Some(last);
    }
    assert forall|j: int| !occurs_at(hay@, needle@, j) by {
        if j > last {
            assert(j + needle@.len() > hay@.len());
        }
    }
    None
}

/// The first occurrence of a pattern is unique.
pub proof fn lemma_first_at_unique(hay: Seq<char>, needle: Seq<char>, i: int, j: int)
    requires
        first_at(hay, needle, i),
        first_at(hay, needle, j),
    ensures
        i == j,
{
    if i < j {
        assert(!occurs_at(hay, needle, i));
    }
    if j < i {
        assert(!occurs_at(hay, needle, j));
    }
}

/// Where a run of digits ends, `digit_run` stops.
pub proof fn lemma_digit_run(t: Seq<char>, e: int)
    requires
        0 <= e <= t.len(),
        forall|j: int| 0 <= j < e ==> is_digit(#[trigger] t[j]),
        e == t.len() || !is_digit(t[e]),
    ensures
        digit_run(t) == t.subrange(0, e),
    decreases e,
{
    if e > 0 {
        let u = t.drop_first();
        assert forall|j: int| 0 <= j < e - 1 implies is_digit(#[trigger] u[j]) by {
            assert(u[j] == t[j + 1]);
        }
        if e < t.len() {
            assert(u[e - 1] == t[e]);
        }
        lemma_digit_run(u, e - 1);
        assert(seq![t[0]] + u.subrange(0, e - 1) == t.subrange(0, e));
    } else {
        assert(t.subrange(0, 0) == Seq::<char>::empty());
    }
}

/// The end of the run of digits that starts at `i`.
pub fn digit_run_end(cs: &Vec<char>, i: usize) -> (e: usize)
    requires
        i <= cs@.len(),
    ensures
        i <= e <= cs@.len(),
        digit_run(cs@.subrange(i as int, cs@.len() as int)) == cs@.subrange(i as int, e as int),
        forall|j: int| i <= j < e ==> is_digit(#[trigger] cs@[j]),
        e == cs@.len() || !is_digit(cs@[e as int]),
{
    let mut e = i;
    while e < cs.len() && is_digit_char(cs[e])
        invariant
            i <= e <= cs@.len(),
            forall|j: int| i <= j < e ==> is_digit(#[trigger] cs@[j]),
        decreases cs.len() - e,
    {
        e = e + 1;
    }
    let ghost t = cs@.subrange(i as int, cs@.len() as int);
    assert forall|j: int| 0 <= j < e - i implies is_digit(#[trigger] t[j]) by {
        assert(t[j] == cs@[i + j]);
    }
    if e < cs.len() {
        assert(t[e - i] == cs@[e as int]);
    }
    proof {
        lemma_digit_run(t, e - i);
    }
    assert(t.subrange(0, e - i) == cs@.subrange(i as int, e as int));
    e
}

/// The view of an optional string.
pub open spec fn opt_view(o: Option<String>) -> Option<Seq<char>> {
    match o {
        Some(s) => Some(s@),
        None => None,
    }
}

/// An optional string, or `d` when it is absent.
pub open spec fn text_or(o: Option<String>, d: Seq<char>) -> Seq<char> {
    match o {
        Some(s) => s@,
        None => d,
    }
}

/// The string held, or a copy of `d` when there is none.
pub fn string_or(o: Option<String>, d: &str) -> (r: String)
    ensures
        r@ == text_or(o, d@),
{
    match o {
        Some(s) => s,
        None => {
            let mut r = String::new();
            push_str(&mut r, d);
            r
        },
    }
}

/// Whether two character vectors hold the same characters.
pub fn chars_eq(a: &Vec<char>, b: &Vec<char>) -> (r: bool)
    ensures
        r == (a@ == b@),
{
    if a.len() != b.len() {
        return false;
    }
    let mut i: usize = 0;
    while i < a.len()
        invariant
            a@.len() == b@.len(),
            i <= a@.len(),
            forall|j: int| 0 <= j < i ==> a@[j] == b@[j],
        decreases a.len() - i,
    {
        if a[i] != b[i] {
            return false;
        }
        i = i + 1;
    }
    assert(a@ == b@);
    true
}

/// Whether `hay` ends with `suffix`.
pub fn ends_with_chars(hay: &Vec<char>, suffix: &Vec<char>) -> (r: bool)
    ensures
        r == ends_with(hay@, suffix@),
{
    if suffix.len() > hay.len() {
        return false;
    }
    matches_at(hay, suffix, hay.len() - suffix.len())
}

/// Whether `hay` starts with `prefix`.
pub fn starts_with_chars(hay: &Vec<char>, prefix: &Vec<char>) -> (r: bool)
    ensures
        r == starts_with(hay@, prefix@),
{
    matches_at(hay, prefix, 0)
}


/// Joins `parts` with `sep` between consecutive parts.
pub open spec fn join(parts: Seq<Seq<char>>, sep: Seq<char>) -> Seq<char>
    decreases parts.len(),
{
    if parts.len() == 0 {
        Seq::empty()
    } else if parts.len() == 1 {
        parts[0]
    } else {
        join(parts.drop_last(), sep) + sep + parts.last()
    }
}

/// The pieces of `s` between line feeds (one more than there are line feeds).
pub open spec fn split_lf(s: Seq<char>) -> Seq<Seq<char>>
    decreases s.len(),
{
    if s.len() == 0 {
        seq![Seq::empty()]
    } else {
        let p = split_lf(s.drop_last());
        if s.last() == '\n' {
            p.push(Seq::empty())
        } else {
            p.update(p.len() - 1, p.last().push(s.last()))
        }
    }
}

/// The lines of `s`, as `str::lines` yields them but for the carriage return
/// that it takes off a line ending in `\r\n`: the pieces between line feeds,
/// without the empty piece after a final line feed.
pub open spec fn lf_lines(s: Seq<char>) -> Seq<Seq<char>> {
    let p = split_lf(s);
    if p.last().len() == 0 {
        p.drop_last()
    } else {
        p
    }
}

/// The text with trailing white space taken off every line, then trimmed as
/// a whole.
pub open spec fn tidy_lines(s: Seq<char>) -> Seq<char> {
    trim(join(trim_ends(lf_lines(s)), seq!['\n']))
}

/// Every piece without its trailing white space.
pub open spec fn trim_ends(ps: Seq<Seq<char>>) -> Seq<Seq<char>> {
    ps.map_values(|l: Seq<char>| trim_end(l))
}

proof fn lemma_trim_ends_push(ps: Seq<Seq<char>>, x: Seq<char>)
    ensures
        trim_ends(ps.push(x)) == trim_ends(ps).push(trim_end(x)),
        trim_ends(ps.push(x)).drop_last() == trim_ends(ps),
{
    assert(trim_ends(ps.push(x)) =~= trim_ends(ps).push(trim_end(x)));
    assert(trim_ends(ps.push(x)).drop_last() =~= trim_ends(ps));
}

proof fn lemma_split_lf_len(s: Seq<char>)
    ensures
        split_lf(s).len() >= 1,
    decreases s.len(),
{
    if s.len() > 0 {
        lemma_split_lf_len(s.drop_last());
    }
}

/// The end of `cs[lo..hi]` once trailing white space is removed.
pub fn trim_end_at(cs: &Vec<char>, lo: usize, hi: usize) -> (e: usize)
    requires
        lo <= hi <= cs@.len(),
    ensures
        lo <= e <= hi,
        cs@.subrange(lo as int, e as int) == trim_end(cs@.subrange(lo as int, hi as int)),
{
    let mut e = hi;
    while e > lo && is_space_char(cs[e - 1])
        invariant
            lo <= e <= hi <= cs@.len(),
            forall|j: int| e <= j < hi ==> is_space(#[trigger] cs@[j]),
        decreases e,
    {
        e = e - 1;
    }
    proof {
        let u = cs@.subrange(lo as int, hi as int);
        assert forall|j: int| e - lo <= j < u.len() implies is_space(#[trigger] u[j]) by {
            assert(u[j] == cs@[lo + j]);
        }
        lemma_trim_end_drop(u, e - lo);
        assert(u.subrange(0, e - lo) == cs@.subrange(lo as int, e as int));
        let w = cs@.subrange(lo as int, e as int);
        if w.len() > 0 {
            assert(w.last() == cs@[e - 1]);
        }
        assert(trim_end(w) == w);
    }
    e
}

/// Takes trailing white space off every line, then trims the whole text.
pub fn tidy_text(s: &str) -> (r: String)
    ensures
        r@ == tidy_lines(s@),
{
    let cs = chars_of(s);
    let mut out = String::new();
    let mut start: usize = 0;
    let mut i: usize = 0;
    let ghost mut done: Seq<Seq<char>> = Seq::empty();
    let mut any = false;
    assert(cs@.take(0) == Seq::<char>::empty());
    assert(cs@.subrange(0, 0) == Seq::<char>::empty());
    assert(split_lf(Seq::<char>::empty()) == done.push(Seq::<char>::empty()));
    while i < cs.len()
        invariant
            start <= i <= cs@.len(),
            split_lf(cs@.take(i as int)) == done.push(cs@.subrange(start as int, i as int)),
            out@ == join(trim_ends(done), seq!['\n']),
            any == (done.len() > 0),
        decreases cs.len() - i,
    {
        let c = cs[i];
        let ghost cur = cs@.subrange(start as int, i as int);
        assert(cs@.take(i + 1).drop_last() == cs@.take(i as int));
        assert(cs@.take(i + 1).last() == c);
        if c == '\n' {
            let e = trim_end_at(&cs, start, i);
            let ghost nd = done.push(cur);
            proof {
                lemma_trim_ends_push(done, cur);
            }
            if any {
                push_char(&mut out, '\n');
            }
            push_range(&mut out, &cs, start, e);
            proof {
                done = nd;
            }
            any = true;
            start = i + 1;
            assert(cs@.subrange(start as int, i + 1) == Seq::<char>::empty());
        } else {
            let ghost p = done.push(cur);
            assert(p.update(p.len() - 1, p.last().push(c)) == done.push(cur.push(c)));
            assert(cs@.subrange(start as int, i + 1) == cur.push(c));
        }
        i = i + 1;
    }
    assert(cs@.take(cs@.len() as int) == cs@);
    let ghost cur = cs@.subrange(start as int, cs@.len() as int);
    if start < cs.len() {
        let e = trim_end_at(&cs, start, cs.len());
        let ghost nd = done.push(cur);
        proof {
            lemma_trim_ends_push(done, cur);
        }
        if any {
            push_char(&mut out, '\n');
        }
        push_range(&mut out, &cs, start, e);
        assert(out@ == join(trim_ends(nd), seq!['\n']));
        assert(split_lf(s@) == nd);
        assert(nd.last() == cur);
        assert(lf_lines(s@) == nd);
    } else {
        assert(cur.len() == 0);
        assert(done.push(cur).drop_last() == done);
        assert(lf_lines(s@) == done);
    }
    trim_str(out.as_str())
}


/// The views of a vector of strings.
pub open spec fn views(v: Seq<String>) -> Seq<Seq<char>> {
    v.map_values(|s: String| s@)
}

/// The lines of a text, split at line feeds (see `lf_lines`).
pub fn text_lines(s: &str) -> (r: Vec<String>)
    ensures
        views(r@) == lf_lines(s@),
{
    let cs = chars_of(s);
    let mut out: Vec<String> = Vec::new();
    let mut start: usize = 0;
    let mut i: usize = 0;
    assert(cs@.take(0) == Seq::<char>::empty());
    assert(cs@.subrange(0, 0) == Seq::<char>::empty());
    assert(split_lf(Seq::<char>::empty()) == views(out@).push(Seq::<char>::empty()));
    while i < cs.len()
        invariant
            start <= i <= cs@.len(),
            split_lf(cs@.take(i as int)) == views(out@).push(cs@.subrange(start as int, i as int)),
        decreases cs.len() - i,
    {
        let c = cs[i];
        let ghost cur = cs@.subrange(start as int, i as int);
        let ghost done = views(out@);
        assert(cs@.take(i + 1).drop_last() == cs@.take(i as int));
        assert(cs@.take(i + 1).last() == c);
        if c == '\n' {
            let piece = string_from(&cs, start, i);
            out.push(piece);
            assert(views(out@) == done.push(cur));
            start = i + 1;
            assert(cs@.subrange(start as int, i + 1) == Seq::<char>::empty());
        } else {
            let ghost p = done.push(cur);
            assert(p.update(p.len() - 1, p.last().push(c)) == done.push(cur.push(c)));
            assert(cs@.subrange(start as int, i + 1) == cur.push(c));
        }
        i = i + 1;
    }
    assert(cs@.take(cs@.len() as int) == cs@);
    let ghost done = views(out@);
    let ghost cur = cs@.subrange(start as int, cs@.len() as int);
    if start < cs.len() {
        let piece = string_from(&cs, start, cs.len());
        out.push(piece);
        assert(views(out@) == done.push(cur));
    } else {
        assert(done.push(cur).drop_last() == done);
    }
    out
}


/// Decimal notation is made of digits and reads back as the number.
pub proof fn lemma_dec_digits(n: nat)
    ensures
        all_digits(dec(n)),
        digits_value(dec(n)) == n,
    decreases n,
{
    if n >= 10 {
        lemma_dec_digits(n / 10);
        let s = dec(n / 10);
        let c = digit_char(n % 10);
        assert(c as u32 == 48 + n % 10);
        assert(dec(n) == s.push(c));
        assert(s.push(c).drop_last() == s);
        assert(s.push(c).last() == c);
        assert(digits_value(s.push(c)) == digits_value(s) * 10 + ((c as u32) - 48) as nat);
        assert(digits_value(s) * 10 + ((c as u32) - 48) as nat == (n / 10) * 10 + n % 10);
        assert forall|i: int| 0 <= i < s.push(c).len() implies is_digit(#[trigger] s.push(c)[i]) by {
            if i < s.len() {
                assert(s.push(c)[i] == s[i]);
            }
        }
    } else {
        assert(digit_char(n) as u32 == 48 + n);
        assert(seq![digit_char(n)].drop_last() == Seq::<char>::empty());
        assert(digits_value(seq![digit_char(n)]) == digits_value(Seq::<char>::empty()) * 10 + ((digit_char(n) as u32) - 48) as nat);
    }
}

/// Zeros in front of a digit string leave its value unchanged.
pub proof fn lemma_leading_zeros(k: nat, x: Seq<char>)
    ensures
        digits_value(Seq::new(k, |i: int| '0') + x) == digits_value(x),
        all_digits(x) ==> all_digits(Seq::new(k, |i: int| '0') + x),
    decreases x.len() + k,
{
    let z = Seq::new(k, |i: int| '0');
    if x.len() > 0 {
        lemma_leading_zeros(k, x.drop_last());
        assert((z + x).drop_last() == z + x.drop_last());
        assert((z + x).last() == x.last());
    } else if k > 0 {
        let z1 = Seq::new((k - 1) as nat, |i: int| '0');
        lemma_leading_zeros((k - 1) as nat, x);
        assert(z + x == z);
        assert(z1 + x == z1);
        assert(z.drop_last() == z1);
    } else {
        assert(z + x == x);
    }
    if all_digits(x) {
        assert forall|i: int| 0 <= i < (z + x).len() implies is_digit(#[trigger] (z + x)[i]) by {
            if i >= k {
                assert((z + x)[i] == x[i - k]);
            }
        }
    }
}

/// A number below `10^k` has at most `k` decimal digits.
pub proof fn lemma_dec_len_bound(n: nat, k: nat)
    requires
        k >= 1,
        n < pow10(k),
    ensures
        dec(n).len() <= k,
    decreases k,
{
    if n >= 10 {
        if k == 1 {
            assert(pow10(1) == 10) by {
                reveal_with_fuel(pow10, 2);
            }
        } else {
            assert(n / 10 < pow10((k - 1) as nat));
            lemma_dec_len_bound(n / 10, (k - 1) as nat);
        }
    }
}

/// A number below `10^w`, padded to `w` digits, is `w` digits that read back as it.
pub proof fn lemma_padded(n: nat, w: nat)
    requires
        w >= 1,
        n < pow10(w),
    ensures
        padded(n, w).len() == w,
        all_digits(padded(n, w)),
        digits_value(padded(n, w)) == n,
{
    lemma_dec_len_bound(n, w);
    lemma_dec_digits(n);
    if dec(n).len() < w {
        lemma_leading_zeros((w - dec(n).len()) as nat, dec(n));
    }
}


/// Whether `s` holds no line feed.
pub open spec fn no_lf(s: Seq<char>) -> bool {
    forall|i: int| 0 <= i < s.len() ==> #[trigger] s[i] != '\n'
}

/// Text without line feeds, appended, extends the last piece.
pub proof fn lemma_split_lf_plain(s: Seq<char>, t: Seq<char>)
    requires
        no_lf(t),
    ensures
        split_lf(s + t) == split_lf(s).update(
            split_lf(s).len() - 1,
            split_lf(s).last() + t,
        ),
        split_lf(s + t).len() == split_lf(s).len(),
    decreases t.len(),
{
    lemma_split_lf_len(s);
    if t.len() == 0 {
        assert(s + t == s);
        assert(split_lf(s).last() + t == split_lf(s).last());
        assert(split_lf(s).update(split_lf(s).len() - 1, split_lf(s).last()) == split_lf(s));
    } else {
        let u = t.drop_last();
        assert(no_lf(u)) by {
            assert forall|i: int| 0 <= i < u.len() implies #[trigger] u[i] != '\n' by {
                assert(u[i] == t[i]);
            }
        }
        lemma_split_lf_plain(s, u);
        assert((s + t).drop_last() == s + u);
        assert((s + t).last() == t.last());
        assert(t.last() != '\n');
        let p = split_lf(s);
        let q = split_lf(s + u);
        assert(q.last() == p.last() + u);
        assert(q.last().push(t.last()) == p.last() + t);
        assert(q.update(q.len() - 1, q.last().push(t.last())) == p.update(p.len() - 1, p.last() + t));
    }
}

/// Joining line-feed-free pieces with line feeds and splitting again gives
/// the pieces back.
pub proof fn lemma_split_join(ps: Seq<Seq<char>>)
    requires
        ps.len() > 0,
        forall|i: int| 0 <= i < ps.len() ==> no_lf(#[trigger] ps[i]),
    ensures
        split_lf(join(ps, seq!['\n'])) == ps,
    decreases ps.len(),
{
    let e = Seq::<char>::empty();
    if ps.len() == 1 {
        assert(join(ps, seq!['\n']) == ps[0]);
        lemma_split_lf_plain(e, ps[0]);
        assert(e + ps[0] == ps[0]);
        assert(split_lf(e) == seq![e]);
        assert(seq![e].update(0, e + ps[0]) == ps);
    } else {
        let d = ps.drop_last();
        assert forall|i: int| 0 <= i < d.len() implies no_lf(#[trigger] d[i]) by {
            assert(d[i] == ps[i]);
        }
        lemma_split_join(d);
        let j = join(d, seq!['\n']);
        let jl = j + seq!['\n'];
        assert(jl.drop_last() == j);
        assert(jl.last() == '\n');
        assert(split_lf(jl) == d.push(e));
        assert(no_lf(ps.last()));
        lemma_split_lf_plain(jl, ps.last());
        assert(join(ps, seq!['\n']) == jl + ps.last());
        assert(d.push(e).update(d.len() as int, e + ps.last()) == ps);
    }
}

} // verus!
