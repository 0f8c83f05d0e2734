use vstd::prelude::*;
use crate::error::BiliError;
use crate::text::{
    ascii_lower, ascii_lower_char, chars_of, digit_run, digit_run_end, find, first_at, is_alnum,
    is_alnum_char, is_digit, is_digit_char, lemma_first_at_unique, lower, lower_chars, occurs_at,
    parse_unsigned, parse_unsigned_range, string_from,
};

verus! {

/// `bv` (in either case) at `i`, followed by ten ASCII letters or digits.
pub open spec fn bv_at(s: Seq<char>, i: int) -> bool {
    &&& 0 <= i
    &&& i + 12 <= s.len()
    &&& ascii_lower(s[i]) == 'b'
    &&& ascii_lower(s[i + 1]) == 'v'
    &&& forall|j: int| i + 2 <= j < i + 12 ==> is_alnum(#[trigger] s[j])
}

/// `i` is the first position where `bv_at` holds.
pub open spec fn first_bv(s: Seq<char>, i: int) -> bool {
    bv_at(s, i) && forall|j: int| 0 <= j < i ==> !bv_at(s, j)
}

/// The BV id in `s`: the ten characters after the first `bv` that is
/// followed by ten ASCII letters or digits.
pub open spec fn bvid_of(s: Seq<char>) -> Option<Seq<char>> {
    if exists|i: int| first_bv(s, i) {
        let i = choose|i: int| first_bv(s, i);
        Some(s.subrange(i + 2, i + 12))
    } else {
        None
    }
}

/// Finds the BV id of a link or of a bare id.
pub fn extract_bvid(s: &str) -> (r: Option<String>)
    ensures
        r is Some <==> bvid_of(s@) is Some,
        r matches Some(id) ==> bvid_of(s@) == Some(id@),
{
    let cs = chars_of(s);
    let n = cs.len();
    let mut i: usize = 0;
    while i < n && n - i >= 12
        invariant
            n == cs@.len(),
            cs@ == s@,
            forall|j: int| 0 <= j < i ==> !bv_at(s@, j),
        decreases n - i,
    {
        if ascii_lower_char(cs[i]) == 'b' && ascii_lower_char(cs[i + 1]) == 'v' {
            let mut k = i + 2;
            while k < i + 12 && is_alnum_char(cs[k])
                invariant
                    i + 2 <= k <= i + 12 <= n,
                    n == cs@.len(),
                    forall|j: int| i + 2 <= j < k ==> is_alnum(#[trigger] cs@[j]),
                decreases i + 12 - k,
            {
                k = k + 1;
            }
            if k == i + 12 {
                assert(first_bv(s@, i as int));
                proof {
                    let c = choose|j: int| first_bv(s@, j);
                    if c < i {
                        assert(!bv_at(s@, c));
                    }
                    if c > i {
                        assert(!bv_at(s@, i as int));
                    }
                }
                return Some(string_from(&cs, i + 2, i + 12));
            }
            assert(!is_alnum(cs@[k as int]));
        }
        i = i + 1;
    }
    assert forall|j: int| !bv_at(s@, j) by {
        if j >= i {
            assert(j + 12 > s@.len());
        }
    }
    assert(!exists|j: int| first_bv(s@, j));
    None
}

/// `av` (in either case) at `i`, not glued to a preceding letter or digit,
/// and followed by at least one digit.
pub open spec fn av_at(s: Seq<char>, i: int) -> bool {
    &&& 0 <= i
    &&& i + 3 <= s.len()
    &&& ascii_lower(s[i]) == 'a'
    &&& ascii_lower(s[i + 1]) == 'v'
    &&& (i == 0 || !is_alnum(s[i - 1]))
    &&& is_digit(s[i + 2])
}

/// `i` is the first position where `av_at` holds.
pub open spec fn first_av(s: Seq<char>, i: int) -> bool {
    av_at(s, i) && forall|j: int| 0 <= j < i ==> !av_at(s, j)
}

/// The AV id in `s`: the number after the first `av` that starts a word and
/// is followed by digits, if that number fits in an `i64`.
pub open spec fn aid_of(s: Seq<char>) -> Option<nat> {
    if exists|i: int| first_av(s, i) {
        let i = choose|i: int| first_av(s, i);
        parse_unsigned(digit_run(s.subrange(i + 2, s.len() as int)), i64::MAX as nat)
    } else {
        None
    }
}

/// Finds the AV id of a link or of a bare id.
pub fn extract_aid(s: &str) -> (r: Option<i64>)
    ensures
        r is Some <==> aid_of(s@) is Some,
        r matches Some(v) ==> v >= 0 && aid_of(s@) == Some(v as nat),
{
    let cs = chars_of(s);
    let n = cs.len();
    let mut i: usize = 0;
    while i < n && n - i >= 3
        invariant
            n == cs@.len(),
            cs@ == s@,
            forall|j: int| 0 <= j < i ==> !av_at(s@, j),
        decreases n - i,
    {
        if ascii_lower_char(cs[i]) == 'a' && ascii_lower_char(cs[i + 1]) == 'v' && (i == 0
            || !is_alnum_char(cs[i - 1])) && is_digit_char(cs[i + 2]) {
            assert(first_av(s@, i as int));
            proof {
                let c = choose|j: int| first_av(s@, j);
                if c < i {
                    assert(!av_at(s@, c));
                }
                if c > i {
                    assert(!av_at(s@, i as int));
                }
            }
            let e = digit_run_end(&cs, i + 2);
            let r = parse_unsigned_range(&cs, i + 2, e, i64::MAX as u64);
            return match r {
                Some(v) => Some(v as i64),
                None => None,
            };
        }
        i = i + 1;
    }
    assert forall|j: int| !av_at(s@, j) by {
        if j >= i {
            assert(j + 3 > s@.len());
        }
    }
    assert(!exists|j: int| first_av(s@, j));
    None
}

/// The page number after the first occurrence of `pat` in the lower-cased
/// string, if the digits there read as a `usize`.
pub open spec fn page_after(s: Seq<char>, pat: Seq<char>) -> Option<nat> {
    if exists|i: int| first_at(lower(s), pat, i) {
        let i = choose|i: int| first_at(lower(s), pat, i);
        parse_unsigned(digit_run(s.subrange(i + pat.len(), s.len() as int)), usize::MAX as nat)
    } else {
        None
    }
}

/// The page a link asks for: after `?p=`, else after `&p=`.
pub open spec fn page_of(s: Seq<char>) -> Option<nat> {
    match page_after(s, seq!['?', 'p', '=']) {
        Some(p) => Some(p),
        None => page_after(s, seq!['&', 'p', '=']),
    }
}

fn page_after_exec(cs: &Vec<char>, low: &Vec<char>, pat: &Vec<char>) -> (r: Option<usize>)
    requires
        low@ == lower(cs@),
    ensures
        r is Some <==> page_after(cs@, pat@) is Some,
        r matches Some(p) ==> page_after(cs@, pat@) == Some(p as nat),
{
    match find(low, pat) {
        None => {
            assert(!exists|i: int| first_at(lower(cs@), pat@, i));
            None
        },
        Some(i) => {
            proof {
                let c = choose|j: int| first_at(lower(cs@), pat@, j);
                lemma_first_at_unique(lower(cs@), pat@, i as int, c);
            }
            assert(occurs_at(low@, pat@, i as int));
            let n = low.len();
            assert(n == cs@.len());
            let start = i + pat.len();
            let e = digit_run_end(cs, start);
            match parse_unsigned_range(cs, start, e, usize::MAX as u64) {
                Some(v) => Some(v as usize),
                None => None,
            }
        },
    }
}

/// Finds the page number of a link (`?p=` or `&p=`, in either case).
pub fn extract_page(s: &str) -> (r: Option<usize>)
    ensures
        r is Some <==> page_of(s@) is Some,
        r matches Some(p) ==> page_of(s@) == Some(p as nat),
{
    let cs = chars_of(s);
    let low = lower_chars(&cs);
    let q = chars_of("?p=");
    let a = chars_of("&p=");
    proof {
        reveal_strlit("?p=");
        reveal_strlit("&p=");
    }
    assert(q@ == seq!['?', 'p', '=']);
    assert(a@ == seq!['&', 'p', '=']);
    match page_after_exec(&cs, &low, &q) {
        Some(p) => Some(p),
        None => page_after_exec(&cs, &low, &a),
    }
}


/// What follows the last `/` (all of `s` when there is none).
pub open spec fn after_last_slash(s: Seq<char>) -> Seq<char>
    decreases s.len(),
{
    if s.len() == 0 {
        s
    } else if s.last() == '/' {
        Seq::empty()
    } else {
        after_last_slash(s.drop_last()).push(s.last())
    }
}

/// What precedes the first `.` (all of `s` when there is none).
pub open spec fn before_first_dot(s: Seq<char>) -> Seq<char>
    decreases s.len(),
{
    if s.len() == 0 {
        s
    } else if s[0] == '.' {
        Seq::empty()
    } else {
        seq![s[0]] + before_first_dot(s.drop_first())
    }
}

/// The key that a WBI image link names: its file name without extension.
pub open spec fn key_of(url: Seq<char>) -> Seq<char> {
    before_first_dot(after_last_slash(url))
}

proof fn lemma_after_last_slash(s: Seq<char>, k: int)
    requires
        0 <= k <= s.len(),
        k == 0 || s[k - 1] == '/',
        forall|j: int| k <= j < s.len() ==> #[trigger] s[j] != '/',
    ensures
        after_last_slash(s) == s.subrange(k, s.len() as int),
    decreases s.len(),
{
    if s.len() == k {
        if k > 0 {
            assert(s.last() == '/');
        }
        assert(s.subrange(k, k) == Seq::<char>::empty());
    } else {
        let t = s.drop_last();
        assert(s.last() != '/');
        if k > 0 {
            assert(t[k - 1] == s[k - 1]);
        }
        assert forall|j: int| k <= j < t.len() implies #[trigger] t[j] != '/' by {
            assert(t[j] == s[j]);
        }
        lemma_after_last_slash(t, k);
        assert(t.subrange(k, t.len() as int).push(s.last()) == s.subrange(k, s.len() as int));
    }
}

proof fn lemma_before_first_dot(s: Seq<char>, k: int)
    requires
        0 <= k <= s.len(),
        k == s.len() || s[k] == '.',
        forall|j: int| 0 <= j < k ==> #[trigger] s[j] != '.',
    ensures
        before_first_dot(s) == s.subrange(0, k),
    decreases k,
{
    if k == 0 {
        assert(s.subrange(0, 0) == Seq::<char>::empty());
    } else {
        let t = s.drop_first();
        assert(s[0] != '.');
        if k < s.len() {
            assert(t[k - 1] == s[k]);
        }
        assert forall|j: int| 0 <= j < k - 1 implies #[trigger] t[j] != '.' by {
            assert(t[j] == s[j + 1]);
        }
        lemma_before_first_dot(t, k - 1);
        assert(seq![s[0]] + t.subrange(0, k - 1) == s.subrange(0, k));
    }
}

/// The key of a WBI image link: its file name without extension; refused
/// when that is empty.
pub fn file_key(url: &str) -> (r: Result<String, BiliError>)
    ensures
        r is Err <==> key_of(url@).len() == 0,
        r matches Ok(k) ==> k@ == key_of(url@),
        r matches Err(e) ==> e matches BiliError::WbiKey { url: u } && u@ == url@,
{
    let cs = chars_of(url);
    let n = cs.len();
    let mut lo = n;
    while lo > 0 && cs[lo - 1] != '/'
        invariant
            lo <= n == cs@.len(),
            forall|j: int| lo <= j < n ==> #[trigger] cs@[j] != '/',
        decreases lo,
    {
        lo = lo - 1;
    }
    proof {
        lemma_after_last_slash(cs@, lo as int);
    }
    let ghost name = cs@.subrange(lo as int, n as int);
    let mut hi = lo;
    while hi < n && cs[hi] != '.'
        invariant
            lo <= hi <= n == cs@.len(),
            forall|j: int| lo <= j < hi ==> #[trigger] cs@[j] != '.',
        decreases n - hi,
    {
        hi = hi + 1;
    }
    proof {
        assert forall|j: int| 0 <= j < hi - lo implies #[trigger] name[j] != '.' by {
            assert(name[j] == cs@[lo + j]);
        }
        if hi < n {
            assert(name[hi - lo] == cs@[hi as int]);
        }
        lemma_before_first_dot(name, hi - lo);
        assert(name.subrange(0, hi - lo) == cs@.subrange(lo as int, hi as int));
    }
    if hi == lo {
        Err(BiliError::WbiKey { url: string_from(&cs, 0, n) })
    } else {
        Ok(string_from(&cs, lo, hi))
    }
}


/// A bare BV id (`BV` or `bv`, then ten letters or digits) is found as itself.
pub proof fn bare_bvid_found(p: Seq<char>, id: Seq<char>)
    requires
        p.len() == 2,
        ascii_lower(p[0]) == 'b',
        ascii_lower(p[1]) == 'v',
        id.len() == 10,
        forall|i: int| 0 <= i < 10 ==> is_alnum(#[trigger] id[i]),
    ensures
        bvid_of(p + id) == Some(id),
{
    let s = p + id;
    assert(bv_at(s, 0)) by {
        assert forall|j: int| 2 <= j < 12 implies is_alnum(#[trigger] s[j]) by {
            assert(s[j] == id[j - 2]);
        }
    }
    assert(first_bv(s, 0));
    let c = choose|i: int| first_bv(s, i);
    if c > 0 {
        assert(!bv_at(s, 0));
    }
    assert(s.subrange(2, 12) == id);
}

/// A BV id that is found is ten ASCII letters or digits taken from the input.
pub proof fn bvid_shape(s: Seq<char>)
    ensures
        bvid_of(s) matches Some(id) ==> id.len() == 10 && (forall|i: int|
            0 <= i < 10 ==> is_alnum(#[trigger] id[i])) && exists|k: int|
            0 <= k && k + 10 <= s.len() && id == #[trigger] s.subrange(k, k + 10),
{
    if exists|i: int| first_bv(s, i) {
        let i = choose|i: int| first_bv(s, i);
        let id = s.subrange(i + 2, i + 12);
        assert(id == s.subrange(i + 2, (i + 2) + 10));
        assert forall|j: int| 0 <= j < 10 implies is_alnum(#[trigger] id[j]) by {
            assert(id[j] == s[i + 2 + j]);
        }
    }
}

/// A bare AV id (`av` in either case, then a number that fits in an `i64`)
/// is found as that number.
pub proof fn bare_aid_found(p: Seq<char>, n: nat)
    requires
        p.len() == 2,
        ascii_lower(p[0]) == 'a',
        ascii_lower(p[1]) == 'v',
        n <= i64::MAX,
    ensures
        aid_of(p + crate::text::dec(n)) == Some(n),
{
    let d = crate::text::dec(n);
    crate::text::lemma_dec_digits(n);
    crate::text::lemma_dec_len(n);
    let s = p + d;
    assert(s[2] == d[0]);
    assert(is_digit(d[0]));
    assert(av_at(s, 0));
    assert(first_av(s, 0));
    let c = choose|i: int| first_av(s, i);
    if c > 0 {
        assert(!av_at(s, 0));
    }
    let t = s.subrange(2, s.len() as int);
    assert(t == d);
    crate::text::lemma_digit_run(t, t.len() as int);
    assert(t.subrange(0, t.len() as int) == t);
    assert(d[0] != '+');
}

/// A link whose only `?` starts `?p=N` asks for part N.
pub proof fn page_param_found(base: Seq<char>, n: nat)
    requires
        forall|i: int| 0 <= i < base.len() ==> #[trigger] base[i] != '?',
        n <= usize::MAX,
    ensures
        page_of(base + seq!['?', 'p', '='] + crate::text::dec(n)) == Some(n),
{
    let d = crate::text::dec(n);
    crate::text::lemma_dec_digits(n);
    crate::text::lemma_dec_len(n);
    let pat = seq!['?', 'p', '='];
    let s = base + pat + d;
    let l = lower(s);
    let k = base.len() as int;
    assert(l.subrange(k, k + 3) == pat) by {
        assert(l[k] == ascii_lower(s[k]));
        assert(s[k] == '?');
        assert(l[k + 1] == ascii_lower(s[k + 1]));
        assert(s[k + 1] == 'p');
        assert(l[k + 2] == ascii_lower(s[k + 2]));
        assert(s[k + 2] == '=');
    }
    assert(first_at(l, pat, k)) by {
        assert forall|j: int| 0 <= j < k implies !occurs_at(l, pat, j) by {
            assert(l[j] == ascii_lower(s[j]));
            assert(s[j] == base[j]);
            assert(l.subrange(j, j + 3)[0] == l[j]);
        }
    }
    let c = choose|i: int| first_at(l, pat, i);
    crate::text::lemma_first_at_unique(l, pat, k, c);
    let t = s.subrange(k + 3, s.len() as int);
    assert(t == d);
    crate::text::lemma_digit_run(t, t.len() as int);
    assert(t.subrange(0, t.len() as int) == t);
    assert(d[0] != '+');
}

/// The key of a link `.../name.ext` is `name`, when `name` holds no `/` or
/// `.` and `ext` holds no `/`.
pub proof fn key_of_link(dir: Seq<char>, name: Seq<char>, ext: Seq<char>)
    requires
        forall|i: int| 0 <= i < name.len() ==> #[trigger] name[i] != '/' && name[i] != '.',
        forall|i: int| 0 <= i < ext.len() ==> #[trigger] ext[i] != '/',
    ensures
        key_of(dir + seq!['/'] + name + seq!['.'] + ext) == name,
{
    let rest = name + seq!['.'] + ext;
    let s = dir + seq!['/'] + rest;
    let k: int = dir.len() as int + 1;
    assert(s[k - 1] == '/');
    assert forall|j: int| k <= j < s.len() implies #[trigger] s[j] != '/' by {
        assert(s[j] == rest[j - k]);
        if j - k < name.len() {
            assert(rest[j - k] == name[j - k]);
        } else if j - k > name.len() {
            assert(rest[j - k] == ext[j - k - name.len() - 1]);
        }
    }
    lemma_after_last_slash(s, k);
    assert(s.subrange(k, s.len() as int) == rest);
    assert forall|j: int| 0 <= j < name.len() implies #[trigger] rest[j] != '.' by {
        assert(rest[j] == name[j]);
    }
    lemma_before_first_dot(rest, name.len() as int);
    assert(rest.subrange(0, name.len() as int) == name);
    assert(s =~= dir + seq!['/'] + name + seq!['.'] + ext);
}

} // verus!
