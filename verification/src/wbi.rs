//! WBI request signing: the mixing key, the ordered query and its MD5 tag.

use vstd::prelude::*;
use crate::text::{chars_of, dec, dec_int, push_char, push_dec, push_int, push_str};

verus! {

/// The order in which the characters of the two WBI keys are mixed, as the
/// community documentation of the API gives it.
pub const MIXIN_TABLE: [usize; 64] = [
    46, 47, 18, 2, 53, 8, 23, 32, 15, 50, 10, 31, 58, 3, 45, 35, 27, 43, 5, 49, 33, 9, 42, 19, 29,
    28, 14, 39, 12, 38, 41, 13, 37, 48, 7, 16, 24, 55, 40, 61, 26, 17, 0, 1, 60, 51, 30, 4, 22, 25,
    54, 21, 56, 59, 6, 63, 57, 62, 11, 36, 20, 34, 44, 52,
];

/// The characters of `c` at the first `n` positions of the table, skipping
/// positions past its end.
pub open spec fn mixin_upto(c: Seq<char>, n: nat) -> Seq<char>
    decreases n,
{
    if n == 0 {
        Seq::empty()
    } else {
        let prev = mixin_upto(c, (n - 1) as nat);
        let t = MIXIN_TABLE@[n - 1] as int;
        if t < c.len() {
            prev.push(c[t])
        } else {
            prev
        }
    }
}

/// The mixing key of the two WBI keys.
pub open spec fn mixin_key(img_key: Seq<char>, sub_key: Seq<char>) -> Seq<char> {
    mixin_upto(img_key + sub_key, 32)
}

/// Every position of the table is below 64.
proof fn lemma_table_below_64(k: int)
    requires
        0 <= k < 64,
    ensures
        MIXIN_TABLE@[k] < 64,
{
    assert(MIXIN_TABLE@ =~= seq![
        46usize, 47, 18, 2, 53, 8, 23, 32, 15, 50, 10, 31, 58, 3, 45, 35, 27, 43, 5, 49, 33, 9, 42,
        19, 29, 28, 14, 39, 12, 38, 41, 13, 37, 48, 7, 16, 24, 55, 40, 61, 26, 17, 0, 1, 60, 51, 30,
        4, 22, 25, 54, 21, 56, 59, 6, 63, 57, 62, 11, 36, 20, 34, 44, 52,
    ]);
}

proof fn lemma_mixin_upto(c: Seq<char>, n: nat)
    requires
        n <= 64,
        c.len() >= 64,
    ensures
        mixin_upto(c, n).len() == n,
        forall|j: int| 0 <= j < n ==> #[trigger] mixin_upto(c, n)[j] == c[MIXIN_TABLE@[j] as int],
    decreases n,
{
    if n > 0 {
        lemma_mixin_upto(c, (n - 1) as nat);
        lemma_table_below_64(n - 1);
        let prev = mixin_upto(c, (n - 1) as nat);
        assert forall|j: int| 0 <= j < n implies #[trigger] mixin_upto(c, n)[j] == c[MIXIN_TABLE@[j] as int] by {
            if j < n - 1 {
                assert(mixin_upto(c, n)[j] == prev[j]);
            }
        }
    }
}

/// With two keys of 64 characters in all, the mixing key is 32 characters:
/// those at the first 32 positions of the table.
pub proof fn mixin_key_picks_table(img_key: Seq<char>, sub_key: Seq<char>)
    requires
        img_key.len() + sub_key.len() >= 64,
    ensures
        mixin_key(img_key, sub_key).len() == 32,
        forall|j: int|
            0 <= j < 32 ==> #[trigger] mixin_key(img_key, sub_key)[j] == (img_key + sub_key)[MIXIN_TABLE@[j] as int],
{
    lemma_mixin_upto(img_key + sub_key, 32);
}

/// Computes the mixing key of the two WBI keys.
pub fn mixin_key_of(img_key: &str, sub_key: &str) -> (r: String)
    ensures
        r@ == mixin_key(img_key@, sub_key@),
{
    let mut combined = chars_of(img_key);
    let sub = chars_of(sub_key);
    let mut k: usize = 0;
    while k < sub.len()
        invariant
            k <= sub@.len(),
            combined@ == img_key@ + sub@.take(k as int),
        decreases sub.len() - k,
    {
        combined.push(sub[k]);
        assert(sub@.take(k + 1) == sub@.take(k as int).push(sub@[k as int]));
        k = k + 1;
    }
    assert(sub@.take(sub@.len() as int) == sub@);
    let mut out = String::new();
    let mut j: usize = 0;
    while j < 32
        invariant
            j <= 32,
            combined@ == img_key@ + sub_key@,
            out@ == mixin_upto(combined@, j as nat),
        decreases 32 - j,
    {
        let t = MIXIN_TABLE[j];
        if t < combined.len() {
            push_char(&mut out, combined[t]);
        }
        j = j + 1;
    }
    out
}

/// Lower-case hexadecimal digit for `d < 16`.
pub open spec fn hex_digit(d: nat) -> char {
    if d < 10 {
        (48 + d) as char
    } else {
        (87 + d) as char
    }
}

/// Lower-case hexadecimal notation of a byte string, two digits per byte.
pub open spec fn hex_lower(b: Seq<u8>) -> Seq<char>
    decreases b.len(),
{
    if b.len() == 0 {
        Seq::empty()
    } else {
        hex_lower(b.drop_last()) + seq![
            hex_digit((b.last() / 16) as nat),
            hex_digit((b.last() % 16) as nat),
        ]
    }
}

fn hex_digit_char(d: u8) -> (c: char)
    requires
        d < 16,
    ensures
        c == hex_digit(d as nat),
{
    if d < 10 {
        (48u8 + d) as char
    } else {
        (87u8 + d) as char
    }
}

/// Lower-case hexadecimal notation of bytes.
pub fn to_hex_lower(b: &[u8]) -> (r: String)
    ensures
        r@ == hex_lower(b@),
        r@.len() == 2 * b@.len(),
        forall|i: int|
            0 <= i < b@.len() ==> r@[2 * i] == "0123456789abcdef"@[(#[trigger] b@[i] / 16) as int]
                && r@[2 * i + 1] == "0123456789abcdef"@[(b@[i] % 16) as int],
{
    let mut out = String::new();
    let mut i: usize = 0;
    while i < b.len()
        invariant
            i <= b@.len(),
            out@ == hex_lower(b@.take(i as int)),
        decreases b.len() - i,
    {
        let x = b[i];
        assert(b@.take(i + 1).drop_last() == b@.take(i as int));
        push_char(&mut out, hex_digit_char(x / 16));
        push_char(&mut out, hex_digit_char(x % 16));
        i = i + 1;
    }
    assert(b@.take(b@.len() as int) == b@);
    proof {
        hex_lower_nibbles(b@);
    }
    out
}

/// The value of a lower-case hexadecimal digit.
pub open spec fn hex_value(c: char) -> int {
    if '0' <= c && c <= '9' {
        (c as u32) - 48
    } else {
        (c as u32) - 87
    }
}

proof fn lemma_hex_digit_is_alphabet(d: nat)
    requires
        d < 16,
    ensures
        hex_digit(d) == "0123456789abcdef"@[d as int],
        hex_value("0123456789abcdef"@[d as int]) == d,
{
    reveal_strlit("0123456789abcdef");
    assert("0123456789abcdef"@ =~= seq![
        '0', '1', '2', '3', '4', '5', '6', '7', '8', '9', 'a', 'b', 'c', 'd', 'e', 'f',
    ]);
    if d == 0 {} else if d == 1 {} else if d == 2 {} else if d == 3 {} else if d == 4 {
    } else if d == 5 {} else if d == 6 {} else if d == 7 {} else if d == 8 {} else if d == 9 {
    } else if d == 10 {} else if d == 11 {} else if d == 12 {} else if d == 13 {
    } else if d == 14 {} else {}
}

/// Each byte is written as two lower-case hex digits, high nibble first: the
/// digit at `2 i` is the character of `0123456789abcdef` at the high nibble of
/// byte `i`, the digit at `2 i + 1` the one at its low nibble; so reading the
/// digits back as hex gives the bytes again.
pub proof fn hex_lower_nibbles(b: Seq<u8>)
    ensures
        hex_lower(b).len() == 2 * b.len(),
        forall|i: int|
            0 <= i < b.len() ==> hex_lower(b)[2 * i] == "0123456789abcdef"@[(#[trigger] b[i]
                / 16) as int] && hex_lower(b)[2 * i + 1] == "0123456789abcdef"@[(b[i] % 16) as int]
                && 16 * hex_value(hex_lower(b)[2 * i]) + hex_value(hex_lower(b)[2 * i + 1]) == b[i],
    decreases b.len(),
{
    if b.len() > 0 {
        let p = b.drop_last();
        hex_lower_nibbles(p);
        let x = b.last();
        lemma_hex_digit_is_alphabet((x / 16) as nat);
        lemma_hex_digit_is_alphabet((x % 16) as nat);
        let h = hex_lower(b);
        assert forall|i: int| 0 <= i < b.len() implies h[2 * i] == "0123456789abcdef"@[(
        #[trigger] b[i] / 16) as int] && h[2 * i + 1] == "0123456789abcdef"@[(b[i] % 16) as int]
            && 16 * hex_value(h[2 * i]) + hex_value(h[2 * i + 1]) == b[i] by {
            if i < b.len() - 1 {
                assert(b[i] == p[i]);
                assert(h[2 * i] == hex_lower(p)[2 * i]);
                assert(h[2 * i + 1] == hex_lower(p)[2 * i + 1]);
            } else {
                assert(b[i] == x);
                assert(h[2 * i] == hex_digit((x / 16) as nat));
                assert(h[2 * i + 1] == hex_digit((x % 16) as nat));
            }
        }
    }
}

/// Whether `c` is a lower-case hexadecimal digit.
pub open spec fn is_hex_lower(c: char) -> bool {
    ('0' <= c && c <= '9') || ('a' <= c && c <= 'f')
}

/// Hex notation has two lower-case hex digits per byte.
pub proof fn lemma_hex_lower_shape(b: Seq<u8>)
    ensures
        hex_lower(b).len() == 2 * b.len(),
        forall|i: int| 0 <= i < hex_lower(b).len() ==> is_hex_lower(#[trigger] hex_lower(b)[i]),
    decreases b.len(),
{
    if b.len() > 0 {
        lemma_hex_lower_shape(b.drop_last());
        let p = hex_lower(b.drop_last());
        let x = b.last();
        let hi = (x / 16) as nat;
        let lo = (x % 16) as nat;
        assert(hex_digit(hi) as u32 == if hi < 10 { 48 + hi } else { 87 + hi });
        assert(hex_digit(lo) as u32 == if lo < 10 { 48 + lo } else { 87 + lo });
        let q = seq![hex_digit(hi), hex_digit(lo)];
        assert forall|i: int| 0 <= i < (p + q).len() implies is_hex_lower(#[trigger] (p + q)[i]) by {
            if i >= p.len() {
                assert((p + q)[i] == q[i - p.len()]);
            } else {
                assert((p + q)[i] == p[i]);
            }
        }
    }
}

/// The MD5 digest of a byte string.
pub uninterp spec fn md5_of(data: Seq<u8>) -> Seq<u8>;

/// `md5::compute`: the 16-byte MD5 digest of the bytes.
#[verifier::external_body]
fn md5_digest(data: &[u8]) -> (r: [u8; 16])
    ensures
        r@ == md5_of(data@),
{
    md5::compute(data).0
}

/// The query of the subtitle call, its parameters in sorted order.
pub open spec fn wbi_query(aid: int, cid: int, bvid: Seq<char>, wts: nat) -> Seq<char> {
    "aid="@ + dec_int(aid) + "&bvid="@ + bvid + "&cid="@ + dec_int(cid) + "&wts="@ + dec(wts)
}

/// The MD5 digest that signs the query: that of the query followed by the
/// mixing key, as UTF-8 bytes.
pub open spec fn wbi_digest(
    aid: int,
    cid: int,
    bvid: Seq<char>,
    img_key: Seq<char>,
    sub_key: Seq<char>,
    wts: nat,
) -> Seq<u8> {
    md5_of(vstd::utf8::encode_utf8(wbi_query(aid, cid, bvid, wts) + mixin_key(img_key, sub_key)))
}

/// The signed query: the sorted parameters, then `w_rid`, the MD5 of the
/// query followed by the mixing key, in lower-case hex.
pub open spec fn wbi_signed(
    aid: int,
    cid: int,
    bvid: Seq<char>,
    img_key: Seq<char>,
    sub_key: Seq<char>,
    wts: nat,
) -> Seq<char> {
    let q = wbi_query(aid, cid, bvid, wts);
    q + "&w_rid="@ + hex_lower(md5_of(vstd::utf8::encode_utf8(q + mixin_key(img_key, sub_key))))
}

/// Signs the subtitle call for a video part at the time `wts` (seconds since
/// the Unix epoch).
pub fn wbi_signed_query(aid: i64, cid: i64, bvid: &str, img_key: &str, sub_key: &str, wts: u64) -> (r:
    String)
    ensures
        r@ == wbi_signed(aid as int, cid as int, bvid@, img_key@, sub_key@, wts as nat),
        r@.len() == wbi_query(aid as int, cid as int, bvid@, wts as nat).len() + 39,
        forall|i: int| r@.len() - 32 <= i < r@.len() ==> is_hex_lower(#[trigger] r@[i]),
        forall|j: int|
            0 <= j < 16 ==> r@[r@.len() - 32 + 2 * j] == "0123456789abcdef"@[(#[trigger] wbi_digest(
                aid as int,
                cid as int,
                bvid@,
                img_key@,
                sub_key@,
                wts as nat,
            )[j] / 16) as int] && r@[r@.len() - 32 + 2 * j + 1] == "0123456789abcdef"@[(wbi_digest(
                aid as int,
                cid as int,
                bvid@,
                img_key@,
                sub_key@,
                wts as nat,
            )[j] % 16) as int],
{
    let mixin = mixin_key_of(img_key, sub_key);
    let mut query = String::new();
    push_str(&mut query, "aid=");
    push_int(&mut query, aid);
    push_str(&mut query, "&bvid=");
    push_str(&mut query, bvid);
    push_str(&mut query, "&cid=");
    push_int(&mut query, cid);
    push_str(&mut query, "&wts=");
    push_dec(&mut query, wts);
    assert(query@ == wbi_query(aid as int, cid as int, bvid@, wts as nat));
    let mut to_hash = query.clone();
    push_str(&mut to_hash, mixin.as_str());
    let digest = md5_digest(to_hash.as_str().as_bytes());
    let tag = to_hex_lower(&digest);
    proof {
        lemma_hex_lower_shape(digest@);
        reveal_strlit("&w_rid=");
    }
    let mut out = query;
    push_str(&mut out, "&w_rid=");
    push_str(&mut out, tag.as_str());
    proof {
        let q = wbi_query(aid as int, cid as int, bvid@, wts as nat);
        assert(out@ == q + "&w_rid="@ + tag@);
        assert forall|i: int| out@.len() - 32 <= i < out@.len() implies is_hex_lower(#[trigger] out@[i]) by {
            assert(out@[i] == tag@[i - (out@.len() - 32)]);
        }
        let d = digest@;
        assert forall|j: int| 0 <= j < 16 implies out@[out@.len() - 32 + 2 * j]
            == "0123456789abcdef"@[(#[trigger] d[j] / 16) as int] && out@[out@.len() - 32 + 2 * j
            + 1] == "0123456789abcdef"@[(d[j] % 16) as int] by {
            assert(out@[out@.len() - 32 + 2 * j] == tag@[2 * j]);
            assert(out@[out@.len() - 32 + 2 * j + 1] == tag@[2 * j + 1]);
        }
    }
    out
}

} // verus!
