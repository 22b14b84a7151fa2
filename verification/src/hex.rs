//! Lower-case hex encoding of bytes, and the matching decoder. The decoder
//! reads a string two bytes of its UTF-8 encoding at a time and parses each
//! pair the way `u8::from_str_radix(pair, 16)` does, so it accepts upper-
//! and lower-case digits and also a `+` sign in front of a single digit.

use vstd::prelude::*;
use vstd::utf8::*;

use crate::text::push_char;

verus! {

/// The lower-case hex digit for `n < 16`.
pub open spec fn hex_digit(n: nat) -> char {
    if n < 10 {
        ((n + 48) as u8) as char
    } else {
        ((n + 87) as u8) as char
    }
}

/// The two lower-case hex digits of every byte, in order (`{b:02x}`).
pub open spec fn hex_chars(b: Seq<u8>) -> Seq<char>
    decreases b.len(),
{
    if b.len() == 0 {
        Seq::empty()
    } else {
        hex_chars(b.drop_last()).push(hex_digit(b.last() as nat / 16)).push(
            hex_digit(b.last() as nat % 16),
        )
    }
}

fn hex_digit_exec(n: u8) -> (c: char)
    requires
        n < 16,
    ensures
        c == hex_digit(n as nat),
{
    if n < 10 {
        (n + 48) as char
    } else {
        (n + 87) as char
    }
}

/// Encodes bytes as lower-case hex, two digits per byte.
pub fn encode_hex(bytes: &[u8]) -> (s: String)
    ensures
        s@ == hex_chars(bytes@),
{
    let mut s = String::new();
    let mut i: usize = 0;
    while i < bytes.len()
        invariant
            i <= bytes@.len(),
            s@ == hex_chars(bytes@.take(i as int)),
        decreases bytes.len() - i,
    {
        let b = bytes[i];
        proof {
            assert(bytes@.take(i + 1).drop_last() == bytes@.take(i as int));
            assert(bytes@.take(i + 1).last() == b);
        }
        push_char(&mut s, hex_digit_exec(b / 16));
        push_char(&mut s, hex_digit_exec(b % 16));
        i = i + 1;
    }
    assert(bytes@.take(bytes@.len() as int) == bytes@);
    s
}

/// The value of an ASCII hex digit byte, either case.
pub open spec fn hex_value(x: u8) -> Option<nat> {
    if 48 <= x <= 57 {
        Some((x - 48) as nat)
    } else if 97 <= x <= 102 {
        Some((x - 87) as nat)
    } else if 65 <= x <= 70 {
        Some((x - 55) as nat)
    } else {
        None
    }
}

/// What `u8::from_str_radix(_, 16)` gives for a two-byte string: a `+`
/// followed by one digit, or two digits.
pub open spec fn pair_value(x: u8, y: u8) -> Option<u8> {
    if x == 43 {
        match hex_value(y) {
            Some(v) => Some(v as u8),
            None => None,
        }
    } else {
        match (hex_value(x), hex_value(y)) {
            (Some(a), Some(b)) => Some((a * 16 + b) as u8),
            _ => None,
        }
    }
}

/// How decoding a byte string from a given offset turns out.
pub enum HexScan {
    /// Slicing the string two bytes at a time would cut a character apart.
    Panic,
    /// Some pair is not a hex number.
    Fail,
    /// The decoded bytes.
    Bytes(Seq<u8>),
}

/// Decoding pairs from offset `i` on (the length is even): a pair whose
/// bounds are not character boundaries panics, a pair that is not a hex
/// number stops decoding with an error.
pub open spec fn hex_scan_from(b: Seq<u8>, i: int) -> HexScan
    decreases b.len() - i,
{
    if i < 0 || i + 1 >= b.len() {
        HexScan::Bytes(Seq::empty())
    } else if is_continuation_byte(b[i]) || (i + 2 < b.len() && is_continuation_byte(b[i + 2])) {
        HexScan::Panic
    } else {
        match pair_value(b[i], b[i + 1]) {
            None => HexScan::Fail,
            Some(v) => match hex_scan_from(b, i + 2) {
                HexScan::Bytes(r) => HexScan::Bytes(seq![v] + r),
                other => other,
            },
        }
    }
}

/// Why a hex string was rejected.
#[derive(Clone, Copy, Debug, PartialEq, Eq)]
pub enum HexError {
    OddLength,
    InvalidDigit,
}

/// The outcome of decoding the UTF-8 bytes `b` of a string.
pub open spec fn hex_outcome(b: Seq<u8>) -> Option<Result<Seq<u8>, HexError>> {
    if b.len() % 2 == 1 {
        Some(Err(HexError::OddLength))
    } else {
        match hex_scan_from(b, 0) {
            HexScan::Panic => None,
            HexScan::Fail => Some(Err(HexError::InvalidDigit)),
            HexScan::Bytes(r) => Some(Ok(r)),
        }
    }
}

/// Decoding `s` would slice a character apart, where the slicing decoder
/// this follows panics.
pub open spec fn hex_panics(s: Seq<char>) -> bool {
    hex_outcome(encode_utf8(s)) is None
}

/// What decoding the string `s` gives.
pub open spec fn hex_decoded(s: Seq<char>) -> Result<Seq<u8>, HexError> {
    hex_outcome(encode_utf8(s))->0
}

fn hex_value_exec(x: u8) -> (r: Option<u8>)
    ensures
        r matches Some(v) ==> hex_value(x) == Some(v as nat),
        r is None ==> hex_value(x) is None,
{
    if 48 <= x && x <= 57 {
        Some(x - 48)
    } else if 97 <= x && x <= 102 {
        Some(x - 87)
    } else if 65 <= x && x <= 70 {
        Some(x - 55)
    } else {
        None
    }
}

fn pair_value_exec(x: u8, y: u8) -> (r: Option<u8>)
    ensures
        r == pair_value(x, y),
{
    if x == 43 {
        hex_value_exec(y)
    } else {
        match (hex_value_exec(x), hex_value_exec(y)) {
            (Some(a), Some(b)) => Some(a * 16 + b),
            _ => None,
        }
    }
}

fn is_continuation_exec(x: u8) -> (r: bool)
    ensures
        r == is_continuation_byte(x),
{
    let r = x & 0xc0 == 0x80;
    assert(r == is_continuation_byte(x)) by (bit_vector)
        requires
            r == (x & 0xc0 == 0x80),
    ;
    r
}

spec fn prepend(p: Seq<u8>, s: HexScan) -> HexScan {
    match s {
        HexScan::Bytes(r) => HexScan::Bytes(p + r),
        other => other,
    }
}

/// Whether decoding `s` two bytes at a time would cut a character apart
/// (what a caller checks before `decode_hex`).
pub fn hex_would_panic(s: &str) -> (r: bool)
    ensures
        r == hex_panics(s@),
{
    let b = s.as_bytes();
    let n = b.len();
    if n % 2 == 1 {
        return false;
    }
    let mut i: usize = 0;
    let ghost mut acc: Seq<u8> = Seq::empty();
    assert(prepend(Seq::empty(), hex_scan_from(b@, 0)) =~= hex_scan_from(b@, 0)) by {
        match hex_scan_from(b@, 0) {
            HexScan::Bytes(r) => {
                assert(Seq::<u8>::empty() + r =~= r);
            },
            _ => {},
        }
    }
    while i < n
        invariant
            n == b@.len(),
            n % 2 == 0,
            i % 2 == 0,
            i <= n,
            b@ == encode_utf8(s@),
            hex_scan_from(b@, 0) == prepend(acc, hex_scan_from(b@, i as int)),
        decreases n - i,
    {
        let bad = is_continuation_exec(b[i]) || (i + 2 < n && is_continuation_exec(b[i + 2]));
        if bad {
            assert(hex_scan_from(b@, i as int) == HexScan::Panic);
            return true;
        }
        match pair_value_exec(b[i], b[i + 1]) {
            None => {
                assert(hex_scan_from(b@, i as int) == HexScan::Fail);
                return false;
            },
            Some(v) => {
                proof {
                    let before = acc;
                    acc = acc.push(v);
                    match hex_scan_from(b@, i + 2) {
                        HexScan::Bytes(r) => {
                            assert(before + (seq![v] + r) =~= acc + r);
                        },
                        _ => {},
                    }
                }
                i = i + 2;
            },
        }
    }
    assert(hex_scan_from(b@, i as int) == HexScan::Bytes(Seq::empty()));
    false
}

/// Decodes a hex string two UTF-8 bytes at a time.
pub fn decode_hex(s: &str) -> (r: Result<Vec<u8>, HexError>)
    requires
        !hex_panics(s@),
    ensures
        r matches Ok(v) ==> hex_decoded(s@) == Ok::<Seq<u8>, HexError>(v@),
        r matches Err(e) ==> hex_decoded(s@) == Err::<Seq<u8>, HexError>(e),
{
    let b = s.as_bytes();
    let n = b.len();
    if n % 2 == 1 {
        return Err(HexError::OddLength);
    }
    let mut out: Vec<u8> = Vec::new();
    let mut i: usize = 0;
    assert(prepend(Seq::empty(), hex_scan_from(b@, 0)) =~= hex_scan_from(b@, 0)) by {
        match hex_scan_from(b@, 0) {
            HexScan::Bytes(r) => {
                assert(Seq::<u8>::empty() + r =~= r);
            },
            _ => {},
        }
    }
    while i < n
        invariant
            n == b@.len(),
            n % 2 == 0,
            i % 2 == 0,
            i <= n,
            b@ == encode_utf8(s@),
            hex_scan_from(b@, 0) == prepend(out@, hex_scan_from(b@, i as int)),
            hex_scan_from(b@, 0) != HexScan::Panic,
        decreases n - i,
    {
        let bad = is_continuation_exec(b[i]) || (i + 2 < n && is_continuation_exec(b[i + 2]));
        if bad {
            assert(hex_scan_from(b@, i as int) == HexScan::Panic);
            assert(false);
        }
        match pair_value_exec(b[i], b[i + 1]) {
            None => {
                assert(hex_scan_from(b@, i as int) == HexScan::Fail);
                return Err(HexError::InvalidDigit);
            },
            Some(v) => {
                let ghost before = out@;
                out.push(v);
                proof {
                    match hex_scan_from(b@, i + 2) {
                        HexScan::Bytes(r) => {
                            assert(before + (seq![v] + r) =~= out@ + r);
                        },
                        _ => {},
                    }
                }
                i = i + 2;
            },
        }
    }
    assert(hex_scan_from(b@, i as int) == HexScan::Bytes(Seq::empty()));
    assert(out@ + Seq::<u8>::empty() =~= out@);
    Ok(out)
}

// ---------------------------------------------------------------------------
// Encoding then decoding gives the bytes back
// ---------------------------------------------------------------------------

pub open spec fn is_hex_ascii(c: char) -> bool {
    ('0' <= c && c <= '9') || ('a' <= c && c <= 'f')
}

pub proof fn lemma_hex_chars_len(b: Seq<u8>)
    ensures
        hex_chars(b).len() == 2 * b.len(),
    decreases b.len(),
{
    if b.len() > 0 {
        lemma_hex_chars_len(b.drop_last());
    }
}

/// The `k`-th pair of `hex_chars(b)` spells byte `k`.
proof fn lemma_hex_chars_index(b: Seq<u8>, k: int)
    requires
        0 <= k < b.len(),
    ensures
        hex_chars(b).len() == 2 * b.len(),
        hex_chars(b)[2 * k] == hex_digit(b[k] as nat / 16),
        hex_chars(b)[2 * k + 1] == hex_digit(b[k] as nat % 16),
    decreases b.len(),
{
    lemma_hex_chars_len(b);
    lemma_hex_chars_len(b.drop_last());
    if k < b.len() - 1 {
        lemma_hex_chars_index(b.drop_last(), k);
    }
}

/// Every character of a hex encoding is an ASCII hex digit.
pub proof fn lemma_hex_chars_ascii(b: Seq<u8>)
    ensures
        forall|i: int| 0 <= i < hex_chars(b).len() ==> is_hex_ascii(#[trigger] hex_chars(b)[i]),
        is_ascii_chars(hex_chars(b)),
        forall|i: int| 0 <= i < hex_chars(b).len() ==> #[trigger] hex_chars(b)[i] != ':',
    decreases b.len(),
{
    lemma_hex_chars_len(b);
    assert forall|i: int| 0 <= i < hex_chars(b).len() implies is_hex_ascii(
        #[trigger] hex_chars(b)[i],
    ) by {
        let k = i / 2;
        lemma_hex_chars_index(b, k);
        let hi = b[k] as nat / 16;
        let lo = b[k] as nat % 16;
        assert(hi < 16 && lo < 16);
        if i % 2 == 0 {
            assert(i == 2 * k);
        } else {
            assert(i == 2 * k + 1);
        }
    }
}

proof fn lemma_hex_digit_byte(n: nat)
    requires
        n < 16,
    ensures
        hex_value(hex_digit(n) as u8) == Some(n),
        !is_continuation_byte(hex_digit(n) as u8),
        hex_digit(n) as u8 != 43,
{
    let x: u8 = if n < 10 {
        (n + 48) as u8
    } else {
        (n + 87) as u8
    };
    assert(hex_digit(n) == x as char);
    assert((x as char) as u8 == x);
    assert(!is_continuation_byte(x)) by (bit_vector)
        requires
            x < 128,
    ;
}

/// Decoding the lower-case hex encoding of `b` gives `b` back.
pub proof fn lemma_hex_round_trip(b: Seq<u8>)
    ensures
        !hex_panics(hex_chars(b)),
        hex_decoded(hex_chars(b)) == Ok::<Seq<u8>, HexError>(b),
{
    let h = hex_chars(b);
    lemma_hex_chars_ascii(b);
    lemma_hex_chars_len(b);
    is_ascii_chars_encode_utf8(h);
    let e = encode_utf8(h);
    assert(e.len() == 2 * b.len());
    assert forall|i: int| 0 <= i < b.len() implies e[2 * i] == hex_digit(
        #[trigger] b[i] as nat / 16,
    ) as u8 && e[2 * i + 1] == hex_digit(b[i] as nat % 16) as u8 by {
        lemma_hex_chars_index(b, i);
        assert(e[2 * i] == h[2 * i] as u8);
        assert(e[2 * i + 1] == h[2 * i + 1] as u8);
    }
    lemma_scan_suffix(b, e, 0);
    assert(b.skip(0) == b);
    assert(e.len() % 2 == 0);
}

proof fn lemma_scan_suffix(b: Seq<u8>, e: Seq<u8>, k: int)
    requires
        0 <= k <= b.len(),
        e.len() == 2 * b.len(),
        forall|i: int|
            0 <= i < b.len() ==> e[2 * i] == hex_digit(#[trigger] b[i] as nat / 16) as u8 && e[2
                * i + 1] == hex_digit(b[i] as nat % 16) as u8,
    ensures
        hex_scan_from(e, 2 * k) == HexScan::Bytes(b.skip(k)),
    decreases b.len() - k,
{
    if k == b.len() {
        assert(b.skip(k) =~= Seq::<u8>::empty());
    } else {
        let hi = b[k] as nat / 16;
        let lo = b[k] as nat % 16;
        lemma_hex_digit_byte(hi);
        lemma_hex_digit_byte(lo);
        if k + 1 < b.len() {
            let hi2 = b[k + 1] as nat / 16;
            lemma_hex_digit_byte(hi2);
            assert(e[2 * (k + 1)] == hex_digit(hi2) as u8);
            assert(2 * k + 2 == 2 * (k + 1));
        }
        assert(pair_value(e[2 * k], e[2 * k + 1]) == Some(b[k])) by {
            assert(hi * 16 + lo == b[k] as nat);
        }
        lemma_scan_suffix(b, e, k + 1);
        assert(2 * k + 2 == 2 * (k + 1));
        assert(seq![b[k]] + b.skip(k + 1) =~= b.skip(k));
    }
}

} // verus!
