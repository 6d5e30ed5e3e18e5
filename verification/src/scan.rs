//! Byte-level scanning helpers shared by the request parser and the
//! response serializer: finding and splitting on separators, decimal
//! digit strings, and exact equality of byte and character sequences.

use vstd::prelude::*;
use vstd::slice::{slice_subrange, slice_to_vec};
use vstd::utf8::{decode_utf8, encode_utf8_decode_utf8, valid_utf8};

verus! {

/// A two-byte separator `b0 b1` occurs in `s` at position `i`.
pub open spec fn pair_at(s: Seq<u8>, b0: u8, b1: u8, i: int) -> bool {
    0 <= i && i + 2 <= s.len() && s[i] == b0 && s[i + 1] == b1
}

/// Position of the first occurrence of the two-byte separator `b0 b1` in `s`.
pub open spec fn spec_find_pair(s: Seq<u8>, b0: u8, b1: u8) -> Option<int>
    decreases s.len(),
{
    if s.len() < 2 {
        None
    } else if s[0] == b0 && s[1] == b1 {
        Some(0int)
    } else {
        match spec_find_pair(s.skip(1), b0, b1) {
            Some(i) => Some(i + 1),
            None => None,
        }
    }
}

/// `spec_find_pair` returns the least occurrence position, or `None` when
/// the separator does not occur at all.
pub proof fn lemma_find_pair(s: Seq<u8>, b0: u8, b1: u8)
    ensures
        match spec_find_pair(s, b0, b1) {
            Some(i) => pair_at(s, b0, b1, i) && (forall|j: int| 0 <= j < i ==> !pair_at(s, b0, b1, j)),
            None => forall|j: int| !pair_at(s, b0, b1, j),
        },
    decreases s.len(),
{
    if s.len() < 2 {
    } else if s[0] == b0 && s[1] == b1 {
    } else {
        lemma_find_pair(s.skip(1), b0, b1);
        assert(forall|k: int| 0 <= k < s.skip(1).len() ==> s.skip(1)[k] == s[k + 1]);
        assert forall|j: int| 1 <= j && pair_at(s, b0, b1, j) implies pair_at(s.skip(1), b0, b1, j - 1) by {
            assert(s.skip(1)[j - 1] == s[j]);
            assert(s.skip(1)[j] == s[j + 1]);
        }
    }
}

/// Index of the first occurrence of the separator `b0 b1` in `s`, if any.
pub fn find_pair(s: &[u8], b0: u8, b1: u8) -> (r: Option<usize>)
    ensures
        match r {
            Some(i) => spec_find_pair(s@, b0, b1) == Some(i as int),
            None => spec_find_pair(s@, b0, b1) is None,
        },
{
    let len = s.len();
    if len < 2 {
        proof {
            lemma_find_pair(s@, b0, b1);
        }
        return None;
    }
    let mut i: usize = 0;
    while i <= len - 2
        invariant
            len == s@.len(),
            2 <= len,
            0 <= i <= len,
            forall|j: int| 0 <= j < i ==> !pair_at(s@, b0, b1, j),
        decreases len - i,
    {
        if s[i] == b0 && s[i + 1] == b1 {
            proof {
                lemma_find_pair(s@, b0, b1);
                assert(pair_at(s@, b0, b1, i as int));
            }
            return Some(i);
        }
        i = i + 1;
    }
    proof {
        lemma_find_pair(s@, b0, b1);
    }
    None
}

/// The byte `b` occurs in `s` at position `i`.
pub open spec fn byte_at(s: Seq<u8>, b: u8, i: int) -> bool {
    0 <= i < s.len() && s[i] == b
}

/// Position of the first occurrence of the byte `b` in `s`.
pub open spec fn spec_find_byte(s: Seq<u8>, b: u8) -> Option<int>
    decreases s.len(),
{
    if s.len() == 0 {
        None
    } else if s[0] == b {
        Some(0int)
    } else {
        match spec_find_byte(s.skip(1), b) {
            Some(i) => Some(i + 1),
            None => None,
        }
    }
}

/// `spec_find_byte` returns the least occurrence position, or `None` when
/// the byte does not occur at all.
proof fn lemma_find_byte(s: Seq<u8>, b: u8)
    ensures
        match spec_find_byte(s, b) {
            Some(i) => byte_at(s, b, i) && (forall|j: int| 0 <= j < i ==> !byte_at(s, b, j)),
            None => forall|j: int| !byte_at(s, b, j),
        },
    decreases s.len(),
{
    if s.len() == 0 {
    } else if s[0] == b {
    } else {
        lemma_find_byte(s.skip(1), b);
        assert(forall|k: int| 0 <= k < s.skip(1).len() ==> s.skip(1)[k] == s[k + 1]);
        assert forall|j: int| 1 <= j && byte_at(s, b, j) implies byte_at(s.skip(1), b, j - 1) by {
            assert(s.skip(1)[j - 1] == s[j]);
        }
    }
}

/// Index of the first occurrence of the byte `b` in `s`, if any.
pub fn find_byte(s: &[u8], b: u8) -> (r: Option<usize>)
    ensures
        match r {
            Some(i) => spec_find_byte(s@, b) == Some(i as int),
            None => spec_find_byte(s@, b) is None,
        },
{
    let len = s.len();
    let mut i: usize = 0;
    while i < len
        invariant
            len == s@.len(),
            0 <= i <= len,
            forall|j: int| 0 <= j < i ==> !byte_at(s@, b, j),
        decreases len - i,
    {
        if s[i] == b {
            proof {
                lemma_find_byte(s@, b);
                assert(byte_at(s@, b, i as int));
            }
            return Some(i);
        }
        i = i + 1;
    }
    proof {
        lemma_find_byte(s@, b);
    }
    None
}

/// Split `s` on every occurrence of the two-byte separator `b0 b1`.
/// The separators themselves are dropped; `n` separators yield `n + 1`
/// pieces, so the result is never empty.
pub open spec fn spec_split_pair(s: Seq<u8>, b0: u8, b1: u8) -> Seq<Seq<u8>>
    decreases s.len(),
    via spec_split_pair_dec
{
    match spec_find_pair(s, b0, b1) {
        None => seq![s],
        Some(i) => seq![s.take(i)] + spec_split_pair(s.skip(i + 2), b0, b1),
    }
}

#[via_fn]
proof fn spec_split_pair_dec(s: Seq<u8>, b0: u8, b1: u8) {
    lemma_find_pair(s, b0, b1);
}

/// Split `s` on every occurrence of the byte `b`; the result is never empty.
pub open spec fn spec_split_byte(s: Seq<u8>, b: u8) -> Seq<Seq<u8>>
    decreases s.len(),
    via spec_split_byte_dec
{
    match spec_find_byte(s, b) {
        None => seq![s],
        Some(i) => seq![s.take(i)] + spec_split_byte(s.skip(i + 1), b),
    }
}

#[via_fn]
proof fn spec_split_byte_dec(s: Seq<u8>, b: u8) {
    lemma_find_byte(s, b);
}

/// Split `s` on the two-byte separator `b0 b1`.
pub fn split_pair(s: &[u8], b0: u8, b1: u8) -> (r: Vec<Vec<u8>>)
    ensures
        r.deep_view() == spec_split_pair(s@, b0, b1),
{
    let len = s.len();
    let mut out: Vec<Vec<u8>> = Vec::new();
    let mut pos: usize = 0;
    proof {
        assert(s@.skip(0) =~= s@);
        assert(out.deep_view() + spec_split_pair(s@, b0, b1) =~= spec_split_pair(s@, b0, b1));
    }
    loop
        invariant
            pos <= len,
            len == s@.len(),
            spec_split_pair(s@, b0, b1) == out.deep_view() + spec_split_pair(
                s@.skip(pos as int),
                b0,
                b1,
            ),
        decreases len - pos,
    {
        let rest = slice_subrange(s, pos, len);
        let ghost prev = out.deep_view();
        match find_pair(rest, b0, b1) {
            Some(i) => {
                proof {
                    lemma_find_pair(rest@, b0, b1);
                }
                let piece = slice_to_vec(slice_subrange(rest, 0, i));
                out.push(piece);
                proof {
                    assert(out.deep_view() =~~= prev.push(rest@.take(i as int)));
                    assert(rest@.skip(i + 2) =~= s@.skip(pos + i + 2));
                    assert(prev.push(rest@.take(i as int)) + spec_split_pair(
                        s@.skip(pos + i + 2),
                        b0,
                        b1,
                    ) =~= prev + spec_split_pair(rest@, b0, b1));
                }
                pos = pos + i + 2;
            },
            None => {
                out.push(slice_to_vec(rest));
                proof {
                    assert(out.deep_view() =~~= prev.push(rest@));
                    assert(prev.push(rest@) =~= prev + seq![rest@]);
                }
                return out;
            },
        }
    }
}

/// Split `s` on the byte `b`.
pub fn split_byte(s: &[u8], b: u8) -> (r: Vec<Vec<u8>>)
    ensures
        r.deep_view() == spec_split_byte(s@, b),
{
    let len = s.len();
    let mut out: Vec<Vec<u8>> = Vec::new();
    let mut pos: usize = 0;
    proof {
        assert(s@.skip(0) =~= s@);
        assert(out.deep_view() + spec_split_byte(s@, b) =~= spec_split_byte(s@, b));
    }
    loop
        invariant
            pos <= len,
            len == s@.len(),
            spec_split_byte(s@, b) == out.deep_view() + spec_split_byte(s@.skip(pos as int), b),
        decreases len - pos,
    {
        let rest = slice_subrange(s, pos, len);
        let ghost prev = out.deep_view();
        match find_byte(rest, b) {
            Some(i) => {
                proof {
                    lemma_find_byte(rest@, b);
                }
                let piece = slice_to_vec(slice_subrange(rest, 0, i));
                out.push(piece);
                proof {
                    assert(out.deep_view() =~~= prev.push(rest@.take(i as int)));
                    assert(rest@.skip(i + 1) =~= s@.skip(pos + i + 1));
                    assert(prev.push(rest@.take(i as int)) + spec_split_byte(
                        s@.skip(pos + i + 1),
                        b,
                    ) =~= prev + spec_split_byte(rest@, b));
                }
                pos = pos + i + 1;
            },
            None => {
                out.push(slice_to_vec(rest));
                proof {
                    assert(out.deep_view() =~~= prev.push(rest@));
                    assert(prev.push(rest@) =~= prev + seq![rest@]);
                }
                return out;
            },
        }
    }
}

/// Remove every empty trailing piece, as produced by a message that ends
/// with its line terminator.
pub open spec fn spec_trim_tail(lines: Seq<Seq<u8>>) -> Seq<Seq<u8>>
    decreases lines.len(),
{
    if lines.len() > 0 && lines.last().len() == 0 {
        spec_trim_tail(lines.drop_last())
    } else {
        lines
    }
}

/// Pop every empty line off the tail of `lines`.
pub fn trim_tail(lines: &mut Vec<Vec<u8>>)
    ensures
        final(lines).deep_view() == spec_trim_tail(old(lines).deep_view()),
{
    while lines.len() > 0 && lines[lines.len() - 1].len() == 0
        invariant
            spec_trim_tail(lines.deep_view()) == spec_trim_tail(old(lines).deep_view()),
        decreases lines.len(),
    {
        let ghost prev = lines.deep_view();
        lines.pop();
        proof {
            assert(lines.deep_view() =~= prev.drop_last());
        }
    }
}

/// The byte is a decimal digit.
pub open spec fn is_digit(b: u8) -> bool {
    48 <= b && b <= 57
}

/// Every byte of `s` is a decimal digit.
pub open spec fn all_digits(s: Seq<u8>) -> bool {
    forall|i: int| 0 <= i < s.len() ==> is_digit(#[trigger] s[i])
}

/// Numeric value of a decimal digit string (most significant digit first).
pub open spec fn digits_val(s: Seq<u8>) -> nat
    decreases s.len(),
{
    if s.len() == 0 {
        0
    } else {
        digits_val(s.drop_last()) * 10 + (if is_digit(s.last()) {
            (s.last() - 48) as nat
        } else {
            0
        })
    }
}

/// The value of a digit-string prefix never exceeds the value of the whole.
proof fn lemma_digits_val_mono(s: Seq<u8>, i: int)
    requires
        0 <= i <= s.len(),
    ensures
        digits_val(s.take(i)) <= digits_val(s),
    decreases s.len() - i,
{
    if i < s.len() {
        lemma_digits_val_mono(s, i + 1);
        assert(s.take(i + 1).drop_last() =~= s.take(i));
        assert(s.take(i + 1).last() == s[i]);
    } else {
        assert(s.take(i) =~= s);
    }
}

/// A nonempty all-digit string whose value fits in sixteen bits parses to
/// that value; anything else is rejected.
pub open spec fn spec_parse_u16(s: Seq<u8>) -> Option<u16> {
    if s.len() > 0 && all_digits(s) && digits_val(s) <= 65535 {
        Some(digits_val(s) as u16)
    } else {
        None
    }
}

/// Parse a decimal digit string into a sixteen-bit value.
pub fn parse_u16(s: &[u8]) -> (r: Option<u16>)
    ensures
        r == spec_parse_u16(s@),
{
    if s.len() == 0 {
        return None;
    }
    let len = s.len();
    let mut acc: u32 = 0;
    let mut i: usize = 0;
    while i < len
        invariant
            len == s@.len(),
            0 <= i <= len,
            all_digits(s@.take(i as int)),
            acc == digits_val(s@.take(i as int)),
            acc <= 65535,
        decreases len - i,
    {
        let b = s[i];
        if b < 48 || b > 57 {
            assert(!is_digit(s@[i as int]));
            return None;
        }
        acc = acc * 10 + (b - 48) as u32;
        i = i + 1;
        proof {
            assert(s@.take(i as int).drop_last() =~= s@.take(i as int - 1));
            assert(s@.take(i as int).last() == s@[i as int - 1]);
            assert(forall|j: int| 0 <= j < i ==> s@.take(i as int)[j] == s@[j]);
        }
        if acc > 65535 {
            proof {
                lemma_digits_val_mono(s@, i as int);
            }
            return None;
        }
    }
    proof {
        assert(s@.take(len as int) =~= s@);
    }
    Some(acc as u16)
}

/// The single-character string for a decimal digit.
pub open spec fn spec_digit(n: nat) -> Seq<char> {
    if n == 0 {
        "0"@
    } else if n == 1 {
        "1"@
    } else if n == 2 {
        "2"@
    } else if n == 3 {
        "3"@
    } else if n == 4 {
        "4"@
    } else if n == 5 {
        "5"@
    } else if n == 6 {
        "6"@
    } else if n == 7 {
        "7"@
    } else if n == 8 {
        "8"@
    } else {
        "9"@
    }
}

/// Decimal rendering of `n`, most significant digit first, no leading zeros.
pub open spec fn spec_dec_chars(n: nat) -> Seq<char>
    decreases n,
{
    if n < 10 {
        spec_digit(n)
    } else {
        spec_dec_chars(n / 10) + spec_digit(n % 10)
    }
}

fn digit_str(n: u64) -> (r: &'static str)
    requires
        n < 10,
    ensures
        r@ == spec_digit(n as nat),
{
    match n {
        0 => "0",
        1 => "1",
        2 => "2",
        3 => "3",
        4 => "4",
        5 => "5",
        6 => "6",
        7 => "7",
        8 => "8",
        _ => "9",
    }
}

/// Render `n` in decimal.
pub fn dec_string(n: u64) -> (r: String)
    ensures
        r@ == spec_dec_chars(n as nat),
    decreases n,
{
    if n < 10 {
        digit_str(n).to_owned()
    } else {
        let mut s = dec_string(n / 10);
        s.append(digit_str(n % 10));
        s
    }
}

/// Exact equality of two byte slices.
pub fn bytes_eq(a: &[u8], b: &[u8]) -> (r: bool)
    ensures
        r == (a@ == b@),
{
    if a.len() != b.len() {
        return false;
    }
    let len = a.len();
    let mut i: usize = 0;
    while i < len
        invariant
            len == a@.len(),
            len == b@.len(),
            0 <= i <= len,
            forall|j: int| 0 <= j < i ==> a@[j] == b@[j],
        decreases len - i,
    {
        if s_index(a, i) != s_index(b, i) {
            return false;
        }
        i = i + 1;
    }
    proof {
        assert(a@ =~= b@);
    }
    true
}

#[inline]
fn s_index(s: &[u8], i: usize) -> (b: u8)
    requires
        i < s@.len(),
    ensures
        b == s@[i as int],
{
    s[i]
}

/// Exact equality of two string slices, decided on their bytes.
pub fn str_eq(a: &str, b: &str) -> (r: bool)
    ensures
        r == (a@ == b@),
{
    let r = bytes_eq(a.as_bytes(), b.as_bytes());
    proof {
        encode_utf8_decode_utf8(a@);
        encode_utf8_decode_utf8(b@);
    }
    r
}

/// Relies on `core::str::from_utf8`: it returns `Ok` exactly when the input
/// is valid UTF-8, and the returned slice decodes those same bytes.
#[verifier::external_body]
pub(crate) fn bytes_as_str(data: &[u8]) -> (r: Option<&str>)
    ensures
        r is Some <==> valid_utf8(data@),
        r matches Some(s) ==> s@ == decode_utf8(data@),
{
    core::str::from_utf8(data).ok()
}

} // verus!
