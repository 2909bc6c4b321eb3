//! The public-identifier codec: a reversible mapping between a clock's
//! internal index and the opaque code string handed to clients.
//!
//! The store depends only on the encode/decode contract below (a bijection
//! between indices and their codes, with decoding failing on any string that
//! is not a code), so the concrete rendering is swappable.

use vstd::prelude::*;
use crate::text::{spec_decimal, seq_val, is_digit, digit_val, decimal_string};
use crate::text::{lemma_decimal_shape, lemma_decimal_val, lemma_seq_val_prefix};
use vstd::arithmetic::div_mod::lemma_fundamental_div_mod;

verus! {

/// The code for index `i`.
pub open spec fn spec_encode(i: u64) -> Seq<char> {
    spec_decimal(i as nat)
}

/// Whether `s` has the canonical shape of a code: at least one digit,
/// digits only, and no leading zero unless the code is the single digit `0`.
pub open spec fn is_code(s: Seq<char>) -> bool {
    &&& s.len() >= 1
    &&& forall|j: int| 0 <= j < s.len() ==> is_digit(#[trigger] s[j])
    &&& (s.len() > 1 ==> s[0] != '0')
}

/// The index a code string stands for, or `None` when the string is not a
/// code for any index.
pub open spec fn spec_decode(s: Seq<char>) -> Option<u64> {
    if is_code(s) && seq_val(s) <= u64::MAX {
        Some(seq_val(s) as u64)
    } else {
        None
    }
}

/// Decoding inverts encoding.
pub proof fn lemma_codec_roundtrip(i: u64)
    ensures
        spec_decode(spec_encode(i)) == Some(i),
{
    lemma_decimal_shape(i as nat);
    lemma_decimal_val(i as nat);
    let s = spec_encode(i);
    if s.len() > 1 {
        assert(i > 0) by {
            if i == 0 {
                assert(s == seq!['0']);
            }
        }
    }
}

/// No two indices share a code.
pub proof fn lemma_encode_injective(i: u64, j: u64)
    ensures
        i != j ==> spec_encode(i) != spec_encode(j),
{
    lemma_codec_roundtrip(i);
    lemma_codec_roundtrip(j);
}

/// The code for index `i`, as a fresh string.
pub fn encode_index(i: u64) -> (r: String)
    ensures
        r@ == spec_encode(i),
{
    decimal_string(i)
}

/// Decodes a code string back to its index; returns `None` on any string
/// that no index encodes to.
pub fn decode_code(s: &str) -> (r: Option<u64>)
    ensures
        r == spec_decode(s@),
{
    let n = s.unicode_len();
    if n == 0 {
        return None;
    }
    if n > 1 {
        match s.get_char(0) {
            '0' => {
                return None;
            },
            _ => {},
        }
    }
    let mut acc: u64 = 0;
    let mut i: usize = 0;
    while i < n
        invariant
            0 <= i <= n,
            n == s@.len(),
            n >= 1,
            n > 1 ==> s@[0] != '0',
            forall|j: int| 0 <= j < i ==> is_digit(#[trigger] s@[j]),
            acc == seq_val(s@.subrange(0, i as int)),
        decreases n - i,
    {
        let c = s.get_char(i);
        let d: u64 = match c {
            '0' => 0,
            '1' => 1,
            '2' => 2,
            '3' => 3,
            '4' => 4,
            '5' => 5,
            '6' => 6,
            '7' => 7,
            '8' => 8,
            '9' => 9,
            _ => {
                assert(!is_digit(s@[i as int]));
                return None;
            },
        };
        assert(digit_val(s@[i as int]) == d);
        proof {
            let pre = s@.subrange(0, i as int);
            let ext = s@.subrange(0, i + 1);
            assert(ext.drop_last() =~= pre);
            assert(ext.last() == s@[i as int]);
            assert(seq_val(ext) == acc * 10 + d);
        }
        if acc > (u64::MAX - d) / 10 {
            proof {
                lemma_fundamental_div_mod((u64::MAX - d) as int, 10);
                assert(acc * 10 + d > u64::MAX);
                lemma_decode_overflow(s@, i + 1);
            }
            return None;
        }
        proof {
            lemma_fundamental_div_mod((u64::MAX - d) as int, 10);
            assert(acc * 10 + d <= u64::MAX);
        }
        acc = acc * 10 + d;
        i = i + 1;
    }
    proof {
        assert(s@.subrange(0, n as int) =~= s@);
    }
    Some(acc)
}

/// Once some prefix of an otherwise digit-only string is already worth more
/// than the largest index, the whole string decodes to nothing.
proof fn lemma_decode_overflow(s: Seq<char>, k: int)
    requires
        1 <= k <= s.len(),
        forall|j: int| 0 <= j < k ==> is_digit(#[trigger] s[j]),
        seq_val(s.subrange(0, k)) > u64::MAX,
    ensures
        spec_decode(s) is None,
{
    if forall|j: int| 0 <= j < s.len() ==> is_digit(#[trigger] s[j]) {
        lemma_seq_val_prefix(s, k);
    }
}

} // verus!
