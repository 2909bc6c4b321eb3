//! Decimal rendering and parsing of unsigned integers, used for the default
//! player names and for the public-identifier codec.

use vstd::prelude::*;
use vstd::arithmetic::div_mod::lemma_fundamental_div_mod;

verus! {

/// The character for a single decimal digit.
pub open spec fn spec_digit(d: nat) -> char {
    if d == 0 {
        '0'
    } else if d == 1 {
        '1'
    } else if d == 2 {
        '2'
    } else if d == 3 {
        '3'
    } else if d == 4 {
        '4'
    } else if d == 5 {
        '5'
    } else if d == 6 {
        '6'
    } else if d == 7 {
        '7'
    } else if d == 8 {
        '8'
    } else {
        '9'
    }
}

/// The numeric value of a decimal digit character, or -1 for any other character.
pub open spec fn digit_val(c: char) -> int {
    if c == '0' {
        0
    } else if c == '1' {
        1
    } else if c == '2' {
        2
    } else if c == '3' {
        3
    } else if c == '4' {
        4
    } else if c == '5' {
        5
    } else if c == '6' {
        6
    } else if c == '7' {
        7
    } else if c == '8' {
        8
    } else if c == '9' {
        9
    } else {
        -1
    }
}

pub open spec fn is_digit(c: char) -> bool {
    digit_val(c) >= 0
}

/// The canonical decimal rendering of `n`: most significant digit first,
/// no leading zeros, at least one digit.
pub open spec fn spec_decimal(n: nat) -> Seq<char>
    decreases n,
{
    if n < 10 {
        seq![spec_digit(n)]
    } else {
        spec_decimal(n / 10).push(spec_digit(n % 10))
    }
}

/// The value of a sequence of decimal digit characters, most significant first.
pub open spec fn seq_val(s: Seq<char>) -> int
    decreases s.len(),
{
    if s.len() == 0 {
        0
    } else {
        seq_val(s.drop_last()) * 10 + digit_val(s.last())
    }
}

/// Every character of a decimal rendering is a digit, and the rendering has
/// no leading zero unless it is the single digit `0`.
pub proof fn lemma_decimal_shape(n: nat)
    ensures
        spec_decimal(n).len() >= 1,
        forall|j: int| 0 <= j < spec_decimal(n).len() ==> is_digit(#[trigger] spec_decimal(n)[j]),
        n > 0 ==> spec_decimal(n)[0] != '0',
        n == 0 ==> spec_decimal(n) == seq!['0'],
    decreases n,
{
    if n < 10 {
        assert(spec_decimal(n) == seq![spec_digit(n)]);
    } else {
        lemma_decimal_shape(n / 10);
        let prev = spec_decimal(n / 10);
        let whole = spec_decimal(n);
        assert(whole == prev.push(spec_digit(n % 10)));
        assert(forall|j: int| 0 <= j < whole.len() ==> is_digit(#[trigger] whole[j])) by {
            assert(forall|j: int| 0 <= j < prev.len() ==> is_digit(#[trigger] prev[j]));
            assert(whole[whole.len() - 1] == spec_digit(n % 10));
        }
        assert(whole[0] == prev[0]);
    }
}

/// Parsing a decimal rendering gives back the rendered value.
pub proof fn lemma_decimal_val(n: nat)
    ensures
        seq_val(spec_decimal(n)) == n,
    decreases n,
{
    if n < 10 {
        let s = spec_decimal(n);
        assert(s.drop_last() =~= Seq::<char>::empty());
        assert(s.last() == spec_digit(n));
        assert(digit_val(spec_digit(n)) == n);
        assert(seq_val(Seq::<char>::empty()) == 0);
        assert(seq_val(s) == seq_val(s.drop_last()) * 10 + digit_val(s.last()));
    } else {
        lemma_decimal_val(n / 10);
        let prev = spec_decimal(n / 10);
        let whole = spec_decimal(n);
        assert(whole.drop_last() =~= prev);
        assert(whole.last() == spec_digit(n % 10));
        assert(digit_val(spec_digit(n % 10)) == n % 10);
        assert(seq_val(whole) == seq_val(whole.drop_last()) * 10 + digit_val(whole.last()));
        lemma_fundamental_div_mod(n as int, 10);
    }
}

/// The value of an all-digit sequence is non-negative.
pub proof fn lemma_seq_val_nonneg(s: Seq<char>)
    requires
        forall|j: int| 0 <= j < s.len() ==> is_digit(#[trigger] s[j]),
    ensures
        seq_val(s) >= 0,
    decreases s.len(),
{
    if s.len() > 0 {
        lemma_seq_val_nonneg(s.drop_last());
    }
}

/// Extending an all-digit sequence never decreases its value.
pub proof fn lemma_seq_val_prefix(s: Seq<char>, k: int)
    requires
        0 <= k <= s.len(),
        forall|j: int| 0 <= j < s.len() ==> is_digit(#[trigger] s[j]),
    ensures
        seq_val(s) >= seq_val(s.subrange(0, k)),
    decreases s.len() - k,
{
    if k == s.len() {
        assert(s.subrange(0, k) =~= s);
    } else {
        lemma_seq_val_prefix(s, k + 1);
        let longer = s.subrange(0, k + 1);
        assert(longer.drop_last() =~= s.subrange(0, k));
        assert(longer.last() == s[k]);
        lemma_seq_val_nonneg(s.subrange(0, k));
    }
}

/// Appends the character for one decimal digit.
fn push_digit(s: &mut String, d: u64)
    requires
        d < 10,
    ensures
        final(s)@ == old(s)@ + seq![spec_digit(d as nat)],
{
    proof {
        reveal_strlit("0");
        reveal_strlit("1");
        reveal_strlit("2");
        reveal_strlit("3");
        reveal_strlit("4");
        reveal_strlit("5");
        reveal_strlit("6");
        reveal_strlit("7");
        reveal_strlit("8");
        reveal_strlit("9");
    }
    match d {
        0 => s.append("0"),
        1 => s.append("1"),
        2 => s.append("2"),
        3 => s.append("3"),
        4 => s.append("4"),
        5 => s.append("5"),
        6 => s.append("6"),
        7 => s.append("7"),
        8 => s.append("8"),
        _ => s.append("9"),
    }
    assert(s@ =~= old(s)@ + seq![spec_digit(d as nat)]);
}

/// Appends the canonical decimal rendering of `n`.
pub fn push_decimal(s: &mut String, n: u64)
    ensures
        final(s)@ == old(s)@ + spec_decimal(n as nat),
    decreases n,
{
    if n < 10 {
        push_digit(s, n);
    } else {
        push_decimal(s, n / 10);
        push_digit(s, n % 10);
        assert(s@ =~= old(s)@ + spec_decimal(n as nat));
    }
}

/// The canonical decimal rendering of `n` as a fresh string.
pub fn decimal_string(n: u64) -> (r: String)
    ensures
        r@ == spec_decimal(n as nat),
{
    let mut s = String::new();
    push_decimal(&mut s, n);
    assert(s@ =~= spec_decimal(n as nat));
    s
}

} // verus!
