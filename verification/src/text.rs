//! Small verified text utilities: equality on string slices, decimal
//! formatting and parsing of unsigned integers. Module names, stage keys
//! and numeric song fields are all carried as text, so the rest of the
//! crate leans on these.

use vstd::prelude::*;
use vstd::string::StrSliceExecFns;

verus! {

/// The ten decimal digit characters.
pub open spec fn is_digit_char(c: char) -> bool {
    c == '0' || c == '1' || c == '2' || c == '3' || c == '4' || c == '5' || c == '6' || c == '7'
        || c == '8' || c == '9'
}

/// The digit character for a value below ten.
pub open spec fn digit_char(d: nat) -> char {
    if d == 0 {
        '0'
    } else if d == 1 {
        '1'
    } else if d == 2 {
        '2'
    } else if d == 3 {
        '3'
    } else if d == 4 {
        '4'
    } else if d == 5 {
        '5'
    } else if d == 6 {
        '6'
    } else if d == 7 {
        '7'
    } else if d == 8 {
        '8'
    } else {
        '9'
    }
}

/// The numeric value of a digit character.
pub open spec fn char_digit(c: char) -> nat {
    if c == '0' {
        0
    } else if c == '1' {
        1
    } else if c == '2' {
        2
    } else if c == '3' {
        3
    } else if c == '4' {
        4
    } else if c == '5' {
        5
    } else if c == '6' {
        6
    } else if c == '7' {
        7
    } else if c == '8' {
        8
    } else {
        9
    }
}

/// The usual decimal rendering of `n`: no sign, no leading zeros
/// (a single `'0'` for zero).
pub open spec fn spec_decimal(n: nat) -> Seq<char>
    decreases n,
{
    if n < 10 {
        seq![digit_char(n)]
    } else {
        spec_decimal(n / 10).push(digit_char(n % 10))
    }
}

/// The value of a digit string, most significant digit first.
pub open spec fn digits_value(s: Seq<char>) -> nat
    decreases s.len(),
{
    if s.len() == 0 {
        0
    } else {
        digits_value(s.drop_last()) * 10 + char_digit(s.last())
    }
}

/// Every character of `s` is a decimal digit.
pub open spec fn is_digit_seq(s: Seq<char>) -> bool {
    forall|i: int| 0 <= i < s.len() ==> is_digit_char(#[trigger] s[i])
}

proof fn lemma_digit_char_roundtrip(d: nat)
    requires
        d < 10,
    ensures
        is_digit_char(digit_char(d)),
        char_digit(digit_char(d)) == d,
{
}

/// Reading back the decimal rendering of `n` yields `n`.
pub proof fn lemma_decimal_roundtrip(n: nat)
    ensures
        is_digit_seq(spec_decimal(n)),
        spec_decimal(n).len() >= 1,
        digits_value(spec_decimal(n)) == n,
    decreases n,
{
    if n < 10 {
        lemma_digit_char_roundtrip(n);
        let s = spec_decimal(n);
        assert(s == seq![digit_char(n)]);
        assert(s.len() == 1);
        assert(s.last() == digit_char(n));
        assert(s.drop_last() =~= Seq::<char>::empty());
        assert(digits_value(s.drop_last()) == 0);
        assert(digits_value(s) == digits_value(s.drop_last()) * 10 + char_digit(s.last()));
        assert(digits_value(s) == n);
    } else {
        lemma_decimal_roundtrip(n / 10);
        lemma_digit_char_roundtrip(n % 10);
        let s = spec_decimal(n);
        assert(s == spec_decimal(n / 10).push(digit_char(n % 10)));
        assert(s.len() == spec_decimal(n / 10).len() + 1);
        assert(s.drop_last() =~= spec_decimal(n / 10));
        assert(s.last() == digit_char(n % 10));
        assert(digits_value(s) == digits_value(s.drop_last()) * 10 + char_digit(s.last()));
        assert(digits_value(s) == (n / 10) * 10 + (n % 10));
        vstd::arithmetic::div_mod::lemma_fundamental_div_mod(n as int, 10);
        assert(digits_value(s) == n);
    }
}

/// Distinct numbers have distinct decimal renderings.
pub proof fn lemma_decimal_injective(m: nat, n: nat)
    requires
        spec_decimal(m) == spec_decimal(n),
    ensures
        m == n,
{
    lemma_decimal_roundtrip(m);
    lemma_decimal_roundtrip(n);
}

/// The string slice for a single digit value.
fn digit_str(d: u64) -> (r: &'static str)
    requires
        d < 10,
    ensures
        r@ =~= seq![digit_char(d as nat)],
{
    proof {
        reveal_strlit("0");
        reveal_strlit("1");
        reveal_strlit("2");
        reveal_strlit("3");
        reveal_strlit("4");
        reveal_strlit("5");
        reveal_strlit("6");
        reveal_strlit("7");
        reveal_strlit("8");
        reveal_strlit("9");
    }
    if d == 0 {
        "0"
    } else if d == 1 {
        "1"
    } else if d == 2 {
        "2"
    } else if d == 3 {
        "3"
    } else if d == 4 {
        "4"
    } else if d == 5 {
        "5"
    } else if d == 6 {
        "6"
    } else if d == 7 {
        "7"
    } else if d == 8 {
        "8"
    } else {
        "9"
    }
}

/// Renders `n` in decimal.
pub fn u64_to_string(n: u64) -> (r: String)
    ensures
        r@ == spec_decimal(n as nat),
    decreases n,
{
    if n < 10 {
        digit_str(n).to_owned()
    } else {
        let prefix = u64_to_string(n / 10);
        prefix.concat(digit_str(n % 10))
    }
}

/// The numeric value of a digit character, as executable code.
fn char_digit_val(c: char) -> (d: u64)
    requires
        is_digit_char(c),
    ensures
        d < 10,
        d as nat == char_digit(c),
{
    if c == '0' {
        0
    } else if c == '1' {
        1
    } else if c == '2' {
        2
    } else if c == '3' {
        3
    } else if c == '4' {
        4
    } else if c == '5' {
        5
    } else if c == '6' {
        6
    } else if c == '7' {
        7
    } else if c == '8' {
        8
    } else {
        9
    }
}

/// Tests whether a character is a decimal digit.
pub fn is_digit(c: char) -> (r: bool)
    ensures
        r == is_digit_char(c),
{
    c == '0' || c == '1' || c == '2' || c == '3' || c == '4' || c == '5' || c == '6' || c == '7'
        || c == '8' || c == '9'
}

/// A longer digit string never has a smaller value than one of its prefixes.
proof fn lemma_digits_value_prefix_mono(s: Seq<char>, i: int, j: int)
    requires
        0 <= i <= j <= s.len(),
    ensures
        digits_value(s.subrange(0, i)) <= digits_value(s.subrange(0, j)),
    decreases j - i,
{
    if i < j {
        lemma_digits_value_prefix_mono(s, i, j - 1);
        assert(s.subrange(0, j).drop_last() =~= s.subrange(0, j - 1));
        assert(digits_value(s.subrange(0, j)) == digits_value(s.subrange(0, j - 1)) * 10
            + char_digit(s.subrange(0, j).last()));
    }
}

/// Parses a decimal number: `Some` exactly on nonempty all-digit strings
/// whose value fits in a `u64`. Leading zeros are allowed.
pub fn parse_u64(s: &str) -> (r: Option<u64>)
    ensures
        r is Some <==> (s@.len() > 0 && is_digit_seq(s@) && digits_value(s@) <= u64::MAX),
        r matches Some(v) ==> v as nat == digits_value(s@),
{
    let len = s.unicode_len();
    if len == 0 {
        return None;
    }
    let mut acc: u64 = 0;
    let mut i: usize = 0;
    while i < len
        invariant
            0 <= i <= len,
            len as nat == s@.len(),
            is_digit_seq(s@.subrange(0, i as int)),
            acc as nat == digits_value(s@.subrange(0, i as int)),
        decreases len - i,
    {
        let c = s.get_char(i);
        if !is_digit(c) {
            return None;
        }
        let d = char_digit_val(c);
        if acc > (u64::MAX - d) / 10 {
            proof {
                let prefix = s@.subrange(0, i as int);
                let next = s@.subrange(0, i as int + 1);
                assert(next.drop_last() =~= prefix);
                assert(next.last() == s@[i as int]);
                vstd::arithmetic::div_mod::lemma_fundamental_div_mod((u64::MAX - d) as int, 10);
                assert(digits_value(next) > u64::MAX);
                lemma_digits_value_prefix_mono(s@, i as int + 1, s@.len() as int);
                assert(s@.subrange(0, s@.len() as int) =~= s@);
            }
            return None;
        }
        proof {
            let prefix = s@.subrange(0, i as int);
            let next = s@.subrange(0, i as int + 1);
            assert(next.drop_last() =~= prefix);
            assert(next.last() == s@[i as int]);
            vstd::arithmetic::div_mod::lemma_fundamental_div_mod((u64::MAX - d) as int, 10);
        }
        acc = acc * 10 + d;
        i = i + 1;
    }
    proof {
        assert(s@.subrange(0, len as int) =~= s@);
    }
    Some(acc)
}

/// Equality of string slices, decided character by character.
pub fn str_eq(a: &str, b: &str) -> (r: bool)
    ensures
        r <==> a@ == b@,
{
    let alen = a.unicode_len();
    let blen = b.unicode_len();
    if alen != blen {
        return false;
    }
    let mut i: usize = 0;
    while i < alen
        invariant
            0 <= i <= alen,
            alen as nat == a@.len(),
            blen as nat == b@.len(),
            alen == blen,
            forall|j: int| 0 <= j < i ==> a@[j] == b@[j],
        decreases alen - i,
    {
        if a.get_char(i) != b.get_char(i) {
            return false;
        }
        i = i + 1;
    }
    proof {
        assert(a@ =~= b@);
    }
    true
}

} // verus!
