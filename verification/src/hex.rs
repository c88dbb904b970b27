//! Rendering of unsigned integers in uppercase hexadecimal.

use vstd::prelude::*;

verus! {

/// The sixteen digits, in order of value.
pub open spec fn spec_upper_hex_digits() -> Seq<char> {
    seq!['0', '1', '2', '3', '4', '5', '6', '7', '8', '9', 'A', 'B', 'C', 'D', 'E', 'F']
}

/// The digit that stands for `d`, for `d` below sixteen.
pub open spec fn spec_upper_hex_digit(d: nat) -> char
    recommends
        d < 16,
{
    spec_upper_hex_digits()[d as int]
}

/// The shortest uppercase hexadecimal numeral for `n`: most significant digit
/// first, no leading zero except for zero itself, which is `0`.
pub open spec fn spec_upper_hex(n: nat) -> Seq<char>
    decreases n,
{
    if n < 16 {
        seq![spec_upper_hex_digit(n)]
    } else {
        spec_upper_hex(n / 16).push(spec_upper_hex_digit(n % 16))
    }
}

/// The value of the digit `c`, for `c` among the sixteen digits.
pub open spec fn spec_upper_hex_digit_value(c: char) -> nat
    recommends
        spec_upper_hex_digits().contains(c),
{
    if '0' <= c <= '9' {
        (c as u32 - '0' as u32) as nat
    } else {
        (c as u32 - 'A' as u32 + 10) as nat
    }
}

/// The number that the numeral `digits` denotes, most significant digit first.
pub open spec fn spec_upper_hex_value(digits: Seq<char>) -> nat
    decreases digits.len(),
{
    if digits.len() == 0 {
        0
    } else {
        16 * spec_upper_hex_value(digits.drop_last()) + spec_upper_hex_digit_value(digits.last())
    }
}

/// The numeral for `n` denotes `n`, so that a number can be read back from
/// its rendering. It has at least one digit, all of them among the sixteen,
/// and starts with `0` only when `n` is zero.
pub proof fn lemma_upper_hex_denotes(n: nat)
    ensures
        spec_upper_hex_value(spec_upper_hex(n)) == n,
        spec_upper_hex(n).len() >= 1,
        forall|i: int|
            0 <= i < spec_upper_hex(n).len() ==> spec_upper_hex_digits().contains(
                #[trigger] spec_upper_hex(n)[i],
            ),
        spec_upper_hex(n)[0] == '0' <==> n == 0,
    decreases n,
{
    let numeral = spec_upper_hex(n);
    let last = spec_upper_hex_digit(n % 16);
    assert(spec_upper_hex_digits()[(n % 16) as int] == last);
    assert(spec_upper_hex_digit_value(last) == n % 16);
    if n < 16 {
        assert(numeral.drop_last() =~= Seq::<char>::empty());
        assert(numeral.last() == last);
        assert(spec_upper_hex_value(numeral.drop_last()) == 0);
    } else {
        lemma_upper_hex_denotes(n / 16);
        assert(numeral.drop_last() =~= spec_upper_hex(n / 16));
        assert(numeral.last() == last);
        assert(numeral[0] == spec_upper_hex(n / 16)[0]);
    }
}

/// The digit for `d` as a one-character string.
fn upper_hex_digit(d: u8) -> (digit: &'static str)
    requires
        d < 16,
    ensures
        digit@ == seq![spec_upper_hex_digit(d as nat)],
{
    let digits = "0123456789ABCDEF";
    proof {
        reveal_strlit("0123456789ABCDEF");
        assert(digits@ =~= spec_upper_hex_digits());
    }
    let digit = digits.substring_ascii(d as usize, d as usize + 1);
    assert(digit@ =~= seq![spec_upper_hex_digit(d as nat)]);
    digit
}

/// Appends the uppercase hexadecimal numeral for `n` to `out`.
pub fn append_upper_hex(out: &mut String, n: u64)
    ensures
        final(out)@ == old(out)@ + spec_upper_hex(n as nat),
    decreases n,
{
    if n >= 16 {
        append_upper_hex(out, n / 16);
    }
    out.append(upper_hex_digit((n % 16) as u8));
    assert(out@ =~= old(out)@ + spec_upper_hex(n as nat));
}

/// Renders `n` in uppercase hexadecimal.
pub fn upper_hex(n: u64) -> (text: String)
    ensures
        text@ == spec_upper_hex(n as nat),
{
    let mut text = String::new();
    append_upper_hex(&mut text, n);
    assert(text@ =~= spec_upper_hex(n as nat));
    text
}

} // verus!
