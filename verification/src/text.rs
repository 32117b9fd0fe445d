//! Decimal rendering and the few string operations the rest of the crate
//! builds its output with.

use vstd::prelude::*;
use vstd::std_specs::iter::IteratorSpec;

verus! {

/// The character for the decimal digit `d`.
pub open spec fn digit_char(d: nat) -> char
    recommends
        d < 10,
{
    ((48 + d) as u8) as char
}

/// `n` in decimal, without leading zeros.
pub open spec fn decimal(n: nat) -> Seq<char>
    decreases n,
{
    if n < 10 {
        seq![digit_char(n)]
    } else {
        decimal(n / 10).push(digit_char(n % 10))
    }
}

/// `n` in decimal, with a leading zero where it has a single digit.
pub open spec fn padded2(n: nat) -> Seq<char> {
    if n < 10 {
        seq!['0', digit_char(n)]
    } else {
        decimal(n)
    }
}

/// `c` is one of the ten decimal digits.
pub open spec fn is_decimal_digit(c: char) -> bool {
    48 <= c as u32 <= 57
}

/// A number in decimal is made of digits, at least one, and starts with a
/// zero only where it is zero.
pub proof fn lemma_decimal_is_digits(n: nat)
    ensures
        decimal(n).len() >= 1,
        forall|i: int| 0 <= i < decimal(n).len() ==> is_decimal_digit(#[trigger] decimal(n)[i]),
        n >= 10 ==> decimal(n).len() >= 2,
        n > 0 ==> decimal(n)[0] != '0',
    decreases n,
{
    if n >= 10 {
        lemma_decimal_is_digits(n / 10);
    }
}

/// Appends one character to a string: `String::push`. The string afterwards
/// is the string before, followed by the character.
#[verifier::external_body]
pub(crate) fn push_char(s: &mut String, c: char)
    ensures
        final(s)@ == old(s)@.push(c),
{
    s.push(c);
}

/// The characters of a string, in order.
pub fn chars_of(s: &str) -> (v: Vec<char>)
    ensures
        v@ == s@,
{
    let mut v: Vec<char> = Vec::new();
    let mut it = s.chars();
    loop
        invariant
            it.obeys_prophetic_iter_laws(),
            it.decrease() is Some,
            v@ + it.remaining() == s@,
        ensures
            v@ == s@,
        decreases it.decrease()->0,
    {
        let ghost before = it;
        let ghost seen = v@;
        match it.next() {
            Some(c) => {
                v.push(c);
                assert(v@ + it.remaining() =~= seen + before.remaining());
            },
            None => {
                assert(v@ + it.remaining() =~= v@);
                break;
            },
        }
    }
    v
}

/// The character for a decimal digit.
pub fn digit(d: u8) -> (c: char)
    requires
        d < 10,
    ensures
        c == digit_char(d as nat),
{
    (48u8 + d) as char
}

/// Appends `n` in decimal to `out`.
pub fn push_decimal(out: &mut String, n: u64)
    ensures
        final(out)@ == old(out)@ + decimal(n as nat),
{
    let mut low: Vec<char> = Vec::new();
    let mut m: u64 = n;
    while m >= 10
        invariant
            decimal(n as nat) == decimal(m as nat) + low@.reverse(),
        decreases m,
    {
        let ghost before = low@;
        low.push(digit((m % 10) as u8));
        proof {
            let d = digit_char((m % 10) as nat);
            assert(low@.reverse() =~= seq![d] + before.reverse());
            assert(decimal(m as nat) == decimal((m / 10) as nat).push(d));
            assert(decimal((m / 10) as nat).push(d) + before.reverse() =~= decimal(
                (m / 10) as nat,
            ) + (seq![d] + before.reverse()));
        }
        m = m / 10;
    }
    let ghost before = low@;
    low.push(digit(m as u8));
    assert(low@.reverse() =~= decimal(n as nat)) by {
        assert(low@.reverse() =~= seq![digit_char(m as nat)] + before.reverse());
    }
    let mut k: usize = low.len();
    while k > 0
        invariant
            k <= low@.len(),
            out@ == old(out)@ + low@.reverse().subrange(0, low@.len() - k),
        decreases k,
    {
        k -= 1;
        push_char(out, low[k]);
        assert(out@ =~= old(out)@ + low@.reverse().subrange(0, low@.len() - k));
    }
    assert(low@.reverse().subrange(0, low@.len() as int) =~= low@.reverse());
}

/// Appends `n` in decimal to `out`, in two digits at least.
pub fn push_padded2(out: &mut String, n: u64)
    ensures
        final(out)@ == old(out)@ + padded2(n as nat),
{
    if n < 10 {
        push_char(out, '0');
        push_char(out, digit(n as u8));
        assert(out@ =~= old(out)@ + padded2(n as nat));
    } else {
        push_decimal(out, n);
    }
}

} // verus!
