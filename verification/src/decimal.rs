//! Decimal digits: filtering them out of names, reading values back, and
//! formatting numbers as character sequences (plain or zero-padded).

use vstd::prelude::*;

verus! {

pub open spec fn is_digit_char(c: char) -> bool {
    '0' <= c && c <= '9'
}

/// Numeric value of a digit character.
pub open spec fn digit_val(c: char) -> int {
    c as int - 48
}

/// The digit character for `d` in 0..=9.
pub open spec fn dec_digit_char(d: int) -> char {
    ((48 + d) as u8) as char
}

/// The subsequence of decimal digit characters of `s`, in order.
pub open spec fn digits_of(s: Seq<char>) -> Seq<char>
    decreases s.len(),
{
    if s.len() == 0 {
        Seq::empty()
    } else {
        let rest = digits_of(s.drop_last());
        if is_digit_char(s.last()) {
            rest.push(s.last())
        } else {
            rest
        }
    }
}

pub proof fn lemma_digits_of_are_digits(s: Seq<char>)
    ensures
        forall|i: int| 0 <= i < digits_of(s).len() ==> is_digit_char(#[trigger] digits_of(s)[i]),
        digits_of(s).len() <= s.len(),
    decreases s.len(),
{
    if s.len() > 0 {
        lemma_digits_of_are_digits(s.drop_last());
    }
}

/// The decimal digit characters of `s`, in order.
pub fn digits_of_exec(s: &str) -> (r: String)
    ensures
        r@ == digits_of(s@),
{
    let n: usize = s.unicode_len();
    let mut out = String::new();
    let mut i: usize = 0;
    while i < n
        invariant
            n == s@.len(),
            i <= n,
            out@ == digits_of(s@.take(i as int)),
        decreases n - i,
    {
        let c = s.get_char(i);
        proof {
            assert(s@.take(i + 1 as int).drop_last() =~= s@.take(i as int));
            assert(s@.take(i + 1 as int).last() == s@[i as int]);
        }
        if '0' <= c && c <= '9' {
            crate::strutil::push_char(&mut out, c);
        }
        i = i + 1;
    }
    proof {
        assert(s@.take(n as int) =~= s@);
    }
    out
}

/// Decimal representation of `n`, most significant digit first, without
/// leading zeros (a single '0' for zero).
pub open spec fn dec_rep(n: nat) -> Seq<char>
    decreases n,
{
    if n < 10 {
        seq![dec_digit_char(n as int)]
    } else {
        dec_rep(n / 10).push(dec_digit_char((n % 10) as int))
    }
}

/// Value of a digit-character sequence read as a decimal numeral.
pub open spec fn num_val(s: Seq<char>) -> int
    decreases s.len(),
{
    if s.len() == 0 {
        0
    } else {
        num_val(s.drop_last()) * 10 + digit_val(s.last())
    }
}

pub proof fn lemma_digit_char_val(d: int)
    requires
        0 <= d < 10,
    ensures
        digit_val(dec_digit_char(d)) == d,
        is_digit_char(dec_digit_char(d)),
{
    assert(dec_digit_char(d) as int == 48 + d);
}

pub proof fn lemma_num_val_of_dec_rep(n: nat)
    ensures
        num_val(dec_rep(n)) == n,
        dec_rep(n).len() >= 1,
    decreases n,
{
    if n < 10 {
        lemma_digit_char_val(n as int);
        assert(dec_rep(n) =~= seq![dec_digit_char(n as int)]);
        assert(dec_rep(n).drop_last() =~= Seq::<char>::empty());
        assert(dec_rep(n).last() == dec_digit_char(n as int));
        assert(num_val(dec_rep(n)) == num_val(Seq::<char>::empty()) * 10 + digit_val(
            dec_digit_char(n as int),
        ));
        assert(num_val(Seq::<char>::empty()) == 0);
    } else {
        lemma_num_val_of_dec_rep(n / 10);
        lemma_digit_char_val((n % 10) as int);
        assert(dec_rep(n).drop_last() =~= dec_rep(n / 10));
        assert(dec_rep(n).last() == dec_digit_char((n % 10) as int));
        assert(num_val(dec_rep(n)) == (n / 10) * 10 + (n % 10));
        assert((n / 10) * 10 + (n % 10) == n) by (nonlinear_arith);
    }
}

/// Distinct numbers have distinct decimal representations.
pub proof fn lemma_dec_rep_injective(a: nat, b: nat)
    requires
        dec_rep(a) == dec_rep(b),
    ensures
        a == b,
{
    lemma_num_val_of_dec_rep(a);
    lemma_num_val_of_dec_rep(b);
}

/// Append one digit character for `d`.
fn push_digit(s: &mut String, d: u64)
    requires
        d < 10,
    ensures
        final(s)@ == old(s)@.push(dec_digit_char(d as int)),
{
    crate::strutil::push_char(s, (48 + d as u8) as char);
}

/// Append the decimal representation of `n`.
pub fn push_dec(s: &mut String, n: u64)
    ensures
        final(s)@ == old(s)@ + dec_rep(n as nat),
    decreases n,
{
    if n >= 10 {
        push_dec(s, n / 10);
        push_digit(s, n % 10);
        assert(final(s)@ =~= old(s)@ + dec_rep(n as nat));
    } else {
        push_digit(s, n);
        assert(final(s)@ =~= old(s)@ + dec_rep(n as nat));
    }
}

/// `n` as exactly two digit characters (for `n < 100`).
pub open spec fn pad2(n: int) -> Seq<char> {
    seq![dec_digit_char(n / 10), dec_digit_char(n % 10)]
}

/// `n` as exactly four digit characters (for `n < 10000`).
pub open spec fn pad4(n: int) -> Seq<char> {
    seq![
        dec_digit_char(n / 1000),
        dec_digit_char((n / 100) % 10),
        dec_digit_char((n / 10) % 10),
        dec_digit_char(n % 10),
    ]
}

/// Append `n` zero-padded to two digits.
pub fn push_pad2(s: &mut String, n: u64)
    requires
        n < 100,
    ensures
        final(s)@ == old(s)@ + pad2(n as int),
{
    push_digit(s, n / 10);
    push_digit(s, n % 10);
    assert(final(s)@ =~= old(s)@ + pad2(n as int));
}

/// Append `n` zero-padded to four digits.
pub fn push_pad4(s: &mut String, n: u64)
    requires
        n < 10000,
    ensures
        final(s)@ == old(s)@ + pad4(n as int),
{
    push_digit(s, n / 1000);
    push_digit(s, (n / 100) % 10);
    push_digit(s, (n / 10) % 10);
    push_digit(s, n % 10);
    assert(final(s)@ =~= old(s)@ + pad4(n as int));
}

} // verus!
