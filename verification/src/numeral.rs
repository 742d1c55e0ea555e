//! Numerals in a base, most significant digit first, and numerals with leading zeros written anew
//! in another base.
use vstd::arithmetic::div_mod::{
    lemma_div_decreases, lemma_fundamental_div_mod, lemma_fundamental_div_mod_converse,
};
use vstd::arithmetic::mul::lemma_mul_is_commutative;
use vstd::prelude::*;

verus! {

/// The number that the digits `s` stand for in base `base`.
pub open spec fn numeral_value(s: Seq<nat>, base: nat) -> nat
    decreases s.len(),
{
    if s.len() == 0 {
        0
    } else {
        numeral_value(s.drop_last(), base) * base + s.last()
    }
}

/// The digits of `v` in base `base`, without leading zeros. Zero has no digits.
pub open spec fn numeral(v: nat, base: nat) -> Seq<nat>
    decreases v,
{
    if v == 0 || base < 2 {
        Seq::empty()
    } else {
        proof {
            lemma_div_decreases(v as int, base as int);
        }
        numeral(v / base, base).push(v % base)
    }
}

/// The number of zeros that `s` starts with.
pub open spec fn leading_zeros(s: Seq<nat>) -> nat
    decreases s.len(),
{
    if s.len() == 0 || s[0] != 0 {
        0
    } else {
        1 + leading_zeros(s.drop_first())
    }
}

/// So many zeros.
pub open spec fn zeros(n: nat) -> Seq<nat> {
    Seq::new(n, |i: int| 0nat)
}

/// `s` written anew in another base: the same number after the same number of leading zeros.
pub open spec fn converted(s: Seq<nat>, from: nat, to: nat) -> Seq<nat> {
    zeros(leading_zeros(s)) + numeral(numeral_value(s, from), to)
}

/// Whether all of `s` are digits of base `base`.
pub open spec fn are_digits(s: Seq<nat>, base: nat) -> bool {
    forall|i: int| 0 <= i < s.len() ==> s[i] < base
}

/// A number's digits are digits, stand for the number, and do not start with a zero.
proof fn lemma_numeral(v: nat, base: nat)
    requires
        base >= 2,
    ensures
        are_digits(numeral(v, base), base),
        numeral_value(numeral(v, base), base) == v,
        leading_zeros(numeral(v, base)) == 0,
    decreases v,
{
    if v > 0 {
        let front = numeral(v / base, base);
        let s = numeral(v, base);
        lemma_div_decreases(v as int, base as int);
        lemma_fundamental_div_mod(v as int, base as int);
        lemma_mul_is_commutative(base as int, (v / base) as int);
        lemma_numeral(v / base, base);
        assert(s.drop_last() =~= front);
        if front.len() == 0 {
            assert(v / base == 0);
        } else {
            assert(s[0] == front[0]);
        }
    }
}

/// Zeros in front change nothing but the number of leading zeros.
proof fn lemma_zeros_in_front(n: nat, s: Seq<nat>, base: nat)
    requires
        leading_zeros(s) == 0,
    ensures
        leading_zeros(zeros(n) + s) == n,
        numeral_value(zeros(n) + s, base) == numeral_value(s, base),
    decreases n,
{
    if n == 0 {
        assert(zeros(n) + s =~= s);
    } else {
        let shorter = zeros((n - 1) as nat) + s;
        lemma_zeros_in_front((n - 1) as nat, s, base);
        assert((zeros(n) + s).drop_first() =~= shorter);
        assert(zeros(n) + s =~= seq![0nat] + shorter);
        lemma_zero_in_front(shorter, base);
    }
}

proof fn lemma_zero_in_front(s: Seq<nat>, base: nat)
    ensures
        numeral_value(seq![0nat] + s, base) == numeral_value(s, base),
    decreases s.len(),
{
    let longer = seq![0nat] + s;
    if s.len() == 0 {
        assert(longer.drop_last() =~= s);
        assert(0 * base == 0) by (nonlinear_arith);
    } else {
        assert(longer.drop_last() =~= seq![0nat] + s.drop_last());
        lemma_zero_in_front(s.drop_last(), base);
    }
}

/// Digits that do not start with a zero are the digits of the number that they stand for.
proof fn lemma_numeral_of_value(s: Seq<nat>, base: nat)
    requires
        base >= 2,
        are_digits(s, base),
        leading_zeros(s) == 0,
    ensures
        numeral(numeral_value(s, base), base) == s,
        s.len() > 0 ==> numeral_value(s, base) > 0,
    decreases s.len(),
{
    if s.len() > 0 {
        let front = s.drop_last();
        let v = numeral_value(front, base);
        let last = s.last();
        if front.len() > 0 {
            assert(front[0] == s[0]);
        }
        lemma_numeral_of_value(front, base);
        let w = v * base + last;
        assert(w > 0 && w / base == v && w % base == last) by {
            assert(w >= v + last) by (nonlinear_arith)
                requires
                    base >= 2,
                    w == v * base + last,
            ;
            lemma_fundamental_div_mod_converse(w as int, base as int, v as int, last as int);
        }
        assert(numeral(w, base) == numeral(v, base).push(last));
        assert(front.push(last) =~= s);
    } else {
        assert(numeral(numeral_value(s, base), base) =~= s);
    }
}

/// Digits are their leading zeros and the digits of their number.
proof fn lemma_split(s: Seq<nat>, base: nat)
    requires
        base >= 2,
        are_digits(s, base),
    ensures
        s == zeros(leading_zeros(s)) + numeral(numeral_value(s, base), base),
    decreases s.len(),
{
    if s.len() > 0 && s[0] == 0 {
        let rest = s.drop_first();
        let tail = numeral(numeral_value(rest, base), base);
        let n = leading_zeros(rest);
        lemma_split(rest, base);
        lemma_zero_in_front(rest, base);
        assert(s =~= seq![0nat] + rest);
        assert(seq![0nat] + (zeros(n) + tail) =~= zeros(n + 1) + tail);
    } else {
        lemma_numeral_of_value(s, base);
        assert(zeros(0) + s =~= s);
    }
}

/// Writing a numeral anew gives digits of the other base, and writing them anew in the first base
/// gives the numeral again.
pub proof fn lemma_converted_back(s: Seq<nat>, from: nat, to: nat)
    requires
        from >= 2,
        to >= 2,
        are_digits(s, from),
    ensures
        are_digits(converted(s, from, to), to),
        converted(converted(s, from, to), to, from) == s,
{
    let v = numeral_value(s, from);
    lemma_numeral(v, to);
    lemma_zeros_in_front(leading_zeros(s), numeral(v, to), to);
    lemma_split(s, from);
}

} // verus!
