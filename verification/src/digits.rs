//! Decimal digit runs and their numeric value.
//!
//! Artifact names embed a zero-padded frame counter. Selecting the latest
//! artifact needs the numeric order of such counters, for runs of any
//! length, so the comparison below works directly on digit sequences and
//! never converts to a machine integer.

use vstd::prelude::*;

verus! {

/// Numeric value of a sequence of decimal digit values, most significant
/// digit first. The empty sequence counts as zero.
pub open spec fn digits_value(s: Seq<u8>) -> nat
    decreases s.len(),
{
    if s.len() == 0 {
        0
    } else {
        digits_value(s.drop_last()) * 10 + s.last() as nat
    }
}

/// `s` with its leading zero digits removed.
pub open spec fn strip_zeros(s: Seq<u8>) -> Seq<u8>
    decreases s.len(),
{
    if s.len() > 0 && s[0] == 0 {
        strip_zeros(s.subrange(1, s.len() as int))
    } else {
        s
    }
}

/// Every element is a decimal digit value.
pub open spec fn all_digits(s: Seq<u8>) -> bool {
    forall|i: int| 0 <= i < s.len() ==> s[i] < 10
}

/// A run with no leading zero: either empty or starting with a nonzero digit.
pub open spec fn no_leading_zero(s: Seq<u8>) -> bool {
    s.len() == 0 || s[0] != 0
}

pub open spec fn pow10(n: nat) -> nat
    decreases n,
{
    if n == 0 {
        1
    } else {
        10 * pow10((n - 1) as nat)
    }
}

pub proof fn lemma_pow10_positive(n: nat)
    ensures
        pow10(n) >= 1,
    decreases n,
{
    if n > 0 {
        lemma_pow10_positive((n - 1) as nat);
    }
}

pub proof fn lemma_pow10_monotone(m: nat, n: nat)
    requires
        m <= n,
    ensures
        pow10(m) <= pow10(n),
    decreases n,
{
    if m < n {
        lemma_pow10_monotone(m, (n - 1) as nat);
        lemma_pow10_positive((n - 1) as nat);
    }
}

/// The value of a run splits off its most significant digit.
pub proof fn lemma_digits_value_cons(s: Seq<u8>)
    requires
        s.len() >= 1,
    ensures
        digits_value(s) == s[0] * pow10((s.len() - 1) as nat) + digits_value(
            s.subrange(1, s.len() as int),
        ),
    decreases s.len(),
{
    if s.len() == 1 {
        assert(s.drop_last() =~= Seq::<u8>::empty());
        assert(s.subrange(1, 1) =~= Seq::<u8>::empty());
        assert(digits_value(Seq::<u8>::empty()) == 0);
        assert(digits_value(s) == s[0]);
        assert(pow10(0) == 1);
        assert(digits_value(s) == s[0] * pow10((s.len() - 1) as nat) + digits_value(
            s.subrange(1, s.len() as int),
        ));
    } else {
        let t = s.drop_last();
        let d = s.last();
        lemma_digits_value_cons(t);
        let n = s.len() as int;
        let p = pow10((n - 2) as nat);
        assert(t.subrange(1, n - 1) =~= s.subrange(1, n).drop_last());
        assert(digits_value(s.subrange(1, n)) == digits_value(t.subrange(1, n - 1)) * 10 + d);
        assert(t[0] == s[0]);
        assert(digits_value(s) == (s[0] * p + digits_value(t.subrange(1, n - 1))) * 10 + d);
        assert((s[0] * p + digits_value(t.subrange(1, n - 1))) * 10 + d == s[0] * (10 * p)
            + (digits_value(t.subrange(1, n - 1)) * 10 + d)) by (nonlinear_arith);
        assert(pow10((n - 1) as nat) == 10 * p);
        assert(digits_value(s) == s[0] * pow10((n - 1) as nat) + digits_value(s.subrange(1, n)));
    }
}

/// Leading zeros do not change the numeric value.
pub proof fn lemma_strip_zeros_value(s: Seq<u8>)
    ensures
        digits_value(strip_zeros(s)) == digits_value(s),
    decreases s.len(),
{
    if s.len() > 0 && s[0] == 0 {
        lemma_digits_value_cons(s);
        lemma_strip_zeros_value(s.subrange(1, s.len() as int));
    }
}

/// Splitting off the leading zeros by position: if everything before `z` is
/// a zero digit and `z` is past them all, stripping yields the tail from `z`.
pub proof fn lemma_strip_zeros_split(s: Seq<u8>, z: int)
    requires
        0 <= z <= s.len(),
        forall|k: int| 0 <= k < z ==> s[k] == 0,
        z == s.len() || s[z] != 0,
    ensures
        strip_zeros(s) == s.subrange(z, s.len() as int),
    decreases z,
{
    if z == 0 {
        assert(s.subrange(0, s.len() as int) =~= s);
    } else {
        let t = s.subrange(1, s.len() as int);
        lemma_strip_zeros_split(t, z - 1);
        assert(t.subrange(z - 1, t.len() as int) =~= s.subrange(z, s.len() as int));
    }
}

/// An all-digit run of length `n` has value below `pow10(n)`.
pub proof fn lemma_digits_value_upper(s: Seq<u8>)
    requires
        all_digits(s),
    ensures
        digits_value(s) < pow10(s.len()),
    decreases s.len(),
{
    if s.len() > 0 {
        let t = s.drop_last();
        lemma_digits_value_upper(t);
        assert(digits_value(t) * 10 + s.last() < pow10(t.len()) * 10) by (nonlinear_arith)
            requires
                digits_value(t) < pow10(t.len()),
                s.last() < 10,
        ;
        assert(pow10(s.len()) == 10 * pow10(t.len()));
    }
}

/// A run starting with a nonzero digit has value at least `pow10(len - 1)`.
pub proof fn lemma_digits_value_lower(s: Seq<u8>)
    requires
        s.len() >= 1,
        s[0] >= 1,
    ensures
        digits_value(s) >= pow10((s.len() - 1) as nat),
{
    lemma_digits_value_cons(s);
    let p = pow10((s.len() - 1) as nat);
    assert(s[0] * p >= 1 * p) by (nonlinear_arith)
        requires
            s[0] >= 1,
            p >= 0,
    ;
}

/// With no leading zeros, a strictly shorter run has a strictly smaller value.
pub proof fn lemma_shorter_run_smaller(a: Seq<u8>, b: Seq<u8>)
    requires
        all_digits(a),
        a.len() < b.len(),
        b.len() >= 1,
        b[0] >= 1,
    ensures
        digits_value(a) < digits_value(b),
{
    lemma_digits_value_upper(a);
    lemma_pow10_monotone(a.len(), (b.len() - 1) as nat);
    lemma_digits_value_lower(b);
}

/// Equal-length runs compare like their first differing digit.
pub proof fn lemma_lex_smaller(a: Seq<u8>, b: Seq<u8>, i: int)
    requires
        all_digits(a),
        all_digits(b),
        a.len() == b.len(),
        0 <= i < a.len(),
        forall|k: int| 0 <= k < i ==> a[k] == b[k],
        a[i] < b[i],
    ensures
        digits_value(a) < digits_value(b),
    decreases i,
{
    let n = a.len() as int;
    lemma_digits_value_cons(a);
    lemma_digits_value_cons(b);
    let p = pow10((n - 1) as nat);
    let ta = a.subrange(1, n);
    let tb = b.subrange(1, n);
    if i == 0 {
        lemma_digits_value_upper(ta);
        assert(a[0] * p + digits_value(ta) < b[0] * p + digits_value(tb)) by (nonlinear_arith)
            requires
                a[0] < b[0],
                digits_value(ta) < p,
                digits_value(tb) >= 0,
        ;
    } else {
        lemma_lex_smaller(ta, tb, i - 1);
    }
}

/// Compares two digit runs as numbers. With leading zeros already stripped,
/// a shorter run is smaller, and equal lengths compare digit by digit.
pub fn digits_lt(a: &Vec<u8>, b: &Vec<u8>) -> (r: bool)
    requires
        all_digits(a@),
        all_digits(b@),
        no_leading_zero(a@),
        no_leading_zero(b@),
    ensures
        r == (digits_value(a@) < digits_value(b@)),
{
    if a.len() < b.len() {
        proof {
            lemma_shorter_run_smaller(a@, b@);
        }
        return true;
    }
    if b.len() < a.len() {
        proof {
            if a@.len() > 0 {
                lemma_shorter_run_smaller(b@, a@);
            }
        }
        return false;
    }
    let n = a.len();
    let mut i: usize = 0;
    while i < n
        invariant
            0 <= i <= n,
            n == a@.len(),
            n == b@.len(),
            all_digits(a@),
            all_digits(b@),
            forall|k: int| 0 <= k < i ==> a@[k] == b@[k],
        decreases n - i,
    {
        if a[i] < b[i] {
            proof {
                lemma_lex_smaller(a@, b@, i as int);
            }
            return true;
        }
        if b[i] < a[i] {
            proof {
                lemma_lex_smaller(b@, a@, i as int);
            }
            return false;
        }
        i = i + 1;
    }
    proof {
        assert(a@ =~= b@);
    }
    false
}

} // verus!
