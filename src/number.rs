//! Decimal numerals inside URL segments (build numbers, queue item ids).

use vstd::prelude::*;

verus! {

pub open spec fn is_digit(b: u8) -> bool {
    48u8 <= b && b <= 57u8
}

/// The shortest decimal numeral of `n`.
pub open spec fn numeral(n: nat) -> Seq<u8>
    decreases n,
{
    if n < 10 {
        seq![(n + 48) as u8]
    } else {
        numeral(n / 10).push(((n % 10) + 48) as u8)
    }
}

/// The value of a string of digits.
pub open spec fn digits_value(s: Seq<u8>) -> nat
    decreases s.len(),
{
    if s.len() == 0 {
        0
    } else {
        digits_value(s.drop_last()) * 10 + (s.last() - 48) as nat
    }
}

pub open spec fn all_digits(s: Seq<u8>) -> bool {
    s.len() > 0 && forall|i: int| 0 <= i < s.len() ==> is_digit(#[trigger] s[i])
}

/// A segment read as a number: a non-empty string of digits whose value fits in `u64`.
pub open spec fn parse_number(s: Seq<u8>) -> Option<u64> {
    if all_digits(s) && digits_value(s) <= u64::MAX {
        Some(digits_value(s) as u64)
    } else {
        None
    }
}

proof fn lemma_digits_value_prefix(s: Seq<u8>, i: int)
    requires
        0 <= i <= s.len(),
        forall|k: int| 0 <= k < s.len() ==> is_digit(#[trigger] s[k]),
    ensures
        digits_value(s.subrange(0, i)) <= digits_value(s),
    decreases s.len() - i,
{
    if i < s.len() {
        lemma_digits_value_prefix(s, i + 1);
        assert(s.subrange(0, i + 1).drop_last() =~= s.subrange(0, i));
    } else {
        assert(s.subrange(0, i) =~= s);
    }
}

/// A numeral is made of digits and reads back as its value.
pub proof fn lemma_numeral(n: nat)
    ensures
        all_digits(numeral(n)),
        digits_value(numeral(n)) == n,
    decreases n,
{
    if n >= 10 {
        lemma_numeral(n / 10);
        let s = numeral(n);
        assert(s.drop_last() =~= numeral(n / 10));
        assert(s.last() == ((n % 10) + 48) as u8);
        assert((n / 10) * 10 + n % 10 == n);
        assert(digits_value(s) == digits_value(numeral(n / 10)) * 10 + (s.last() - 48) as nat);
        assert forall|i: int| 0 <= i < s.len() implies is_digit(#[trigger] s[i]) by {
            if i < s.len() - 1 {
                assert(s[i] == numeral(n / 10)[i]);
            }
        }
    } else {
        assert(seq![(n + 48) as u8].drop_last() =~= Seq::<u8>::empty());
        assert(digits_value(Seq::<u8>::empty()) == 0);
    }
}

/// Reads `s[from..to]` as a number.
pub fn parse_number_range(s: &[u8], from: usize, to: usize) -> (r: Option<u64>)
    requires
        from <= to <= s.len(),
    ensures
        r == parse_number(s@.subrange(from as int, to as int)),
{
    let ghost t = s@.subrange(from as int, to as int);
    if from == to {
        return None;
    }
    let mut acc: u64 = 0;
    let mut i: usize = from;
    while i < to
        invariant
            from <= i <= to <= s.len(),
            t == s@.subrange(from as int, to as int),
            forall|k: int| 0 <= k < i - from ==> is_digit(#[trigger] t[k]),
            acc as nat == digits_value(t.subrange(0, i - from)),
        decreases to - i,
    {
        let b = s[i];
        if b < 48u8 || b > 57u8 {
            assert(!is_digit(t[i - from]));
            return None;
        }
        proof {
            assert(t.subrange(0, i - from + 1).drop_last() =~= t.subrange(0, i - from));
        }
        let d = (b - 48u8) as u64;
        if acc > (u64::MAX - d) / 10 {
            proof {
                let j = i - from + 1;
                if all_digits(t) {
                    lemma_digits_value_prefix(t, j);
                    assert(digits_value(t.subrange(0, j)) == acc * 10 + d);
                }
            }
            return None;
        }
        acc = acc * 10 + d;
        i = i + 1;
    }
    assert(t.subrange(0, t.len() as int) =~= t);
    Some(acc)
}

/// Appends the numeral of `n` to `out`.
pub fn push_numeral(n: u64, out: &mut Vec<u8>)
    ensures
        final(out)@ == old(out)@ + numeral(n as nat),
    decreases n,
{
    if n >= 10 {
        push_numeral(n / 10, out);
    }
    out.push(((n % 10) as u8) + 48u8);
    proof {
        if n >= 10 {
            assert(final(out)@ =~= old(out)@ + numeral(n as nat));
        } else {
            assert(final(out)@ =~= old(out)@ + numeral(n as nat));
        }
    }
}

} // verus!
