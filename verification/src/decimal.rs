use vstd::prelude::*;

verus! {

/// ASCII code of the digit zero.
pub const ASCII_ZERO: u8 = 48;

/// The decimal numeral of `n` in ASCII, most significant digit first, without leading zeros.
pub open spec fn decimal_digits(n: nat) -> Seq<u8>
    decreases n,
{
    if n < 10 {
        seq![(ASCII_ZERO + n) as u8]
    } else {
        decimal_digits(n / 10).push((ASCII_ZERO + n % 10) as u8)
    }
}

/// The number that a string of ASCII digits denotes in decimal.
pub open spec fn decimal_value(s: Seq<u8>) -> nat
    decreases s.len(),
{
    if s.len() == 0 {
        0
    } else {
        decimal_value(s.drop_last()) * 10 + (s.last() - ASCII_ZERO) as nat
    }
}

/// Every byte is an ASCII digit.
pub open spec fn all_digits(s: Seq<u8>) -> bool {
    forall|i: int| 0 <= i < s.len() ==> ASCII_ZERO <= #[trigger] s[i] <= ASCII_ZERO + 9
}

/// The numeral of `n` is a nonempty string of digits that denotes `n` and starts with a
/// zero only when it is the numeral of zero.
pub proof fn lemma_decimal_digits(n: nat)
    ensures
        decimal_digits(n).len() >= 1,
        all_digits(decimal_digits(n)),
        decimal_value(decimal_digits(n)) == n,
        decimal_digits(n)[0] == ASCII_ZERO ==> n == 0,
    decreases n,
{
    let d = decimal_digits(n);
    if n < 10 {
        assert(d.drop_last() =~= Seq::<u8>::empty());
        assert(d.last() == ASCII_ZERO + n);
        assert(decimal_value(d.drop_last()) == 0);
    } else {
        lemma_decimal_digits(n / 10);
        let p = decimal_digits(n / 10);
        assert(d.drop_last() =~= p);
        assert(d[0] == p[0]);
        assert forall|i: int| 0 <= i < d.len() implies ASCII_ZERO <= #[trigger] d[i] <= ASCII_ZERO + 9 by {
            if i < p.len() {
                assert(d[i] == p[i]);
            }
        }
        assert(n % 10 < 10);
        assert(d.last() == ASCII_ZERO + n % 10);
        assert(decimal_value(d) == decimal_value(p) * 10 + n % 10);
        assert(n == (n / 10) * 10 + n % 10);
    }
}

/// Appends the decimal numeral of `n` to `out`.
pub fn push_decimal(out: &mut Vec<u8>, n: u64)
    ensures
        final(out)@ == old(out)@ + decimal_digits(n as nat),
    decreases n,
{
    if n >= 10 {
        push_decimal(out, n / 10);
    }
    out.push(ASCII_ZERO + (n % 10) as u8);
    proof {
        if n < 10 {
            assert(decimal_digits(n as nat) =~= seq![(ASCII_ZERO + n) as u8]);
        }
    }
}

} // verus!
