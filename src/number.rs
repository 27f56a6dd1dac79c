//! Decimal numbers in length headers: reading them and writing them.
use vstd::prelude::*;

verus! {

/// The largest value that a length header may declare.
pub const MAX_LENGTH: u32 = 0x7fff_ffff;

pub open spec fn is_digit(c: u8) -> bool {
    48 <= c <= 57
}

pub open spec fn all_digits(d: Seq<u8>) -> bool {
    forall|i: int| 0 <= i < d.len() ==> is_digit(#[trigger] d[i])
}

/// The number that a string of decimal digits denotes.
pub open spec fn digits_value(d: Seq<u8>) -> nat
    decreases d.len(),
{
    if d.len() == 0 {
        0
    } else {
        digits_value(d.drop_last()) * 10 + (d.last() - 48) as nat
    }
}

/// The length that a header's text after its marker declares: an optional
/// sign followed by at least one decimal digit, read as a 32-bit signed
/// integer, and accepted only when it is not negative.
pub open spec fn length_of(t: Seq<u8>) -> Option<nat> {
    let signed = t.len() > 0 && (t[0] == 43u8 || t[0] == 45u8);
    let neg = t.len() > 0 && t[0] == 45u8;
    let d = if signed { t.drop_first() } else { t };
    if d.len() > 0 && all_digits(d) && (if neg { digits_value(d) == 0 } else { digits_value(
        d,
    ) <= MAX_LENGTH }) {
        Some(digits_value(d))
    } else {
        None
    }
}

proof fn lemma_digits_step(d: Seq<u8>, i: int)
    requires
        0 <= i < d.len(),
    ensures
        digits_value(d.take(i + 1)) == digits_value(d.take(i)) * 10 + (d[i] - 48) as nat,
{
    assert(d.take(i + 1).drop_last() =~= d.take(i));
}

/// Reads a length header's text after its marker (`t[start..]`).
pub fn parse_length(t: &[u8], start: usize) -> (r: Option<u32>)
    requires
        start <= t@.len(),
    ensures
        r matches Some(n) ==> length_of(t@.skip(start as int)) == Some(n as nat),
        r is None ==> length_of(t@.skip(start as int)) is None,
{
    let ghost s = t@.skip(start as int);
    let len = t.len();
    let mut i: usize = start;
    let mut neg = false;
    if i < len && (t[i] == 43u8 || t[i] == 45u8) {
        neg = t[i] == 45u8;
        i = i + 1;
    }
    let first = i;
    let ghost d = t@.skip(first as int);
    assert(d =~= (if s.len() > 0 && (s[0] == 43u8 || s[0] == 45u8) { s.drop_first() } else { s }));
    if first == len {
        return None;
    }
    let mut value: u64 = 0;
    let mut big = false;
    while i < len
        invariant
            first <= i <= len,
            len == t@.len(),
            d == t@.skip(first as int),
            s == t@.skip(start as int),
            d == (if s.len() > 0 && (s[0] == 43u8 || s[0] == 45u8) { s.drop_first() } else { s }),
            neg == (s.len() > 0 && s[0] == 45u8),
            all_digits(d.take(i - first)),
            !big ==> value == digits_value(d.take(i - first)) && value <= MAX_LENGTH,
            big ==> digits_value(d.take(i - first)) > MAX_LENGTH,
        decreases len - i,
    {
        let c = t[i];
        if c < 48u8 || c > 57u8 {
            assert(!is_digit(d[i - first]));
            assert(!all_digits(d));
            return None;
        }
        proof {
            lemma_digits_step(d, i - first);
            assert(all_digits(d.take(i - first + 1)));
        }
        if !big {
            value = value * 10 + (c - 48u8) as u64;
            if value > MAX_LENGTH as u64 {
                big = true;
            }
        }
        i = i + 1;
    }
    assert(d.take(len - first) =~= d);
    if big {
        return None;
    }
    if neg {
        if value == 0 { Some(0) } else { None }
    } else {
        Some(value as u32)
    }
}

/// The decimal digits of `n`, most significant first, without leading zeros.
pub open spec fn decimal(n: nat) -> Seq<u8>
    decreases n,
{
    if n < 10 {
        seq![(48 + n) as u8]
    } else {
        decimal(n / 10).push((48 + n % 10) as u8)
    }
}

/// The decimal form of a number reads back as that number.
pub proof fn lemma_decimal_digits(n: nat)
    ensures
        all_digits(decimal(n)),
        decimal(n).len() > 0,
        digits_value(decimal(n)) == n,
    decreases n,
{
    if n >= 10 {
        lemma_decimal_digits(n / 10);
        assert(decimal(n).drop_last() =~= decimal(n / 10));
        assert(n == (n / 10) * 10 + n % 10);
        assert(decimal(n).last() == (48 + n % 10) as u8);
        assert(((48 + n % 10) as u8) as int == 48 + n % 10);
        let d = decimal(n);
        assert(digits_value(d) == digits_value(d.drop_last()) * 10 + (d.last() - 48) as nat);
        assert(digits_value(d.drop_last()) == n / 10);
        assert((d.last() - 48) as nat == n % 10);
    } else {
        assert(decimal(n).drop_last() =~= Seq::<u8>::empty());
        assert(((48 + n) as u8) as int == 48 + n);
        let d = decimal(n);
        assert(digits_value(d) == digits_value(d.drop_last()) * 10 + (d.last() - 48) as nat);
        assert(digits_value(d.drop_last()) == 0);
    }
}

/// A length header's number reads back as the length it was written from.
pub proof fn lemma_length_of_decimal(n: nat)
    requires
        n <= MAX_LENGTH,
    ensures
        length_of(decimal(n)) == Some(n),
{
    lemma_decimal_digits(n);
    let d = decimal(n);
    assert(is_digit(d[0]));
}

/// Appends the decimal digits of `n` to `out`.
pub fn push_decimal(out: &mut Vec<u8>, n: usize)
    ensures
        final(out)@ == old(out)@ + decimal(n as nat),
    decreases n,
{
    if n >= 10 {
        push_decimal(out, n / 10);
    }
    out.push(48u8 + (n % 10) as u8);
    proof {
        if n >= 10 {
            assert(final(out)@ =~= old(out)@ + decimal(n as nat));
        } else {
            assert(final(out)@ =~= old(out)@ + decimal(n as nat));
        }
    }
}

} // verus!
