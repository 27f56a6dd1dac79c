//! Splitting a buffer into segments between `\r\n` terminators.
use vstd::prelude::*;

verus! {

/// A line terminator (`\r\n`) starts at `i`.
pub open spec fn crlf_at(s: Seq<u8>, i: int) -> bool {
    0 <= i && i + 1 < s.len() && s[i] == 13u8 && s[i + 1] == 10u8
}

/// The position of the first line terminator at or after `j`, or the
/// length of `s` when there is none.
pub open spec fn crlf_from(s: Seq<u8>, j: int) -> int
    decreases s.len() - j,
{
    if j < 0 || j + 1 >= s.len() {
        s.len() as int
    } else if crlf_at(s, j) {
        j
    } else {
        crlf_from(s, j + 1)
    }
}

/// The segments of `s[p..]` between line terminators. Like splitting a
/// string on `"\r\n"`, there is always at least one segment, and a buffer
/// that ends in a terminator ends in an empty segment.
pub open spec fn lines_from(s: Seq<u8>, p: int) -> Seq<Seq<u8>>
    decreases s.len() - p,
{
    if p < 0 || p > s.len() {
        Seq::empty()
    } else {
        let e = crlf_from(s, p);
        if p <= e && e + 2 <= s.len() {
            seq![s.subrange(p, e)] + lines_from(s, e + 2)
        } else {
            seq![s.subrange(p, s.len() as int)]
        }
    }
}

/// The segments of a whole buffer between line terminators.
pub open spec fn lines(s: Seq<u8>) -> Seq<Seq<u8>> {
    lines_from(s, 0)
}

proof fn lemma_crlf_from_bounds(s: Seq<u8>, j: int)
    requires
        0 <= j <= s.len(),
    ensures
        j <= crlf_from(s, j) <= s.len(),
        crlf_from(s, j) < s.len() ==> crlf_at(s, crlf_from(s, j)),
    decreases s.len() - j,
{
    if j + 1 < s.len() && !crlf_at(s, j) {
        lemma_crlf_from_bounds(s, j + 1);
    }
}

/// A copy of `s[from..to]`.
pub fn copy_range(s: &[u8], from: usize, to: usize) -> (r: Vec<u8>)
    requires
        from <= to <= s@.len(),
    ensures
        r@ == s@.subrange(from as int, to as int),
{
    let mut r: Vec<u8> = Vec::with_capacity(to - from);
    let mut i: usize = from;
    while i < to
        invariant
            from <= i <= to <= s@.len(),
            r@ == s@.subrange(from as int, i as int),
        decreases to - i,
    {
        r.push(s[i]);
        assert(r@ =~= s@.subrange(from as int, i + 1));
        i = i + 1;
    }
    r
}

/// Splits a buffer into its segments between line terminators.
pub fn split_lines(s: &[u8]) -> (r: Vec<Vec<u8>>)
    ensures
        r@.map_values(|l: Vec<u8>| l@) == lines(s@),
{
    let n = s.len();
    let mut out: Vec<Vec<u8>> = Vec::new();
    let mut start: usize = 0;
    let mut i: usize = 0;
    while i < n
        invariant
            n == s@.len(),
            start <= i <= n,
            crlf_from(s@, start as int) == crlf_from(s@, i as int),
            lines(s@) == out@.map_values(|l: Vec<u8>| l@) + lines_from(s@, start as int),
        decreases n - i,
    {
        if i + 1 < n && s[i] == 13u8 && s[i + 1] == 10u8 {
            let seg = copy_range(s, start, i);
            proof {
                lemma_crlf_from_bounds(s@, start as int);
                assert(seg@ == s@.subrange(start as int, i as int));
                let old_out = out@.map_values(|l: Vec<u8>| l@);
                assert(old_out.push(seg@) =~= out@.push(seg).map_values(|l: Vec<u8>| l@));
                assert(lines_from(s@, start as int) == seq![s@.subrange(start as int, i as int)]
                    + lines_from(s@, i + 2));
                assert(old_out.push(seg@) + lines_from(s@, i + 2) =~= old_out + (seq![
                    s@.subrange(start as int, i as int),
                ] + lines_from(s@, i + 2)));
            }
            out.push(seg);
            start = i + 2;
            i = i + 2;
        } else {
            i = i + 1;
        }
    }
    let seg = copy_range(s, start, n);
    proof {
        lemma_crlf_from_bounds(s@, start as int);
        assert(lines_from(s@, start as int) == seq![s@.subrange(start as int, n as int)]);
    }
    let ghost prev = out@.map_values(|l: Vec<u8>| l@);
    out.push(seg);
    assert(out@.map_values(|l: Vec<u8>| l@) =~= prev.push(seg@));
    assert(prev.push(seg@) =~= prev + seq![seg@]);
    out
}

/// `s` holds no line terminator.
pub open spec fn no_crlf(s: Seq<u8>) -> bool {
    forall|i: int| !crlf_at(s, i)
}

proof fn lemma_crlf_from_shift(pre: Seq<u8>, r: Seq<u8>, j: int)
    requires
        0 <= j <= r.len(),
    ensures
        crlf_from(pre + r, pre.len() + j) == pre.len() + crlf_from(r, j),
    decreases r.len() - j,
{
    let s = pre + r;
    let p = pre.len() as int;
    if j + 1 < r.len() {
        assert(s[p + j] == r[j] && s[p + j + 1] == r[j + 1]);
        if !crlf_at(r, j) {
            lemma_crlf_from_shift(pre, r, j + 1);
        }
    }
}

proof fn lemma_lines_shift(pre: Seq<u8>, r: Seq<u8>, q: int)
    requires
        0 <= q <= r.len(),
    ensures
        lines_from(pre + r, pre.len() + q) == lines_from(r, q),
    decreases r.len() - q,
{
    let s = pre + r;
    let p = pre.len() as int;
    lemma_crlf_from_shift(pre, r, q);
    lemma_crlf_from_bounds(r, q);
    let e = crlf_from(r, q);
    if q <= e && e + 2 <= r.len() {
        lemma_lines_shift(pre, r, e + 2);
        assert(s.subrange(p + q, p + e) =~= r.subrange(q, e));
    } else {
        assert(s.subrange(p + q, s.len() as int) =~= r.subrange(q, r.len() as int));
    }
}

proof fn lemma_crlf_after_line(a: Seq<u8>, r: Seq<u8>, j: int)
    requires
        no_crlf(a),
        0 <= j <= a.len(),
    ensures
        crlf_from(a + crlf_bytes() + r, j) == a.len(),
    decreases a.len() - j,
{
    let s = a + crlf_bytes() + r;
    if j < a.len() {
        if j + 1 < a.len() {
            assert(!crlf_at(a, j));
            assert(s[j] == a[j] && s[j + 1] == a[j + 1]);
        } else {
            assert(s[j + 1] == 13u8);
        }
        lemma_crlf_after_line(a, r, j + 1);
    } else {
        assert(s[j] == 13u8 && s[j + 1] == 10u8);
    }
}

/// The line terminator as bytes.
pub open spec fn crlf_bytes() -> Seq<u8> {
    seq![13u8, 10u8]
}

/// A line without a terminator, then a terminator, splits off as the first
/// segment.
pub proof fn lemma_lines_first(a: Seq<u8>, r: Seq<u8>)
    requires
        no_crlf(a),
    ensures
        lines(a + crlf_bytes() + r) == seq![a] + lines(r),
{
    let s = a + crlf_bytes() + r;
    lemma_crlf_after_line(a, r, 0);
    lemma_lines_shift(a + crlf_bytes(), r, 0);
    assert(s.subrange(0, a.len() as int) =~= a);
}

} // verus!
