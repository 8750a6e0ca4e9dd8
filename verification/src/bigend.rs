//! Natural numbers spelled as big-endian byte strings.
//!
//! Diffie-Hellman values travel as byte strings, most significant byte first,
//! with any number of leading zero bytes. This module says which number a
//! string spells, and compares and re-sizes strings by that number.

use vstd::prelude::*;

verus! {

/// The number that `s` spells in base 256, most significant byte first.
pub open spec fn be_nat(s: Seq<u8>) -> nat
    decreases s.len(),
{
    if s.len() == 0 {
        0
    } else {
        be_nat(s.drop_last()) * 256 + s.last() as nat
    }
}

/// The spelling of `n` in exactly `width` bytes. Where `n` does not fit, its
/// high part is cut off.
pub open spec fn be_bytes(n: nat, width: nat) -> Seq<u8>
    decreases width,
{
    if width == 0 {
        Seq::empty()
    } else {
        be_bytes(n / 256, (width - 1) as nat).push((n % 256) as u8)
    }
}

/// How many numbers `width` bytes can spell: 256 to the power `width`.
pub open spec fn span(width: nat) -> nat
    decreases width,
{
    if width == 0 {
        1
    } else {
        256 * span((width - 1) as nat)
    }
}

/// The least number of bytes that can spell `n`.
pub open spec fn min_width(n: nat) -> nat
    decreases n,
{
    if n == 0 {
        0
    } else {
        1 + min_width(n / 256)
    }
}

/// `count` zero bytes.
pub open spec fn zeros(count: nat) -> Seq<u8> {
    Seq::new(count, |i: int| 0u8)
}

/// A string spells a number below the span of its length.
pub proof fn lemma_be_nat_bound(s: Seq<u8>)
    ensures
        be_nat(s) < span(s.len()),
    decreases s.len(),
{
    if s.len() > 0 {
        lemma_be_nat_bound(s.drop_last());
    }
}

/// The fixed-width spelling has the width asked for.
pub proof fn lemma_be_bytes_len(n: nat, width: nat)
    ensures
        be_bytes(n, width).len() == width,
    decreases width,
{
    if width > 0 {
        lemma_be_bytes_len(n / 256, (width - 1) as nat);
    }
}

/// A number that fits in `width` bytes is read back from its spelling.
pub proof fn lemma_be_nat_of_be_bytes(n: nat, width: nat)
    requires
        n < span(width),
    ensures
        be_nat(be_bytes(n, width)) == n,
    decreases width,
{
    if width > 0 {
        let rest = be_bytes(n / 256, (width - 1) as nat);
        lemma_be_nat_of_be_bytes(n / 256, (width - 1) as nat);
        assert(be_bytes(n, width).drop_last() =~= rest);
    }
}

/// A string is the spelling, at its own length, of the number it spells.
pub proof fn lemma_be_bytes_of_be_nat(s: Seq<u8>)
    ensures
        be_bytes(be_nat(s), s.len()) == s,
    decreases s.len(),
{
    if s.len() > 0 {
        lemma_be_bytes_of_be_nat(s.drop_last());
        assert(s.drop_last().push(s.last()) =~= s);
    } else {
        assert(s =~= Seq::<u8>::empty());
    }
}

/// Joining two strings shifts the first past the second.
pub proof fn lemma_be_nat_concat(a: Seq<u8>, b: Seq<u8>)
    ensures
        be_nat(a + b) == be_nat(a) * span(b.len()) + be_nat(b),
    decreases b.len(),
{
    if b.len() == 0 {
        assert(a + b =~= a);
        assert(span(b.len()) == 1);
        assert(be_nat(a) * 1 == be_nat(a)) by (nonlinear_arith);
    } else {
        let init = b.drop_last();
        lemma_be_nat_concat(a, init);
        assert((a + b).drop_last() =~= a + init);
        let x = be_nat(a);
        let unit = span(init.len());
        assert(x * (256 * unit) == (x * unit) * 256) by (nonlinear_arith);
    }
}

/// Zero bytes spell zero.
pub proof fn lemma_be_nat_zeros(count: nat)
    ensures
        be_nat(zeros(count)) == 0,
    decreases count,
{
    if count > 0 {
        lemma_be_nat_zeros((count - 1) as nat);
        assert(zeros(count).drop_last() =~= zeros((count - 1) as nat));
    }
}

/// Leading zero bytes do not change the number.
pub proof fn lemma_be_nat_leading_zeros(count: nat, s: Seq<u8>)
    ensures
        be_nat(zeros(count) + s) == be_nat(s),
{
    lemma_be_nat_concat(zeros(count), s);
    lemma_be_nat_zeros(count);
    assert(0 * span(s.len()) == 0) by (nonlinear_arith);
}

/// A number fits in `width` bytes exactly when its least width is no more.
pub proof fn lemma_min_width_fits(n: nat, width: nat)
    ensures
        n < span(width) <==> min_width(n) <= width,
    decreases width,
{
    lemma_span_monotonic(0, width);
    if width > 0 && n > 0 {
        lemma_min_width_fits(n / 256, (width - 1) as nat);
    }
}

/// The span grows with the width.
pub proof fn lemma_span_monotonic(a: nat, b: nat)
    requires
        a <= b,
    ensures
        span(a) <= span(b),
        span(a) >= 1,
    decreases b,
{
    if b > a {
        lemma_span_monotonic(a, (b - 1) as nat);
    } else if a > 0 {
        lemma_span_monotonic((a - 1) as nat, (a - 1) as nat);
    }
}

/// A string that starts with a nonzero byte needs its whole length.
pub proof fn lemma_min_width_of_nonzero_lead(s: Seq<u8>)
    requires
        s.len() > 0,
        s[0] != 0,
    ensures
        min_width(be_nat(s)) == s.len(),
        be_nat(s) >= span((s.len() - 1) as nat),
{
    let head = s.subrange(0, 1);
    let tail = s.skip(1);
    assert(head + tail =~= s);
    lemma_be_nat_concat(head, tail);
    assert(head.drop_last() =~= Seq::<u8>::empty());
    assert(be_nat(head.drop_last()) == 0);
    assert(be_nat(head) == s[0] as nat);
    let low = span(tail.len());
    assert(be_nat(head) * low >= low) by (nonlinear_arith)
        requires
            be_nat(head) >= 1,
    ;
    lemma_be_nat_bound(s);
    lemma_min_width_fits(be_nat(s), s.len());
    lemma_min_width_fits(be_nat(s), (s.len() - 1) as nat);
}

/// A number that needs fewer bytes than another is the smaller one.
pub proof fn lemma_narrower_is_smaller(m: nat, n: nat)
    requires
        min_width(m) < min_width(n),
    ensures
        m < n,
{
    let below = (min_width(n) - 1) as nat;
    lemma_min_width_fits(m, min_width(m));
    lemma_min_width_fits(n, below);
    lemma_span_monotonic(min_width(m), below);
}

/// Of two strings of one length, the one with the smaller byte at the first
/// place where they differ spells the smaller number.
pub proof fn lemma_first_difference_decides(x: Seq<u8>, y: Seq<u8>, at: int)
    requires
        x.len() == y.len(),
        0 <= at < x.len(),
        x.take(at) == y.take(at),
        x[at] < y[at],
    ensures
        be_nat(x) < be_nat(y),
{
    let x_head = x.take(at + 1);
    let y_head = y.take(at + 1);
    let x_tail = x.skip(at + 1);
    let y_tail = y.skip(at + 1);
    assert(x_head + x_tail =~= x);
    assert(y_head + y_tail =~= y);
    assert(x_head.drop_last() =~= x.take(at));
    assert(y_head.drop_last() =~= y.take(at));
    lemma_be_nat_concat(x_head, x_tail);
    lemma_be_nat_concat(y_head, y_tail);
    lemma_be_nat_bound(x_tail);
    let unit = span(x_tail.len());
    let lo = be_nat(x_head);
    let hi = be_nat(y_head);
    assert(lo + 1 <= hi);
    assert((lo + 1) * unit <= hi * unit) by (nonlinear_arith)
        requires
            lo + 1 <= hi,
    ;
    assert((lo + 1) * unit == lo * unit + unit) by (nonlinear_arith);
}

/// Counts the bytes of `s` from its first nonzero byte on: the least width
/// that holds the number `s` spells.
pub fn significant_len(s: &[u8]) -> (n: usize)
    ensures
        n == min_width(be_nat(s@)),
        n <= s@.len(),
        be_nat(s@.skip(s@.len() - n)) == be_nat(s@),
{
    let mut i: usize = 0;
    proof {
        assert(s@.skip(0) =~= s@);
    }
    while i < s.len() && s[i] == 0
        invariant
            i <= s@.len(),
            be_nat(s@.skip(i as int)) == be_nat(s@),
        decreases s@.len() - i,
    {
        proof {
            let rest = s@.skip(i as int);
            lemma_be_nat_leading_zeros(1, rest.skip(1));
            assert(zeros(1) + rest.skip(1) =~= rest);
            assert(rest.skip(1) =~= s@.skip(i + 1));
        }
        i += 1;
    }
    proof {
        let rest = s@.skip(i as int);
        if i < s@.len() {
            lemma_min_width_of_nonzero_lead(rest);
        }
    }
    s.len() - i
}

/// Tells whether `s` spells zero.
pub fn is_zero(s: &[u8]) -> (r: bool)
    ensures
        r == (be_nat(s@) == 0),
{
    significant_len(s) == 0
}

/// Tells whether `a` spells a smaller number than `b`, whatever their lengths.
pub fn less_than(a: &[u8], b: &[u8]) -> (r: bool)
    ensures
        r == (be_nat(a@) < be_nat(b@)),
{
    let width = significant_len(a);
    let other = significant_len(b);
    if width != other {
        proof {
            if width < other {
                lemma_narrower_is_smaller(be_nat(a@), be_nat(b@));
            } else {
                lemma_narrower_is_smaller(be_nat(b@), be_nat(a@));
            }
        }
        return width < other;
    }
    let from_a = a.len() - width;
    let from_b = b.len() - width;
    let ghost x = a@.skip(from_a as int);
    let ghost y = b@.skip(from_b as int);
    let mut i: usize = 0;
    while i < width
        invariant
            i <= width,
            width <= a@.len(),
            width <= b@.len(),
            a@.len() <= usize::MAX,
            b@.len() <= usize::MAX,
            from_a == a@.len() - width,
            from_b == b@.len() - width,
            x == a@.skip(from_a as int),
            y == b@.skip(from_b as int),
            x.take(i as int) == y.take(i as int),
            be_nat(x) == be_nat(a@),
            be_nat(y) == be_nat(b@),
        decreases width - i,
    {
        let left = a[from_a + i];
        let right = b[from_b + i];
        if left != right {
            proof {
                if left < right {
                    lemma_first_difference_decides(x, y, i as int);
                } else {
                    lemma_first_difference_decides(y, x, i as int);
                }
            }
            return left < right;
        }
        proof {
            assert(x.take(i + 1) =~= x.take(i as int).push(x[i as int]));
            assert(y.take(i + 1) =~= y.take(i as int).push(y[i as int]));
        }
        i += 1;
    }
    proof {
        assert(x.take(width as int) =~= x);
        assert(y.take(width as int) =~= y);
    }
    false
}

/// Appends `count` zero bytes to `out`.
pub fn push_zeros(out: &mut Vec<u8>, count: usize)
    ensures
        final(out)@ == old(out)@ + zeros(count as nat),
{
    let ghost before = out@;
    let mut i: usize = 0;
    proof {
        assert(out@ =~= before + zeros(0));
    }
    while i < count
        invariant
            i <= count,
            out@ == before + zeros(i as nat),
        decreases count - i,
    {
        out.push(0u8);
        proof {
            assert(out@ =~= before + zeros((i + 1) as nat));
        }
        i += 1;
    }
}

/// Re-sizes `s` to exactly `width` bytes without changing the number it
/// spells: leading zero bytes are dropped or added as needed. There is no
/// result when the number does not fit.
pub fn to_fixed_width(s: &[u8], width: usize) -> (r: Option<Vec<u8>>)
    ensures
        r is Some <==> be_nat(s@) < span(width as nat),
        r matches Some(v) ==> v@ == be_bytes(be_nat(s@), width as nat),
{
    let needed = significant_len(s);
    proof {
        lemma_min_width_fits(be_nat(s@), width as nat);
    }
    if needed > width {
        return None;
    }
    let padding = width - needed;
    let from = s.len() - needed;
    let mut out: Vec<u8> = Vec::new();
    push_zeros(&mut out, padding);
    proof {
        assert(out@ =~= zeros(padding as nat));
    }
    let mut j: usize = 0;
    while j < needed
        invariant
            j <= needed,
            needed <= s@.len(),
            s@.len() <= usize::MAX,
            from == s@.len() - needed,
            out@ == zeros(padding as nat) + s@.subrange(from as int, from + j),
        decreases needed - j,
    {
        out.push(s[from + j]);
        proof {
            assert(out@ =~= zeros(padding as nat) + s@.subrange(from as int, from + j + 1));
        }
        j += 1;
    }
    proof {
        assert(s@.subrange(from as int, from + needed) =~= s@.skip(from as int));
        lemma_be_nat_leading_zeros(padding as nat, s@.skip(from as int));
        lemma_be_bytes_of_be_nat(out@);
    }
    Some(out)
}

} // verus!
