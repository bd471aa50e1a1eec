//! The canonical byte encoding that channel data is hashed and signed in.
//!
//! Fixed-length blobs are written as they are, integers as eight
//! little-endian bytes, and sequences behind their element count. Every
//! encoded message starts with a tag byte naming its kind, so that a
//! signature on one kind of message is never a signature on another.
use vstd::bytes::{spec_u64_to_le_bytes, u64_to_le_bytes, lemma_auto_spec_u64_to_from_le_bytes};
use vstd::prelude::*;

verus! {

/// Tag byte of an encoded parameter set.
pub const TAG_PARAMS: u8 = 0;

/// Tag byte of an encoded channel state.
pub const TAG_STATE: u8 = 1;

/// Tag byte of an encoded withdrawal request.
pub const TAG_WITHDRAWAL: u8 = 2;

/// Eight little-endian bytes.
pub open spec fn u64_bytes(x: u64) -> Seq<u8> {
    spec_u64_to_le_bytes(x)
}

/// A boolean as one byte.
pub open spec fn bool_bytes(b: bool) -> Seq<u8> {
    seq![if b { 1u8 } else { 0u8 }]
}

/// The concatenation of the given blobs, in order.
pub open spec fn concat_bytes(blobs: Seq<Seq<u8>>) -> Seq<u8>
    decreases blobs.len(),
{
    if blobs.len() == 0 {
        seq![]
    } else {
        concat_bytes(blobs.drop_last()) + blobs.last()
    }
}

/// Each integer as eight bytes, in order.
pub open spec fn u64s_bytes(xs: Seq<u64>) -> Seq<u8> {
    concat_bytes(xs.map_values(|x: u64| u64_bytes(x)))
}

/// A sequence length as it is encoded.
pub open spec fn len_bytes(n: nat) -> Seq<u8> {
    u64_bytes(n as u64)
}

/// Appends `b` to `out`.
pub fn push_bytes(out: &mut Vec<u8>, b: &[u8])
    ensures
        final(out)@ == old(out)@ + b@,
{
    let mut i: usize = 0;
    while i < b.len()
        invariant
            i <= b@.len(),
            out@ == old(out)@ + b@.take(i as int),
        decreases b@.len() - i,
    {
        out.push(b[i]);
        i = i + 1;
        assert(out@ =~= old(out)@ + b@.take(i as int));
    }
    assert(b@.take(b@.len() as int) =~= b@);
}

/// Appends the encoding of `x` to `out`.
pub fn push_u64(out: &mut Vec<u8>, x: u64)
    ensures
        final(out)@ == old(out)@ + u64_bytes(x),
{
    let b = u64_to_le_bytes(x);
    push_bytes(out, b.as_slice());
}

/// Appends the encoding of a sequence length to `out`.
pub fn push_len(out: &mut Vec<u8>, n: usize)
    ensures
        final(out)@ == old(out)@ + len_bytes(n as nat),
{
    push_u64(out, n as u64);
}

/// Appends the encoding of `b` to `out`.
pub fn push_bool(out: &mut Vec<u8>, b: bool)
    ensures
        final(out)@ == old(out)@ + bool_bytes(b),
{
    out.push(if b { 1u8 } else { 0u8 });
    assert(final(out)@ =~= old(out)@ + bool_bytes(b));
}

/// Appends the encoding of each integer of `xs` to `out`.
pub fn push_u64s(out: &mut Vec<u8>, xs: &Vec<u64>)
    ensures
        final(out)@ == old(out)@ + u64s_bytes(xs@),
{
    let mut i: usize = 0;
    while i < xs.len()
        invariant
            i <= xs@.len(),
            out@ == old(out)@ + u64s_bytes(xs@.take(i as int)),
        decreases xs@.len() - i,
    {
        push_u64(out, xs[i]);
        proof {
            let t = xs@.take(i + 1);
            assert(t.drop_last() =~= xs@.take(i as int));
            assert(t.map_values(|x: u64| u64_bytes(x)).drop_last() =~= xs@.take(i as int).map_values(
                |x: u64| u64_bytes(x),
            ));
        }
        i = i + 1;
    }
    assert(xs@.take(xs@.len() as int) =~= xs@);
}

/// If two concatenations are equal and their first parts have equal
/// lengths, the parts are equal.
pub proof fn lemma_split(a1: Seq<u8>, b1: Seq<u8>, a2: Seq<u8>, b2: Seq<u8>)
    requires
        a1 + b1 == a2 + b2,
        a1.len() == a2.len(),
    ensures
        a1 == a2,
        b1 == b2,
{
    assert(a1 =~= (a1 + b1).subrange(0, a1.len() as int));
    assert(a2 =~= (a2 + b2).subrange(0, a2.len() as int));
    assert(b1 =~= (a1 + b1).subrange(a1.len() as int, (a1 + b1).len() as int));
    assert(b2 =~= (a2 + b2).subrange(a2.len() as int, (a2 + b2).len() as int));
}

/// The encoding of an integer has eight bytes and determines the integer.
pub proof fn lemma_u64_bytes(x: u64, y: u64)
    ensures
        u64_bytes(x).len() == 8,
        u64_bytes(x) == u64_bytes(y) ==> x == y,
{
    lemma_auto_spec_u64_to_from_le_bytes();
}

/// A length encoding determines a length that fits in 64 bits.
pub proof fn lemma_len_bytes(m: nat, n: nat)
    requires
        m <= u64::MAX,
        n <= u64::MAX,
    ensures
        len_bytes(m).len() == 8,
        len_bytes(m) == len_bytes(n) ==> m == n,
{
    lemma_u64_bytes(m as u64, n as u64);
}

/// Concatenating blobs of one fixed width `w` gives `w` bytes per blob, and
/// the result determines the blobs once their number is known.
pub proof fn lemma_concat_fixed(s1: Seq<Seq<u8>>, s2: Seq<Seq<u8>>, w: nat)
    requires
        forall|i: int| 0 <= i < s1.len() ==> #[trigger] s1[i].len() == w,
        forall|i: int| 0 <= i < s2.len() ==> #[trigger] s2[i].len() == w,
    ensures
        concat_bytes(s1).len() == s1.len() * w,
        (s1.len() == s2.len() && concat_bytes(s1) == concat_bytes(s2)) ==> s1 == s2,
    decreases s1.len(),
{
    if s1.len() > 0 {
        let d1 = s1.drop_last();
        let d2 = s2.drop_last();
        assert forall|i: int| 0 <= i < d1.len() implies #[trigger] d1[i].len() == w by {
            assert(d1[i] == s1[i]);
        }
        if s2.len() > 0 {
            assert forall|i: int| 0 <= i < d2.len() implies #[trigger] d2[i].len() == w by {
                assert(d2[i] == s2[i]);
            }
            lemma_concat_fixed(d1, d2, w);
        } else {
            lemma_concat_fixed(d1, d1, w);
        }
        assert(s1[s1.len() - 1].len() == w);
        assert(concat_bytes(s1).len() == d1.len() * w + w) by (nonlinear_arith)
            requires
                concat_bytes(s1).len() == concat_bytes(d1).len() + w,
                concat_bytes(d1).len() == d1.len() * w,
        ;
        assert(d1.len() * w + w == s1.len() * w) by (nonlinear_arith)
            requires
                d1.len() + 1 == s1.len(),
        ;
        if s1.len() == s2.len() && concat_bytes(s1) == concat_bytes(s2) {
            assert(s2[s2.len() - 1].len() == w);
            lemma_split(concat_bytes(d1), s1.last(), concat_bytes(d2), s2.last());
            assert(s1 =~= s2) by {
                assert(d1 == d2);
                assert forall|i: int| 0 <= i < s1.len() implies s1[i] == s2[i] by {
                    if i < d1.len() {
                        assert(s1[i] == d1[i]);
                        assert(s2[i] == d2[i]);
                    }
                }
            }
        }
    }
}

/// Encoded integer sequences of equal length determine the integers.
pub proof fn lemma_u64s_bytes(xs: Seq<u64>, ys: Seq<u64>)
    ensures
        u64s_bytes(xs).len() == xs.len() * 8,
        (xs.len() == ys.len() && u64s_bytes(xs) == u64s_bytes(ys)) ==> xs == ys,
{
    let f = |x: u64| u64_bytes(x);
    let bx = xs.map_values(f);
    let by = ys.map_values(f);
    assert forall|i: int| 0 <= i < bx.len() implies #[trigger] bx[i].len() == 8 by {
        lemma_u64_bytes(xs[i], xs[i]);
    }
    assert forall|i: int| 0 <= i < by.len() implies #[trigger] by[i].len() == 8 by {
        lemma_u64_bytes(ys[i], ys[i]);
    }
    lemma_concat_fixed(bx, by, 8);
    if xs.len() == ys.len() && u64s_bytes(xs) == u64s_bytes(ys) {
        assert forall|i: int| 0 <= i < xs.len() implies xs[i] == ys[i] by {
            assert(bx[i] == by[i]);
            lemma_u64_bytes(xs[i], ys[i]);
        }
        assert(xs =~= ys);
    }
}

} // verus!
