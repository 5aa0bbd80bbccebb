use crate::cycle::{lemma_repeat_push, repeat_seq};
use vstd::prelude::*;

verus! {

/// One piece of a sequence literal with spread syntax.
#[derive(Clone, Debug)]
pub enum Piece<T> {
    /// A single element, `x`.
    One(T),
    /// A spread, `...xs`: every element of `xs`, in order.
    Spread(Vec<T>),
    /// `[x; n]`: the element `x`, `n` times.
    Repeat(T, usize),
    /// `[...xs; n]`: the elements of `xs`, the whole run repeated `n` times.
    Cycle(Vec<T>, usize),
}

/// The elements that one piece contributes.
pub open spec fn piece_seq<T>(p: Piece<T>) -> Seq<T> {
    match p {
        Piece::One(x) => seq![x],
        Piece::Spread(xs) => xs@,
        Piece::Repeat(x, n) => Seq::new(n as nat, |i: int| x),
        Piece::Cycle(xs, n) => repeat_seq(xs@, n as nat),
    }
}

/// The elements of all pieces, spliced together in order.
pub open spec fn flatten<T>(ps: Seq<Piece<T>>) -> Seq<T>
    decreases ps.len(),
{
    if ps.len() == 0 {
        Seq::empty()
    } else {
        flatten(ps.drop_last()) + piece_seq(ps.last())
    }
}

/// Splicing two runs of pieces one after the other gives the two results
/// one after the other.
pub proof fn lemma_flatten_append<T>(a: Seq<Piece<T>>, b: Seq<Piece<T>>)
    ensures
        flatten(a + b) =~= flatten(a) + flatten(b),
    decreases b.len(),
{
    if b.len() == 0 {
        assert(a + b =~= a);
    } else {
        lemma_flatten_append(a, b.drop_last());
        assert((a + b).drop_last() =~= a + b.drop_last());
        assert((a + b).last() == b.last());
    }
}

/// Appends every element of `xs` to `out`.
fn extend_copied<T: Copy>(out: &mut Vec<T>, xs: &Vec<T>)
    ensures
        final(out)@ == old(out)@ + xs@,
{
    let ghost start = out@;
    let mut j: usize = 0;
    while j < xs.len()
        invariant
            j <= xs@.len(),
            out@ == start + xs@.subrange(0, j as int),
        decreases xs@.len() - j,
    {
        out.push(xs[j]);
        j = j + 1;
        assert(out@ =~= start + xs@.subrange(0, j as int));
    }
    assert(xs@.subrange(0, j as int) =~= xs@);
}

/// Appends the elements of one piece to `out`.
fn push_piece<T: Copy>(out: &mut Vec<T>, p: &Piece<T>)
    ensures
        final(out)@ == old(out)@ + piece_seq(*p),
{
    let ghost start = out@;
    match p {
        Piece::One(x) => {
            out.push(*x);
            assert(out@ =~= start + seq![*x]);
        },
        Piece::Spread(xs) => {
            extend_copied(out, xs);
        },
        Piece::Repeat(x, n) => {
            let mut k: usize = 0;
            while k < *n
                invariant
                    k <= *n,
                    out@ == start + Seq::new(k as nat, |i: int| *x),
                decreases *n - k,
            {
                out.push(*x);
                k = k + 1;
                assert(out@ =~= start + Seq::new(k as nat, |i: int| *x));
            }
        },
        Piece::Cycle(xs, n) => {
            let mut k: usize = 0;
            while k < *n
                invariant
                    k <= *n,
                    out@ == start + repeat_seq(xs@, k as nat),
                decreases *n - k,
            {
                extend_copied(out, xs);
                proof {
                    lemma_repeat_push(xs@, k as nat);
                }
                k = k + 1;
                assert(out@ =~= start + repeat_seq(xs@, k as nat));
            }
        },
    }
}

/// Builds the vector that a sequence literal with spread pieces denotes:
/// each piece's elements, in the order of the pieces.
pub fn vek<T: Copy>(parts: &[Piece<T>]) -> (r: Vec<T>)
    ensures
        r@ == flatten(parts@),
{
    let mut out: Vec<T> = Vec::new();
    let mut i: usize = 0;
    while i < parts.len()
        invariant
            i <= parts@.len(),
            out@ == flatten(parts@.subrange(0, i as int)),
        decreases parts@.len() - i,
    {
        push_piece(&mut out, &parts[i]);
        proof {
            let pre = parts@.subrange(0, i as int);
            assert(parts@.subrange(0, i + 1).drop_last() =~= pre);
        }
        i = i + 1;
    }
    assert(parts@.subrange(0, i as int) =~= parts@);
    out
}

} // verus!
