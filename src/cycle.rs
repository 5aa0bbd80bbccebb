use vstd::prelude::*;

verus! {

/// `s` written out `n` times, one copy after another.
pub open spec fn repeat_seq<T>(s: Seq<T>, n: nat) -> Seq<T>
    decreases n,
{
    if n == 0 {
        Seq::empty()
    } else {
        s + repeat_seq(s, (n - 1) as nat)
    }
}

/// Iterator that yields the elements of a sequence, the whole sequence
/// repeated a fixed number of times, and then stops.
#[derive(Clone, Debug)]
pub struct CycleN<T> {
    orig: Vec<T>,
    pos: usize,
    n: usize,
}

impl<T> View for CycleN<T> {
    type V = Seq<T>;

    /// What is still to come: the rest of the current round, then the
    /// rounds that remain after it.
    closed spec fn view(&self) -> Seq<T> {
        if self.n == 0 {
            Seq::empty()
        } else {
            self.orig@.subrange(self.pos as int, self.orig@.len() as int) + repeat_seq(
                self.orig@,
                (self.n - 1) as nat,
            )
        }
    }
}

impl<T: Copy> CycleN<T> {
    /// The cursor stands on an element whenever a round is under way.
    pub closed spec fn wf(&self) -> bool {
        &&& self.pos <= self.orig@.len()
        &&& self.n > 0 ==> self.pos < self.orig@.len()
    }

    /// Yields the next element, or `None` once every round is done.
    pub fn next(&mut self) -> (r: Option<T>)
        requires
            old(self).wf(),
        ensures
            final(self).wf(),
            old(self)@.len() == 0 ==> r is None && final(self)@ == old(self)@,
            old(self)@.len() > 0 ==> r == Some(old(self)@[0]) && final(self)@ == old(self)@.drop_first(),
    {
        if self.n == 0 {
            return None;
        }
        assert(self.pos < self.orig.len());
        let x = self.orig[self.pos];
        proof {
            let s = self.orig@;
            assert(s.subrange(self.pos as int, s.len() as int) =~= seq![x] + s.subrange(
                self.pos + 1,
                s.len() as int,
            ));
        }
        self.pos = self.pos + 1;
        if self.pos == self.orig.len() {
            self.pos = 0;
            self.n = self.n - 1;
            proof {
                let s = self.orig@;
                assert(s.subrange(s.len() as int, s.len() as int) =~= Seq::<T>::empty());
                if self.n > 0 {
                    assert(s.subrange(0, s.len() as int) =~= s);
                }
            }
        }
        Some(x)
    }

    /// Drains the iterator into a vector, in the order `next` yields.
    pub fn to_vec(self) -> (r: Vec<T>)
        requires
            self.wf(),
        ensures
            r@ == self@,
    {
        let mut it = self;
        let mut out: Vec<T> = Vec::new();
        loop
            invariant
                it.wf(),
                out@ + it@ == self@,
            ensures
                out@ == self@,
            decreases it@.len(),
        {
            let ghost before = it@;
            match it.next() {
                Some(x) => {
                    out.push(x);
                    proof {
                        assert(before =~= seq![x] + it@);
                        assert(out@ + it@ =~= self@);
                    }
                },
                None => {
                    assert(out@ =~= self@);
                    break;
                },
            }
        }
        out
    }
}

/// Repeats the sequence `it` `n` times: `n` rounds over its elements, each
/// from first to last.
pub fn cycle_n<T: Copy>(it: Vec<T>, n: usize) -> (r: CycleN<T>)
    ensures
        r.wf(),
        r@ == repeat_seq(it@, n as nat),
{
    let rounds: usize = if it.len() == 0 { 0 } else { n };
    let r = CycleN { orig: it, pos: 0, n: rounds };
    proof {
        let s = r.orig@;
        if rounds > 0 {
            assert(s.subrange(0, s.len() as int) =~= s);
        } else if s.len() == 0 {
            lemma_repeat_empty::<T>(s, n as nat);
        }
    }
    r
}

/// One more round appends one more copy of the sequence at the end.
pub proof fn lemma_repeat_push<T>(s: Seq<T>, n: nat)
    ensures
        repeat_seq(s, n + 1) =~= repeat_seq(s, n) + s,
    decreases n,
{
    if n > 0 {
        lemma_repeat_push(s, (n - 1) as nat);
        assert(repeat_seq(s, n + 1) =~= s + repeat_seq(s, n));
    } else {
        assert(repeat_seq(s, 0) =~= Seq::<T>::empty());
    }
}

/// Repeating the empty sequence gives the empty sequence.
proof fn lemma_repeat_empty<T>(s: Seq<T>, n: nat)
    requires
        s.len() == 0,
    ensures
        repeat_seq(s, n) =~= Seq::<T>::empty(),
    decreases n,
{
    if n > 0 {
        lemma_repeat_empty(s, (n - 1) as nat);
    }
}

} // verus!
