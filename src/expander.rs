//! The work-stack machine that walks a grammar's expansion one frame at a
//! time, and the spec functions that say what it produces.

use vstd::prelude::*;
use crate::grammar::Grammar;

verus! {

/// The largest depth for which the produced buffers stay addressable with
/// 32-bit indices.
pub const MAX_DEPTH: usize = 19;

/// One pending unit of work: the remaining depth, the symbol to expand and
/// the turn applied when the frame is popped.
pub struct Frame<S, T> {
    pub rem: usize,
    pub sym: S,
    pub turn: T,
}

/// `3` raised to `n`.
pub open spec fn pow3(n: nat) -> nat
    decreases n,
{
    if n == 0 {
        1
    } else {
        3 * pow3((n - 1) as nat)
    }
}

/// The turns of a frame and of all its descendants, in traversal order: the
/// frame's own turn, then the expansion of each child at one depth less.
pub open spec fn expansion<G: Grammar>(rem: nat, s: G::Sym, t: G::Turn) -> Seq<G::Turn>
    decreases rem,
{
    if rem == 0 {
        seq![t]
    } else {
        let c = G::rule(s);
        let r = (rem - 1) as nat;
        seq![t] + expansion::<G>(r, c[0].0, c[0].1) + expansion::<G>(r, c[1].0, c[1].1)
            + expansion::<G>(r, c[2].0, c[2].1)
    }
}

/// Every turn instruction of the curve of the given depth, holds included.
pub open spec fn curve_turns<G: Grammar>(depth: nat) -> Seq<G::Turn> {
    expansion::<G>(depth, G::root().0, G::root().1)
}

/// The turns of `s` that move, in order.
pub open spec fn moving<G: Grammar>(s: Seq<G::Turn>) -> Seq<G::Turn>
    decreases s.len(),
{
    if s.len() == 0 {
        seq![]
    } else if G::moves(s[0]) {
        seq![s[0]] + moving::<G>(s.drop_first())
    } else {
        moving::<G>(s.drop_first())
    }
}

/// The moving turns of the curve of the given depth: one per segment.
pub open spec fn curve_moves<G: Grammar>(depth: nat) -> Seq<G::Turn> {
    moving::<G>(curve_turns::<G>(depth))
}

/// What a stack (bottom first) still has to produce: the expansion of its
/// top frame, then that of the frames below it.
pub open spec fn pending<G: Grammar>(st: Seq<Frame<G::Sym, G::Turn>>) -> Seq<G::Turn>
    decreases st.len(),
{
    if st.len() == 0 {
        seq![]
    } else {
        let f = st.last();
        expansion::<G>(f.rem as nat, f.sym, f.turn) + pending::<G>(st.drop_last())
    }
}

pub proof fn lemma_expansion_nonempty<G: Grammar>(rem: nat, s: G::Sym, t: G::Turn)
    ensures
        expansion::<G>(rem, s, t).len() >= 1,
        expansion::<G>(rem, s, t)[0] == t,
{
    reveal_with_fuel(expansion, 1);
}

pub proof fn lemma_moving_append<G: Grammar>(a: Seq<G::Turn>, b: Seq<G::Turn>)
    ensures
        moving::<G>(a + b) == moving::<G>(a) + moving::<G>(b),
    decreases a.len(),
{
    if a.len() == 0 {
        assert(a + b =~= b);
        assert(moving::<G>(a) + moving::<G>(b) =~= moving::<G>(b));
    } else {
        assert((a + b).drop_first() =~= a.drop_first() + b);
        lemma_moving_append::<G>(a.drop_first(), b);
        if G::moves(a[0]) {
            assert(moving::<G>(a + b) =~= moving::<G>(a) + moving::<G>(b));
        }
    }
}

/// A frame whose turn moves has `3^rem` moving turns in its expansion; one
/// whose turn holds has one fewer.
pub proof fn lemma_expansion_moves<G: Grammar>(rem: nat, s: G::Sym, t: G::Turn)
    ensures
        moving::<G>(expansion::<G>(rem, s, t)).len() + (if G::moves(t) { 0int } else { 1int })
            == pow3(rem),
    decreases rem,
{
    let e = expansion::<G>(rem, s, t);
    assert(e.drop_first() =~= e.subrange(1, e.len() as int));
    if rem == 0 {
        assert(e.drop_first() =~= Seq::<G::Turn>::empty());
        assert(moving::<G>(e.drop_first()) =~= Seq::<G::Turn>::empty());
    } else {
        let c = G::rule(s);
        let r = (rem - 1) as nat;
        G::lemma_shape(s);
        let e0 = expansion::<G>(r, c[0].0, c[0].1);
        let e1 = expansion::<G>(r, c[1].0, c[1].1);
        let e2 = expansion::<G>(r, c[2].0, c[2].1);
        assert(e.drop_first() =~= e0 + e1 + e2);
        lemma_moving_append::<G>(e0 + e1, e2);
        lemma_moving_append::<G>(e0, e1);
        lemma_expansion_moves::<G>(r, c[0].0, c[0].1);
        lemma_expansion_moves::<G>(r, c[1].0, c[1].1);
        lemma_expansion_moves::<G>(r, c[2].0, c[2].1);
    }
}

/// The curve of depth `d` has exactly `3^d` moving turns.
pub proof fn lemma_curve_move_count<G: Grammar>(depth: nat)
    ensures
        curve_moves::<G>(depth).len() == pow3(depth),
{
    G::lemma_shape(arbitrary());
    lemma_expansion_moves::<G>(depth, G::root().0, G::root().1);
}


/// The generator state: a work stack of frames, bottom first. Nothing else
/// is needed to resume production.
pub struct Expander<G: Grammar> {
    stack: Vec<Frame<G::Sym, G::Turn>>,
    depth: usize,
}

impl<G: Grammar> Expander<G> {
    /// The depth the expansion was started with.
    pub closed spec fn depth(&self) -> nat {
        self.depth as nat
    }

    /// The turns still to be produced.
    pub closed spec fn remaining(&self) -> Seq<G::Turn> {
        pending::<G>(self.stack@)
    }

    /// The number of frames on the work stack.
    pub closed spec fn height(&self) -> nat {
        self.stack@.len()
    }

    /// Frames never carry more than the starting depth, their remaining
    /// depths do not grow towards the top, and the frame at position `i`
    /// (from the bottom) has at most `depth - i / 2` left.
    pub closed spec fn wf(&self) -> bool {
        let st = self.stack@;
        &&& forall|i: int| 0 <= i < st.len() ==> st[i].rem <= self.depth
        &&& forall|i: int, j: int| 0 <= i < j < st.len() ==> st[j].rem <= st[i].rem
        &&& forall|i: int| 0 <= i < st.len() ==> i <= 2 * (self.depth - st[i].rem)
    }

    /// The work stack never holds more than `2 * depth + 1` frames.
    pub proof fn lemma_height_bound(&self)
        requires
            self.wf(),
        ensures
            self.height() <= 2 * self.depth() + 1,
    {
        let n = self.stack@.len();
        if n > 0 {
            assert((n - 1) <= 2 * (self.depth - self.stack@[n - 1].rem));
        }
    }

    /// Starts the expansion of the grammar's root at `depth`.
    pub fn new(depth: usize) -> (r: Self)
        ensures
            r.wf(),
            r.depth() == depth,
            r.remaining() == curve_turns::<G>(depth as nat),
            r.height() == 1,
    {
        let (sym, turn) = G::root_frame();
        let mut stack = Vec::new();
        stack.push(Frame { rem: depth, sym, turn });
        let r = Expander { stack, depth };
        proof {
            assert(r.stack@.drop_last() =~= Seq::<Frame<G::Sym, G::Turn>>::empty());
            assert(pending::<G>(r.stack@.drop_last()) =~= Seq::<G::Turn>::empty());
            assert(r.remaining() =~= curve_turns::<G>(depth as nat));
        }
        r
    }

    /// The number of frames on the work stack.
    pub fn frames(&self) -> (r: usize)
        ensures
            r == self.height(),
    {
        self.stack.len()
    }

    /// Pops one frame, pushes its children so that they pop in traversal
    /// order, and hands back the popped frame's turn; `None` once the
    /// expansion is exhausted.
    pub fn next_turn(&mut self) -> (r: Option<G::Turn>)
        requires
            old(self).wf(),
        ensures
            final(self).wf(),
            final(self).depth() == old(self).depth(),
            old(self).remaining().len() == 0 ==> r is None && final(self).remaining().len() == 0,
            old(self).remaining().len() > 0 ==> r == Some(old(self).remaining()[0])
                && final(self).remaining() == old(self).remaining().drop_first(),
    {
        let ghost old_st = self.stack@;
        match self.stack.pop() {
            None => {
                proof {
                    assert(old_st.len() == 0);
                }
                None
            },
            Some(f) => {
                let ghost rest = self.stack@;
                proof {
                    assert(old_st.drop_last() =~= rest);
                    lemma_expansion_nonempty::<G>(f.rem as nat, f.sym, f.turn);
                    assert(old_st.len() >= 1 ==> old_st.len() - 1 <= 2 * (self.depth - f.rem));
                }
                if f.rem > 0 {
                    let r = f.rem - 1;
                    let c = G::children(f.sym);
                    proof {
                        G::lemma_shape(f.sym);
                    }
                    self.stack.push(Frame { rem: r, sym: c[2].0, turn: c[2].1 });
                    self.stack.push(Frame { rem: r, sym: c[1].0, turn: c[1].1 });
                    self.stack.push(Frame { rem: r, sym: c[0].0, turn: c[0].1 });
                    proof {
                        let st = self.stack@;
                        let e0 = expansion::<G>(r as nat, c[0].0, c[0].1);
                        let e1 = expansion::<G>(r as nat, c[1].0, c[1].1);
                        let e2 = expansion::<G>(r as nat, c[2].0, c[2].1);
                        assert(st.drop_last() =~= rest.push(st[rest.len() as int]).push(st[rest.len() + 1int]));
                        assert(st.drop_last().drop_last() =~= rest.push(st[rest.len() as int]));
                        assert(st.drop_last().drop_last().drop_last() =~= rest);
                        assert(pending::<G>(st.drop_last().drop_last()) == e2 + pending::<G>(rest));
                        assert(pending::<G>(st.drop_last()) == e1 + pending::<G>(st.drop_last().drop_last()));
                        assert(pending::<G>(st) == e0 + pending::<G>(st.drop_last()));
                        assert(pending::<G>(st) =~= e0 + (e1 + (e2 + pending::<G>(rest))));
                        assert(expansion::<G>(f.rem as nat, f.sym, f.turn) =~= seq![f.turn] + e0 + e1 + e2);
                        assert(pending::<G>(st) =~= pending::<G>(old_st).drop_first());
                    }
                } else {
                    proof {
                        assert(expansion::<G>(0, f.sym, f.turn) =~= seq![f.turn]);
                        assert(pending::<G>(self.stack@) =~= pending::<G>(old_st).drop_first());
                    }
                }
                Some(f.turn)
            },
        }
    }
}


/// The moving turns of the curve of the given depth, in order: one per
/// segment of the polyline, so `3^depth` of them.
pub fn curve_segments<G: Grammar>(depth: usize) -> (r: Vec<G::Turn>)
    requires
        depth <= MAX_DEPTH,
    ensures
        r@ == curve_moves::<G>(depth as nat),
        r@.len() == pow3(depth as nat),
{
    let mut e = Expander::<G>::new(depth);
    let mut out: Vec<G::Turn> = Vec::new();
    loop
        invariant
            e.wf(),
            out@ + moving::<G>(e.remaining()) == curve_moves::<G>(depth as nat),
        ensures
            e.remaining().len() == 0,
        decreases e.remaining().len(),
    {
        let ghost before = e.remaining();
        match e.next_turn() {
            None => {
                break;
            },
            Some(t) => {
                proof {
                    assert(before.drop_first() == e.remaining());
                }
                if G::is_move(t) {
                    out.push(t);
                    proof {
                        assert(moving::<G>(before) == seq![t] + moving::<G>(e.remaining()));
                        assert(out@ + moving::<G>(e.remaining()) =~= curve_moves::<G>(depth as nat));
                    }
                }
            },
        }
    }
    proof {
        assert(moving::<G>(e.remaining()) =~= Seq::<G::Turn>::empty());
        assert(out@ =~= curve_moves::<G>(depth as nat));
        lemma_curve_move_count::<G>(depth as nat);
    }
    out
}

} // verus!
