//! The planar variant: headings index six directions 60° apart, and
//! positions are exact points of the triangular lattice.

use vstd::prelude::*;
use crate::grammar::{Bend, Grammar, Planar};
use crate::expander::{curve_turns, moving, pow3, Expander, MAX_DEPTH};

verus! {

/// A point of the triangular lattice, `a * (1, 0) + b * (1/2, sqrt(3)/2)`.
#[derive(Clone, Copy, Debug, PartialEq, Eq, Structural)]
pub struct Point {
    pub a: i64,
    pub b: i64,
}

impl View for Point {
    type V = (int, int);

    open spec fn view(&self) -> (int, int) {
        (self.a as int, self.b as int)
    }
}

/// The unit step of heading `h` in lattice coordinates; heading `k` points
/// at `k * 60°`.
pub open spec fn direction(h: nat) -> (int, int) {
    if h == 0 {
        (1, 0)
    } else if h == 1 {
        (0, 1)
    } else if h == 2 {
        (-1, 1)
    } else if h == 3 {
        (-1, 0)
    } else if h == 4 {
        (0, -1)
    } else {
        (1, -1)
    }
}

/// The heading after a turn: one step counter-clockwise, one clockwise, or
/// unchanged, modulo six.
pub open spec fn turned(h: nat, t: Bend) -> nat {
    match t {
        Bend::Left => (h + 1) % 6,
        Bend::Right => (h + 5) % 6,
        Bend::Straight => h,
    }
}

/// The positions reached from heading `h` and position `p` by the turns of
/// `s`: one after each turn that moves.
pub open spec fn trace(h: nat, p: (int, int), s: Seq<Bend>) -> Seq<(int, int)>
    decreases s.len(),
{
    if s.len() == 0 {
        seq![]
    } else {
        let h2 = turned(h, s[0]);
        if s[0] == Bend::Straight {
            trace(h2, p, s.drop_first())
        } else {
            let d = direction(h2);
            let q = (p.0 + d.0, p.1 + d.1);
            seq![q] + trace(h2, q, s.drop_first())
        }
    }
}

/// The planar curve of the given depth: the origin, then the position after
/// every moving turn, starting from heading 0.
pub open spec fn planar_curve(depth: nat) -> Seq<(int, int)> {
    seq![(0int, 0int)] + trace(0, (0, 0), curve_turns::<Planar>(depth))
}

proof fn lemma_trace_len(h: nat, p: (int, int), s: Seq<Bend>)
    ensures
        trace(h, p, s).len() == moving::<Planar>(s).len(),
    decreases s.len(),
{
    if s.len() > 0 {
        let h2 = turned(h, s[0]);
        let d = direction(h2);
        lemma_trace_len(h2, p, s.drop_first());
        lemma_trace_len(h2, (p.0 + d.0, p.1 + d.1), s.drop_first());
    }
}

proof fn lemma_pow3_mono(m: nat, n: nat)
    requires
        m <= n,
    ensures
        pow3(m) <= pow3(n),
    decreases n,
{
    if m < n {
        lemma_pow3_mono(m, (n - 1) as nat);
    }
}

/// The curve of depth `d` has `3^d + 1` positions.
pub proof fn lemma_planar_count(depth: nat)
    ensures
        planar_curve(depth).len() == pow3(depth) + 1,
{
    lemma_trace_len(0, (0, 0), curve_turns::<Planar>(depth));
    crate::expander::lemma_curve_move_count::<Planar>(depth);
}

/// Every planar curve starts at the origin.
pub proof fn lemma_planar_starts_at_origin(depth: nat)
    ensures
        planar_curve(depth)[0] == (0int, 0int),
{
}

/// The lattice step of a heading in `0..6`.
fn step_of(h: u8) -> (r: (i64, i64))
    requires
        h < 6,
    ensures
        r.0 as int == direction(h as nat).0,
        r.1 as int == direction(h as nat).1,
{
    match h {
        0 => (1, 0),
        1 => (0, 1),
        2 => (-1, 1),
        3 => (-1, 0),
        4 => (0, -1),
        _ => (1, -1),
    }
}

/// The heading after a turn.
fn turn_heading(h: u8, t: Bend) -> (r: u8)
    requires
        h < 6,
    ensures
        r < 6,
        r as nat == turned(h as nat, t),
{
    match t {
        Bend::Left => if h == 5 { 0 } else { h + 1 },
        Bend::Right => if h == 0 { 5 } else { h - 1 },
        Bend::Straight => h,
    }
}

/// The direction model of the planar variant: a heading index in `0..6`
/// and the current position.
#[derive(Clone, Copy, Debug, PartialEq, Eq, Structural)]
pub struct Walker {
    pub heading: u8,
    pub pos: Point,
}

impl Walker {
    pub open spec fn wf(&self) -> bool {
        self.heading < 6
    }

    /// At the origin, heading 0.
    pub fn new() -> (r: Self)
        ensures
            r.wf(),
            r.heading == 0,
            r.pos@ == (0int, 0int),
    {
        Walker { heading: 0, pos: Point { a: 0, b: 0 } }
    }

    /// Applies a turn: updates the heading and, unless the turn is
    /// `Straight`, steps one unit along the new heading. Returns whether it
    /// stepped.
    pub fn apply(&mut self, t: Bend) -> (moved: bool)
        requires
            old(self).wf(),
            i64::MIN < old(self).pos.a < i64::MAX,
            i64::MIN < old(self).pos.b < i64::MAX,
        ensures
            final(self).wf(),
            final(self).heading as nat == turned(old(self).heading as nat, t),
            moved == (t != Bend::Straight),
            moved ==> final(self).pos@ == (
                old(self).pos@.0 + direction(final(self).heading as nat).0,
                old(self).pos@.1 + direction(final(self).heading as nat).1,
            ),
            !moved ==> final(self).pos == old(self).pos,
    {
        self.heading = turn_heading(self.heading, t);
        if Planar::is_move(t) {
            let (da, db) = step_of(self.heading);
            self.pos = Point { a: self.pos.a + da, b: self.pos.b + db };
            true
        } else {
            false
        }
    }
}

/// The positions of the planar curve of the given depth, produced by the
/// work-stack machine.
pub fn generate_planar(depth: usize) -> (r: Vec<Point>)
    requires
        depth <= MAX_DEPTH,
    ensures
        r@.map_values(|p: Point| p@) == planar_curve(depth as nat),
        r@.len() == pow3(depth as nat) + 1,
{
    let ghost full = planar_curve(depth as nat);
    let ghost total = pow3(depth as nat) + 1;
    proof {
        lemma_pow3_mono(depth as nat, 19);
        reveal_with_fuel(pow3, 20);
        assert(pow3(19) == 1162261467);
        crate::expander::lemma_curve_move_count::<Planar>(depth as nat);
    }
    let mut e = Expander::<Planar>::new(depth);
    let mut w = Walker::new();
    let mut out: Vec<Point> = Vec::new();
    out.push(w.pos);
    proof {
        assert(out@.map_values(|p: Point| p@) + trace(0, w.pos@, e.remaining()) =~= full);
    }
    loop
        invariant
            e.wf(),
            w.wf(),
            total <= 1162261468,
            out@.map_values(|p: Point| p@) + trace(w.heading as nat, w.pos@, e.remaining()) == full,
            out@.len() + moving::<Planar>(e.remaining()).len() == total,
            -(out@.len() as int) <= w.pos.a <= out@.len(),
            -(out@.len() as int) <= w.pos.b <= out@.len(),
        ensures
            e.remaining().len() == 0,
        decreases e.remaining().len(),
    {
        let ghost before = e.remaining();
        let ghost old_out = out@;
        let ghost old_pos = w.pos@;
        let ghost old_h = w.heading as nat;
        match e.next_turn() {
            None => {
                break;
            },
            Some(t) => {
                proof {
                    assert(before.drop_first() == e.remaining());
                    assert(before[0] == t);
                }
                if w.apply(t) {
                    let pos = w.pos;
                    proof {
                        assert(moving::<Planar>(before) == seq![t] + moving::<Planar>(e.remaining()));
                    }
                    out.push(pos);
                    proof {
                        assert(trace(old_h, old_pos, before) == seq![pos@] + trace(
                            w.heading as nat,
                            pos@,
                            e.remaining(),
                        ));
                        assert(out@.map_values(|p: Point| p@) =~= old_out.map_values(
                            |p: Point| p@,
                        ).push(pos@));
                        assert(out@.map_values(|p: Point| p@) + trace(
                            w.heading as nat,
                            w.pos@,
                            e.remaining(),
                        ) =~= full);
                    }
                } else {
                    proof {
                        assert(trace(old_h, old_pos, before) == trace(
                            w.heading as nat,
                            w.pos@,
                            e.remaining(),
                        ));
                    }
                }
            },
        }
    }
    proof {
        assert(trace(w.heading as nat, w.pos@, e.remaining()) =~= Seq::<(int, int)>::empty());
        assert(out@.map_values(|p: Point| p@) =~= full);
        lemma_planar_count(depth as nat);
    }
    out
}

} // verus!
