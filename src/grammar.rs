//! Rewriting grammars: the symbol alphabet, the turn alphabet and the rule
//! table of each curve variant.

use vstd::prelude::*;

verus! {

/// A fixed rewriting grammar whose every non-terminal expansion yields three
/// children. The first child in traversal order carries a turn that does not
/// move, the other two carry turns that move.
pub trait Grammar {
    type Sym: Copy;

    type Turn: Copy;

    /// The symbol and turn of the frame that starts every expansion.
    spec fn root() -> (Self::Sym, Self::Turn);

    /// The children of a symbol, in the order in which they are traversed.
    spec fn rule(s: Self::Sym) -> Seq<(Self::Sym, Self::Turn)>;

    /// Whether a turn instruction moves the current position.
    spec fn moves(t: Self::Turn) -> bool;

    fn root_frame() -> (r: (Self::Sym, Self::Turn))
        ensures
            r == Self::root(),
    ;

    fn children(s: Self::Sym) -> (r: [(Self::Sym, Self::Turn); 3])
        ensures
            r@ == Self::rule(s),
    ;

    fn is_move(t: Self::Turn) -> (r: bool)
        ensures
            r == Self::moves(t),
    ;

    /// Every rule has three children, of which exactly the last two move,
    /// and the root turn moves.
    proof fn lemma_shape(s: Self::Sym)
        ensures
            Self::rule(s).len() == 3,
            !Self::moves(Self::rule(s)[0].1),
            Self::moves(Self::rule(s)[1].1),
            Self::moves(Self::rule(s)[2].1),
            Self::moves(Self::root().1),
    ;
}

/// Symbols of the spatial grammar, one per rotation axis.
#[derive(Clone, Copy, Debug, PartialEq, Eq, Structural)]
pub enum Axis {
    X,
    Y,
    Z,
}

/// Turns of the spatial grammar: compose the heading with one of the three
/// fixed rotations `A`, `B`, `C` and step, or hold still.
#[derive(Clone, Copy, Debug, PartialEq, Eq, Structural)]
pub enum Spin {
    Hold,
    A,
    B,
    C,
}

/// The three-dimensional variant, whose headings are orientations.
pub struct Spatial;

impl Grammar for Spatial {
    type Sym = Axis;

    type Turn = Spin;

    open spec fn root() -> (Axis, Spin) {
        (Axis::Y, Spin::A)
    }

    open spec fn rule(s: Axis) -> Seq<(Axis, Spin)> {
        match s {
            Axis::X => seq![(Axis::Y, Spin::Hold), (Axis::Z, Spin::A), (Axis::Y, Spin::A)],
            Axis::Y => seq![(Axis::Z, Spin::Hold), (Axis::X, Spin::B), (Axis::Z, Spin::B)],
            Axis::Z => seq![(Axis::X, Spin::Hold), (Axis::Y, Spin::C), (Axis::X, Spin::C)],
        }
    }

    open spec fn moves(t: Spin) -> bool {
        t != Spin::Hold
    }

    fn root_frame() -> (r: (Axis, Spin)) {
        (Axis::Y, Spin::A)
    }

    fn children(s: Axis) -> (r: [(Axis, Spin); 3]) {
        let r = match s {
            Axis::X => [(Axis::Y, Spin::Hold), (Axis::Z, Spin::A), (Axis::Y, Spin::A)],
            Axis::Y => [(Axis::Z, Spin::Hold), (Axis::X, Spin::B), (Axis::Z, Spin::B)],
            Axis::Z => [(Axis::X, Spin::Hold), (Axis::Y, Spin::C), (Axis::X, Spin::C)],
        };
        assert(r@ =~= Self::rule(s));
        r
    }

    fn is_move(t: Spin) -> (r: bool) {
        !matches!(t, Spin::Hold)
    }

    proof fn lemma_shape(s: Axis) {
    }
}

/// Symbols of the planar grammar.
#[derive(Clone, Copy, Debug, PartialEq, Eq, Structural)]
pub enum Branch {
    X,
    Y,
}

/// Turns of the planar grammar: a heading change of +60° (`Left`) or -60°
/// (`Right`) followed by one step, or no change and no step (`Straight`).
#[derive(Clone, Copy, Debug, PartialEq, Eq, Structural)]
pub enum Bend {
    Straight,
    Left,
    Right,
}

/// The two-dimensional variant, whose headings index six directions.
pub struct Planar;

impl Grammar for Planar {
    type Sym = Branch;

    type Turn = Bend;

    open spec fn root() -> (Branch, Bend) {
        (Branch::X, Bend::Left)
    }

    open spec fn rule(s: Branch) -> Seq<(Branch, Bend)> {
        match s {
            Branch::X => seq![(Branch::Y, Bend::Straight), (Branch::X, Bend::Left), (Branch::Y, Bend::Left)],
            Branch::Y => seq![(Branch::X, Bend::Straight), (Branch::Y, Bend::Right), (Branch::X, Bend::Right)],
        }
    }

    open spec fn moves(t: Bend) -> bool {
        t != Bend::Straight
    }

    fn root_frame() -> (r: (Branch, Bend)) {
        (Branch::X, Bend::Left)
    }

    fn children(s: Branch) -> (r: [(Branch, Bend); 3]) {
        let r = match s {
            Branch::X => [(Branch::Y, Bend::Straight), (Branch::X, Bend::Left), (Branch::Y, Bend::Left)],
            Branch::Y => [(Branch::X, Bend::Straight), (Branch::Y, Bend::Right), (Branch::X, Bend::Right)],
        };
        assert(r@ =~= Self::rule(s));
        r
    }

    fn is_move(t: Bend) -> (r: bool) {
        !matches!(t, Bend::Straight)
    }

    proof fn lemma_shape(s: Branch) {
    }
}

} // verus!
