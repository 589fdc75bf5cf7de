//! The index buffer that draws a polyline as independent line segments.

use vstd::prelude::*;
use crate::expander::pow3;
use crate::planar::{planar_curve, Point};

verus! {

/// The largest vertex count whose index buffer fits both `u32` indices and
/// a 32-bit length.
pub const MAX_VERTICES: usize = 0x8000_0000;

/// The number of indices for `n` vertices: two per segment.
pub open spec fn strip_len(n: nat) -> nat {
    if n <= 1 {
        0
    } else {
        2 * (n - 1) as nat
    }
}

/// The index buffer for `n` vertices: entry `k` is `(k + 1) / 2`, so that
/// the pairs `(2i, 2i + 1)` name the vertices `i` and `i + 1`.
pub open spec fn strip(n: nat) -> Seq<u32> {
    Seq::new(strip_len(n), |k: int| ((k + 1) / 2) as u32)
}

/// The line-list indices joining `n` consecutive vertices: empty for fewer
/// than two vertices, else `2 * (n - 1)` entries with entry `k` equal to
/// `(k + 1) / 2`.
pub fn line_strip_indices(n: usize) -> (r: Vec<u32>)
    requires
        n <= MAX_VERTICES,
    ensures
        r@ == strip(n as nat),
        r@.len() == strip_len(n as nat),
        forall|k: int| 0 <= k < r@.len() ==> r@[k] as int == (k + 1) / 2,
{
    let count: usize = if n <= 1 { 0 } else { 2 * (n - 1) };
    let mut r: Vec<u32> = Vec::new();
    let mut k: usize = 0;
    while k < count
        invariant
            count == strip_len(n as nat),
            count <= 0xffff_fffe,
            k <= count,
            r@ =~= strip(n as nat).subrange(0, k as int),
        decreases count - k,
    {
        r.push(((k + 1) / 2) as u32);
        k = k + 1;
    }
    proof {
        assert(r@ =~= strip(n as nat));
    }
    r
}

/// The index buffer of `n >= 2` vertices has `2 * (n - 1)` entries and entry
/// `k` is `(k + 1) / 2`; that of fewer vertices is empty. This holds for
/// every vertex count that `u32` indices can address.
pub proof fn lemma_strip_shape(n: nat)
    requires
        n <= MAX_VERTICES,
    ensures
        n >= 2 ==> strip(n).len() == 2 * (n - 1),
        n <= 1 ==> strip(n).len() == 0,
        forall|k: int| 0 <= k < strip(n).len() ==> strip(n)[k] as int == (k + 1) / 2,
{
    assert forall|k: int| 0 <= k < strip(n).len() implies strip(n)[k] as int == (k + 1) / 2 by {
        assert(n >= 2);
        assert(k + 1 <= 2 * (n - 1));
        assert((k + 1) / 2 <= 0x7fff_ffff);
    }
}

/// Generating the planar curve and its index buffer twice at the same depth
/// gives identical buffers.
pub proof fn lemma_buffers_reproducible(
    depth: nat,
    p1: Seq<Point>,
    i1: Seq<u32>,
    p2: Seq<Point>,
    i2: Seq<u32>,
)
    requires
        p1.map_values(|p: Point| p@) == planar_curve(depth),
        p2.map_values(|p: Point| p@) == planar_curve(depth),
        i1 == strip(p1.len()),
        i2 == strip(p2.len()),
    ensures
        p1 == p2,
        i1 == i2,
{
    assert(p1.len() == p2.len()) by {
        assert(p1.map_values(|p: Point| p@).len() == p2.map_values(|p: Point| p@).len());
    }
    assert forall|k: int| 0 <= k < p1.len() implies p1[k] == p2[k] by {
        assert(p1.map_values(|p: Point| p@)[k] == p2.map_values(|p: Point| p@)[k]);
    }
    assert(p1 =~= p2);
}

} // verus!
