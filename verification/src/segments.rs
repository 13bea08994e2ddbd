//! The segment policy: which pairs of neighbouring samples are joined by a
//! line.

use vstd::prelude::*;

verus! {

/// What the policy reads of one sample.
#[derive(Debug, Clone, Copy, PartialEq, Eq, Structural)]
pub enum Mark {
    /// No point: the equation has no value there.
    Gap,
    /// A point whose y is not a finite number.
    NonFinite,
    /// A finite point that lies more than twice the canvas height outside the
    /// visible band.
    OffBand,
    /// A finite point within reach of the canvas.
    Plottable,
}

/// Whether a line joins sample `i` to the next one: both are there, finite and
/// within reach.
pub open spec fn joins(marks: Seq<Mark>, i: int) -> bool {
    &&& 0 <= i
    &&& i + 1 < marks.len()
    &&& marks[i] == Mark::Plottable
    &&& marks[i + 1] == Mark::Plottable
}

/// Whether `starts` lists, in rising order and once each, exactly the samples
/// below `n` that a line joins to their successor.
pub open spec fn lists_joins(marks: Seq<Mark>, starts: Seq<usize>, n: int) -> bool {
    &&& forall|k: int| 0 <= k < starts.len() ==> (#[trigger] starts[k]) < n && joins(marks, starts[k] as int)
    &&& forall|k: int, l: int| 0 <= k < l < starts.len() ==> (#[trigger] starts[k]) < (#[trigger] starts[l])
    &&& forall|i: int| 0 <= i < n && #[trigger] joins(marks, i) ==> starts.contains(i as usize)
}

/// The segments to draw: the index of each sample that a line joins to the
/// next one, in rising order.
///
/// No line touches a gap, a point that is not finite, or a point far off the
/// canvas, so a curve is broken at a discontinuity and no stray line runs to an
/// asymptote.
pub fn segments(marks: &Vec<Mark>) -> (starts: Vec<usize>)
    ensures
        lists_joins(marks@, starts@, marks@.len() as int),
{
    let mut starts: Vec<usize> = Vec::new();
    let n = marks.len();
    if n < 2 {
        return starts;
    }
    let mut i: usize = 0;
    while i + 1 < n
        invariant
            n == marks@.len(),
            n >= 2,
            0 <= i < n,
            lists_joins(marks@, starts@, i as int),
        decreases n - i,
    {
        if marks[i] == Mark::Plottable && marks[i + 1] == Mark::Plottable {
            let ghost before = starts@;
            starts.push(i);
            assert forall|j: int| 0 <= j < i + 1 && #[trigger] joins(marks@, j) implies starts@.contains(
                j as usize,
            ) by {
                if j < i {
                    let k = choose|k: int| 0 <= k < before.len() && before[k] == j as usize;
                    assert(starts@[k] == j as usize);
                } else {
                    assert(starts@[before.len() as int] == j as usize);
                }
            }
        }
        i = i + 1;
    }
    starts
}

} // verus!
