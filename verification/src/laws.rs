//! What holds between the two answers that a pair of hunks gets, one for each
//! order in which the pair can be handed to
//! [`commute`](crate::commute::commute).
//!
//! The two orders do not describe one situation. Handed over as `(a, b)`, the
//! added side of `a` and the removed side of `b` are counted in one text;
//! handed over as `(b, a)`, it is the other two sides. So the answers agree
//! on some pairs only, and [`swap_stable`] says on which.

use crate::commute::{
    commuted, interleavable, lemma_interleavable_either_order, overlapping, shifted, Outcome,
};
use crate::owned::{Hunk, HunkView};
use vstd::prelude::*;

verus! {

/// Whether two answers say the same once the places of the two hunks are
/// exchanged: the same verdict, and each hunk rewritten alike.
pub open spec fn mirrored(one: Outcome, other: Outcome) -> bool {
    match (one, other) {
        (Outcome::Unordered, Outcome::Unordered) => true,
        (Outcome::CannotCommute, Outcome::CannotCommute) => true,
        (Outcome::Commuted(p, q), Outcome::Commuted(r, s)) => p == s && q == r,
        _ => false,
    }
}

/// `a` starts before `b` on both sides.
pub open spec fn strictly_above(a: HunkView, b: HunkView) -> bool {
    a.added.start < b.added.start && a.removed.start < b.removed.start
}

/// `a` and `b` start on the same line on both sides.
pub open spec fn level(a: HunkView, b: HunkView) -> bool {
    a.added.start == b.added.start && a.removed.start == b.removed.start
}

/// One side puts `a` before `b` and the other puts `b` before `a`.
pub open spec fn crossing(a: HunkView, b: HunkView) -> bool {
    ||| a.added.start < b.added.start && a.removed.start > b.removed.start
    ||| a.added.start > b.added.start && a.removed.start < b.removed.start
}

/// Whether `above` and `below` are kept from changing places: `above` reaches
/// into `below` and the two cannot be woven into each other.
pub open spec fn blocked(above: HunkView, below: HunkView, first_is_upper: bool) -> bool {
    overlapping(above, below, first_is_upper) && !interleavable(above, below)
}

/// Of a hunk that lies strictly above another: both orders of handing the
/// pair over find it blocked, or neither does and moving the lower hunk up
/// by the upper one's net change puts it where moving it down does.
pub open spec fn same_either_way(above: HunkView, below: HunkView) -> bool {
    if blocked(above, below, true) {
        blocked(above, below, false)
    } else {
        &&& !blocked(above, below, false)
        &&& shifted(below, -above.net_change()) == shifted(below, above.net_change())
    }
}

/// Of two hunks that start on the same lines, where whichever is handed over
/// first counts as the upper one: both orders find the pair blocked, or
/// neither does and moving either hunk by the other's net change leaves it
/// where it was.
pub open spec fn same_on_one_level(a: HunkView, b: HunkView) -> bool {
    if blocked(a, b, true) {
        blocked(b, a, true)
    } else {
        &&& !blocked(b, a, true)
        &&& shifted(b, -a.net_change()) == b
        &&& shifted(a, -b.net_change()) == a
    }
}

/// The pairs to which the order of handing them over makes no difference.
///
/// Either the two sides order the hunks in opposite ways, strictly; or one
/// hunk lies strictly above the other and [`same_either_way`] holds; or they
/// start on the same lines and [`same_on_one_level`] holds. A pair whose
/// starts are equal on one side only is never among them: one order counts it
/// as ordered, the other as unordered.
pub open spec fn swap_stable(a: HunkView, b: HunkView) -> bool {
    ||| crossing(a, b)
    ||| strictly_above(a, b) && same_either_way(a, b)
    ||| strictly_above(b, a) && same_either_way(b, a)
    ||| level(a, b) && same_on_one_level(a, b)
}

/// Commuting `(a, b)` and commuting `(b, a)` give the same verdict and
/// rewrite each hunk alike, on every pair that is [`swap_stable`].
pub proof fn lemma_commute_symmetric(a: Hunk, b: Hunk)
    requires
        swap_stable(a@, b@),
    ensures
        mirrored(commuted(a@, b@), commuted(b@, a@)),
{
    lemma_interleavable_either_order(a@, b@);
}

/// On every pair that is not [`swap_stable`] the two orders differ: in the
/// verdict, or in how a hunk is rewritten.
pub proof fn lemma_commute_asymmetric(a: Hunk, b: Hunk)
    requires
        !swap_stable(a@, b@),
    ensures
        !mirrored(commuted(a@, b@), commuted(b@, a@)),
{
    lemma_interleavable_either_order(a@, b@);
}

} // verus!
