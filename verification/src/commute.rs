//! Commuting two hunks: whether they can be applied in the other order, and
//! how each reads once they are.
//!
//! Two hunks are given in the order in which they are applied. [`commute`]
//! says whether the second could have been applied before the first, and if
//! so hands back both as they read in that order: the hunk that lies lower in
//! the text has its line numbers moved by the number of lines that the upper
//! one adds to or takes from the text.

use crate::owned::{Hunk, HunkView};
use vstd::arithmetic::div_mod::{
    lemma_mod_add_multiples_vanish, lemma_mod_bound, lemma_mod_sub_multiples_vanish,
    lemma_small_mod,
};
use vstd::prelude::*;
use vstd::std_specs::cmp::PartialEqSpec;
use vstd::std_specs::vec::lemma_vec_obeys_deep_eq;

verus! {

/// The four unchanged lines around a hunk: the last one before it and the
/// first one after it, counted in the text before the edit, then the same two
/// counted in the text after the edit.
///
/// A side with lines reaches from the line before its first to the line after
/// its last. A side without lines has no width: it is the one point between
/// two neighbouring lines, taken from where the other side begins. A hunk
/// without any line sits before line one.
pub open spec fn anchor_lines(hunk: HunkView) -> (int, int, int, int) {
    let removed = hunk.removed;
    let added = hunk.added;
    if removed.lines.len() == 0 && added.lines.len() == 0 {
        (0, 1, 0, 1)
    } else if added.lines.len() == 0 {
        (removed.start - 1, removed.start + removed.lines.len(), removed.start - 1, removed.start)
    } else if removed.lines.len() == 0 {
        (added.start - 1, added.start, added.start - 1, added.start + added.lines.len())
    } else {
        (
            removed.start - 1,
            removed.start + removed.lines.len(),
            added.start - 1,
            added.start + added.lines.len(),
        )
    }
}

/// Returns the unchanged lines around `hunk`, in the order of
/// [`anchor_lines`]. The result depends on nothing but the hunk's starts and
/// line counts, so asking again gives the same four numbers.
pub fn anchors(hunk: &Hunk) -> (marks: (usize, usize, usize, usize))
    requires
        hunk.wf(),
    ensures
        (marks.0 as int, marks.1 as int, marks.2 as int, marks.3 as int) == anchor_lines(hunk@),
{
    let removed_len = hunk.removed.lines.len();
    let added_len = hunk.added.lines.len();
    if removed_len == 0 && added_len == 0 {
        (0, 1, 0, 1)
    } else if added_len == 0 {
        (
            hunk.removed.start - 1,
            hunk.removed.start + removed_len,
            hunk.removed.start - 1,
            hunk.removed.start,
        )
    } else if removed_len == 0 {
        (
            hunk.added.start - 1,
            hunk.added.start,
            hunk.added.start - 1,
            hunk.added.start + added_len,
        )
    } else {
        (
            hunk.removed.start - 1,
            hunk.removed.start + removed_len,
            hunk.added.start - 1,
            hunk.added.start + added_len,
        )
    }
}

/// Whether every element of `s` after the first compares equal to the first.
/// Holds of the empty sequence and of a single element.
pub open spec fn all_alike<E: PartialEq>(s: Seq<E>) -> bool {
    forall|i: int| 1 <= i < s.len() ==> (#[trigger] s[i]).eq_spec(&s[0])
}

/// Tests whether every element of `items` from index `from` on compares equal
/// to `first`, stopping at the first one that does not.
fn rest_equals<E: PartialEq>(items: &[E], from: usize, first: &E) -> (alike: bool)
    requires
        from <= items.len(),
    ensures
        E::obeys_eq_spec() ==> alike == (forall|k: int|
            from <= k < items.len() ==> (#[trigger] items@[k]).eq_spec(first)),
{
    let mut i: usize = from;
    while i < items.len()
        invariant
            from <= i <= items.len(),
            E::obeys_eq_spec() ==> forall|k: int|
                from <= k < i ==> (#[trigger] items@[k]).eq_spec(first),
        decreases items.len() - i,
    {
        if !(items[i] == *first) {
            return false;
        }
        i += 1;
    }
    true
}

/// Tests whether the elements of `head` followed by those of `tail` are all
/// equal to the first of them. Two empty slices are uniform.
///
/// The two slices are read in place, one element after the other, as if they
/// were one sequence, and reading ends at the first element that differs.
pub fn uniform<E: PartialEq>(head: &[E], tail: &[E]) -> (alike: bool)
    ensures
        E::obeys_eq_spec() ==> alike == all_alike(head@ + tail@),
{
    let ghost pool = head@ + tail@;
    if head.len() > 0 {
        let first = &head[0];
        let alike = rest_equals(head, 1, first) && rest_equals(tail, 0, first);
        proof {
            if E::obeys_eq_spec() {
                if alike {
                    assert forall|i: int| 1 <= i < pool.len() implies (#[trigger] pool[i]).eq_spec(
                        &pool[0],
                    ) by {
                        if i < head.len() {
                            assert(pool[i] == head@[i]);
                        } else {
                            assert(pool[i] == tail@[i - head.len()]);
                        }
                    }
                } else if all_alike(pool) {
                    assert forall|k: int| 1 <= k < head.len() implies (#[trigger] head@[k]).eq_spec(
                        first,
                    ) by {
                        assert(pool[k] == head@[k]);
                    }
                    assert forall|k: int| 0 <= k < tail.len() implies (#[trigger] tail@[k]).eq_spec(
                        first,
                    ) by {
                        assert(pool[head.len() + k] == tail@[k]);
                    }
                }
            }
        }
        alike
    } else if tail.len() > 0 {
        assert(pool =~= tail@);
        rest_equals(tail, 1, &tail[0])
    } else {
        true
    }
}

/// Whether `lines` is one line, repeated any number of times.
pub open spec fn one_line_repeated(lines: Seq<Seq<u8>>) -> bool {
    forall|i: int| 0 <= i < lines.len() ==> #[trigger] lines[i] == lines[0]
}

/// Which of two hunks lies higher in the text, going by where their blocks
/// start: `Some(true)` for `first`, `Some(false)` for `second`, and `None`
/// where the added sides say one thing and the removed sides the other.
///
/// The start of a block without lines is compared like any other, and where
/// two starts are equal `first` counts as the higher.
pub open spec fn first_above(first: HunkView, second: HunkView) -> Option<bool> {
    let by_added = first.added.start <= second.added.start;
    let by_removed = first.removed.start <= second.removed.start;
    if by_added == by_removed {
        Some(by_added)
    } else {
        None
    }
}

/// The higher of the two hunks, where [`first_above`] names one.
pub open spec fn upper(first: HunkView, second: HunkView) -> HunkView {
    if first_above(first, second) == Some(false) {
        second
    } else {
        first
    }
}

/// The lower of the two hunks, where [`first_above`] names one.
pub open spec fn lower(first: HunkView, second: HunkView) -> HunkView {
    if first_above(first, second) == Some(false) {
        first
    } else {
        second
    }
}

/// Whether two hunks can be woven into each other: both only add, or both
/// only remove, and all the lines they add, or remove, are one and the same
/// line. However such hunks are ordered, the text that results is the same.
pub open spec fn interleavable(above: HunkView, below: HunkView) -> bool {
    ||| above.added.lines.len() == 0 && below.added.lines.len() == 0 && one_line_repeated(
        above.removed.lines + below.removed.lines,
    )
    ||| above.removed.lines.len() == 0 && below.removed.lines.len() == 0 && one_line_repeated(
        above.added.lines + below.added.lines,
    )
}

/// Whether `above` reaches into `below`: the first unchanged line after
/// `above` comes later than the last unchanged line before `below`.
///
/// The two are read in the one text that both hunks speak of. Where `first`
/// is the upper hunk that is the text after it and before `second`: the
/// added side of `above` and the removed side of `below`. Otherwise it is the
/// removed side of `above` and the added side of `below`.
pub open spec fn overlapping(above: HunkView, below: HunkView, first_is_upper: bool) -> bool {
    if first_is_upper {
        anchor_lines(above).3 > anchor_lines(below).0
    } else {
        anchor_lines(above).1 > anchor_lines(below).2
    }
}

/// The line number that `line` becomes when it is stored: itself where it
/// lies between zero and `usize::MAX`, and otherwise what is left of it
/// modulo `usize::MAX + 1`.
pub open spec fn wrapped(line: int) -> int {
    line % (usize::MAX + 1)
}

/// `hunk`, with both starts moved by `delta` lines and stored.
pub open spec fn shifted(hunk: HunkView, delta: int) -> HunkView {
    HunkView {
        added: hunk.added.at(wrapped(hunk.added.start + delta)),
        removed: hunk.removed.at(wrapped(hunk.removed.start + delta)),
    }
}

/// By how many lines the lower hunk moves when the two change places. The
/// upper hunk makes the text longer by its net change. A lower hunk that is
/// applied after it has that counted into its line numbers and loses it when
/// it goes first. One that is applied before it gains it when it goes second.
pub open spec fn displacement(above: HunkView, first_is_upper: bool) -> int {
    if first_is_upper {
        -above.net_change()
    } else {
        above.net_change()
    }
}

/// What [`commute`] answers, over the views of the hunks.
pub enum Outcome {
    /// The two sides of the hunks disagree on which hunk is the higher one.
    Unordered,
    /// The hunks overlap and cannot be woven into each other.
    CannotCommute,
    /// The hunks as they read in the other order: first the one to apply
    /// first, then the one to apply second.
    Commuted(HunkView, HunkView),
}

/// The answer to two hunks that are applied `first`, then `second`.
pub open spec fn commuted(first: HunkView, second: HunkView) -> Outcome {
    match first_above(first, second) {
        None => Outcome::Unordered,
        Some(first_is_upper) => {
            let above = upper(first, second);
            let below = lower(first, second);
            if overlapping(above, below, first_is_upper) && !interleavable(above, below) {
                Outcome::CannotCommute
            } else {
                let moved = shifted(below, displacement(above, first_is_upper));
                if first_is_upper {
                    Outcome::Commuted(moved, above)
                } else {
                    Outcome::Commuted(above, moved)
                }
            }
        },
    }
}

/// What became of an attempt to commute two hunks.
#[derive(Debug)]
pub enum Commutation {
    /// The hunks cannot be told apart as upper and lower: the added sides
    /// order them one way and the removed sides the other. Such a pair does
    /// not come from one patch.
    Unordered,
    /// The hunks overlap and cannot change places.
    CannotCommute,
    /// The hunks in the other order: the one that is now applied first, made
    /// from the second of the two that were given, and the one that is now
    /// applied second, made from the first.
    Commuted(Hunk, Hunk),
}

impl View for Commutation {
    type V = Outcome;

    open spec fn view(&self) -> Outcome {
        match self {
            Commutation::Unordered => Outcome::Unordered,
            Commutation::CannotCommute => Outcome::CannotCommute,
            Commutation::Commuted(now_first, now_second) => Outcome::Commuted(
                now_first@,
                now_second@,
            ),
        }
    }
}

/// Pooling the lines in the other order does not change whether they are one
/// line repeated.
proof fn lemma_repeated_either_order(head: Seq<Seq<u8>>, tail: Seq<Seq<u8>>)
    requires
        one_line_repeated(head + tail),
    ensures
        one_line_repeated(tail + head),
{
    let pool = head + tail;
    let other = tail + head;
    assert forall|i: int| 0 <= i < other.len() implies #[trigger] other[i] == pool[0] by {
        if i < tail.len() {
            assert(other[i] == pool[head.len() + i]);
        } else {
            assert(other[i] == pool[i - tail.len()]);
        }
    }
}

/// Whether two hunks can be woven into each other does not depend on which
/// of them is named first.
pub proof fn lemma_interleavable_either_order(a: HunkView, b: HunkView)
    ensures
        interleavable(a, b) == interleavable(b, a),
{
    if one_line_repeated(a.removed.lines + b.removed.lines) {
        lemma_repeated_either_order(a.removed.lines, b.removed.lines);
    }
    if one_line_repeated(b.removed.lines + a.removed.lines) {
        lemma_repeated_either_order(b.removed.lines, a.removed.lines);
    }
    if one_line_repeated(a.added.lines + b.added.lines) {
        lemma_repeated_either_order(a.added.lines, b.added.lines);
    }
    if one_line_repeated(b.added.lines + a.added.lines) {
        lemma_repeated_either_order(b.added.lines, a.added.lines);
    }
}

/// Within one span on either side of the range of line numbers, storing a
/// line number adds or takes away the span once.
proof fn lemma_wrapped_once(line: int)
    requires
        -(usize::MAX + 1) <= line < 2 * (usize::MAX + 1),
    ensures
        wrapped(line) == if line < 0 {
            line + (usize::MAX + 1)
        } else if line > usize::MAX {
            line - (usize::MAX + 1)
        } else {
            line
        },
{
    let span = usize::MAX + 1;
    if line < 0 {
        lemma_mod_add_multiples_vanish(line, span);
        lemma_small_mod((line + span) as nat, span as nat);
    } else if line > usize::MAX {
        lemma_mod_sub_multiples_vanish(line, span);
        lemma_small_mod((line - span) as nat, span as nat);
    } else {
        lemma_small_mod(line as nat, span as nat);
    }
}

/// A stored line number lies in the range of line numbers, and it is the
/// line number itself exactly where that one does.
pub proof fn lemma_stored_line(line: int)
    ensures
        0 <= wrapped(line) <= usize::MAX,
        wrapped(line) == line <==> 0 <= line <= usize::MAX,
{
    lemma_mod_bound(line, usize::MAX + 1);
    if 0 <= line <= usize::MAX {
        lemma_small_mod(line as nat, (usize::MAX + 1) as nat);
    }
}

/// Moves `line` down by `grow` lines and up by `shrink` lines, and stores it.
fn shift_line(line: usize, grow: usize, shrink: usize) -> (moved: usize)
    ensures
        moved == wrapped(line + grow - shrink),
{
    proof {
        lemma_wrapped_once(line + grow - shrink);
    }
    line.wrapping_add(grow).wrapping_sub(shrink)
}

/// Lines compare equal exactly where they hold the same bytes, so a pool of
/// lines compares alike exactly where it is one line repeated.
proof fn lemma_alike_lines(head: Vec<Vec<u8>>, tail: Vec<Vec<u8>>)
    ensures
        all_alike(head@ + tail@) == one_line_repeated(head.deep_view() + tail.deep_view()),
        <Vec<u8> as PartialEqSpec>::obeys_eq_spec(),
{
    broadcast use {vstd::laws_eq::group_laws_eq, lemma_vec_obeys_deep_eq};

    assert(vstd::laws_eq::obeys_deep_eq::<Vec<u8>>());
    reveal(vstd::laws_eq::obeys_deep_eq);
    let pool = head@ + tail@;
    let lines = head.deep_view() + tail.deep_view();
    assert(lines.len() == pool.len());
    assert forall|i: int| 0 <= i < pool.len() implies #[trigger] lines[i] == pool[i].deep_view() by {
        if i < head@.len() {
            assert(pool[i] == head@[i]);
        } else {
            assert(pool[i] == tail@[i - head@.len()]);
        }
    }
    if all_alike(pool) {
        assert forall|i: int| 0 <= i < lines.len() implies #[trigger] lines[i] == lines[0] by {
            if i >= 1 {
                assert(pool[i].eq_spec(&pool[0]));
            }
        }
    }
    if one_line_repeated(lines) {
        assert forall|i: int| 1 <= i < pool.len() implies (#[trigger] pool[i]).eq_spec(&pool[0]) by {
            assert(lines[i] == lines[0]);
        }
    }
}

/// Tests whether the lines of `head` and of `tail` are all one and the same
/// line.
fn same_line_throughout(head: &Vec<Vec<u8>>, tail: &Vec<Vec<u8>>) -> (alike: bool)
    ensures
        alike == one_line_repeated(head.deep_view() + tail.deep_view()),
{
    proof {
        lemma_alike_lines(*head, *tail);
    }
    uniform(head.as_slice(), tail.as_slice())
}

/// Commutes two hunks that are applied `first`, then `second`.
///
/// The answer is [`Commutation::Unordered`] exactly where the added and the
/// removed sides disagree on which hunk lies higher. Of an ordered pair it is
/// [`Commutation::CannotCommute`] exactly where the upper hunk reaches into
/// the lower one and the two cannot be woven into each other. Otherwise it
/// is [`Commutation::Commuted`] with the two hunks as they read when `second`
/// is applied before `first`: the upper hunk as it was, the lower one moved
/// by the upper one's net change, each over the lines it had.
///
/// A moved line number that falls outside the range of line numbers is
/// stored as [`wrapped`] has it. Hunks of one patch that do not overlap never
/// come to that; hunks that commute by being woven into each other can.
pub fn commute(first: &Hunk, second: &Hunk) -> (outcome: Commutation)
    requires
        first.wf(),
        second.wf(),
    ensures
        outcome@ == commuted(first@, second@),
        outcome is Unordered <==> (first.added.start <= second.added.start) != (first.removed.start
            <= second.removed.start),
        !(outcome is Unordered) && interleavable(first@, second@) ==> outcome is Commuted,
        !(outcome is Unordered) ==> (outcome is CannotCommute <==> overlapping(
            upper(first@, second@),
            lower(first@, second@),
            first_above(first@, second@) == Some(true),
        ) && !interleavable(first@, second@)),
        !(outcome is Unordered) && (first@.is_mixed() || second@.is_mixed()) && overlapping(
            upper(first@, second@),
            lower(first@, second@),
            first_above(first@, second@) == Some(true),
        ) ==> outcome is CannotCommute,
        outcome matches Commutation::Commuted(now_first, now_second) ==> ({
            let first_is_upper = first_above(first@, second@) == Some(true);
            let above = upper(first@, second@);
            let below = lower(first@, second@);
            let by = displacement(above, first_is_upper);
            let kept = if first_is_upper { now_second@ } else { now_first@ };
            let moved = if first_is_upper { now_first@ } else { now_second@ };
            &&& kept == above
            &&& moved.added.at(below.added.start) == below.added
            &&& moved.removed.at(below.removed.start) == below.removed
            &&& moved.added.start == below.added.start + by <==> 0 <= below.added.start + by
                <= usize::MAX
            &&& moved.removed.start == below.removed.start + by <==> 0 <= below.removed.start + by
                <= usize::MAX
        }),
{
    proof {
        lemma_interleavable_either_order(first@, second@);
        lemma_stored_line(lower(first@, second@).added.start + displacement(
            upper(first@, second@),
            first_above(first@, second@) == Some(true),
        ));
        lemma_stored_line(lower(first@, second@).removed.start + displacement(
            upper(first@, second@),
            first_above(first@, second@) == Some(true),
        ));
    }
    let by_added = first.added.start <= second.added.start;
    let by_removed = first.removed.start <= second.removed.start;
    if by_added != by_removed {
        return Commutation::Unordered;
    }
    let first_is_upper = by_added;
    let (above, below) = if first_is_upper {
        (first, second)
    } else {
        (second, first)
    };

    let interleavable = if above.added.lines.len() == 0 && below.added.lines.len() == 0 {
        same_line_throughout(&above.removed.lines, &below.removed.lines)
    } else if above.removed.lines.len() == 0 && below.removed.lines.len() == 0 {
        same_line_throughout(&above.added.lines, &below.added.lines)
    } else {
        false
    };

    let (above_anchor, below_anchor) = if first_is_upper {
        (anchors(above).3, anchors(below).0)
    } else {
        (anchors(above).1, anchors(below).2)
    };
    if above_anchor > below_anchor && !interleavable {
        return Commutation::CannotCommute;
    }

    let grown = above.added.lines.len();
    let shrunk = above.removed.lines.len();
    let moved = if first_is_upper {
        Hunk {
            added: below.added.at(shift_line(below.added.start, shrunk, grown)),
            removed: below.removed.at(shift_line(below.removed.start, shrunk, grown)),
        }
    } else {
        Hunk {
            added: below.added.at(shift_line(below.added.start, grown, shrunk)),
            removed: below.removed.at(shift_line(below.removed.start, grown, shrunk)),
        }
    };
    let kept = above.clone();
    if first_is_upper {
        Commutation::Commuted(moved, kept)
    } else {
        Commutation::Commuted(kept, moved)
    }
}

} // verus!
