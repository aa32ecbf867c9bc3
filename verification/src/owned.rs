//! Hunks as plain data: what an edit takes out of a text and what it puts in.
//!
//! A [`Hunk`] pairs two [`Block`]s. The `removed` block is counted in the lines
//! of the text before the edit, the `added` block in the lines of the text after
//! it. The lines themselves sit behind a shared handle, so that a copy of a hunk
//! costs a reference count and not the text.

use std::rc::Rc;
use vstd::prelude::*;

verus! {

/// One side of an edit: where it starts and the lines it holds.
#[derive(Debug)]
pub struct Block {
    /// Line number of the first line, counted from one. A block without lines
    /// has no line of its own and may carry zero here.
    pub start: usize,
    /// The lines, each with whatever ends it. Shared by every copy of the block.
    pub lines: Rc<Vec<Vec<u8>>>,
    /// Whether the last line ends in a newline.
    pub trailing_newline: bool,
}

/// What a [`Block`] stands for in contracts.
pub struct BlockView {
    pub start: int,
    pub lines: Seq<Seq<u8>>,
    pub trailing_newline: bool,
}

/// One edit: the lines it removes and the lines it puts in their place.
#[derive(Debug)]
pub struct Hunk {
    /// What the edit puts in, in the line numbers of the text after the edit.
    pub added: Block,
    /// What the edit takes out, in the line numbers of the text before the edit.
    pub removed: Block,
}

/// What a [`Hunk`] stands for in contracts.
pub struct HunkView {
    pub added: BlockView,
    pub removed: BlockView,
}

impl BlockView {
    /// A block with lines lies on lines that exist: it starts at line one or
    /// later, and the line after its last one still has a number. A block
    /// without lines is under no condition.
    pub open spec fn wf(self) -> bool {
        self.lines.len() > 0 ==> 1 <= self.start && self.start + self.lines.len() <= usize::MAX
    }

    /// The same block, beginning at `start`.
    pub open spec fn at(self, start: int) -> BlockView {
        BlockView { start, lines: self.lines, trailing_newline: self.trailing_newline }
    }
}

impl HunkView {
    /// Both sides are well formed.
    pub open spec fn wf(self) -> bool {
        self.added.wf() && self.removed.wf()
    }

    /// The edit replaces lines by lines: it both removes and adds.
    pub open spec fn is_mixed(self) -> bool {
        self.added.lines.len() > 0 && self.removed.lines.len() > 0
    }

    /// By how many lines the edit makes the text longer; negative where it
    /// makes the text shorter.
    pub open spec fn net_change(self) -> int {
        self.added.lines.len() - self.removed.lines.len()
    }
}

impl View for Block {
    type V = BlockView;

    open spec fn view(&self) -> BlockView {
        BlockView {
            start: self.start as int,
            lines: self.lines.deep_view(),
            trailing_newline: self.trailing_newline,
        }
    }
}

impl View for Hunk {
    type V = HunkView;

    open spec fn view(&self) -> HunkView {
        HunkView { added: self.added@, removed: self.removed@ }
    }
}

/// `Rc::clone` on the handle of a block's lines: one more handle to the same
/// allocation. No line is copied, and what is read through the new handle is
/// what is read through the old one.
#[verifier::external_body]
fn share(lines: &Rc<Vec<Vec<u8>>>) -> (handle: Rc<Vec<Vec<u8>>>)
    ensures
        handle == *lines,
{
    Rc::clone(lines)
}

impl Block {
    /// See [`BlockView::wf`].
    pub open spec fn wf(&self) -> bool {
        self@.wf()
    }

    /// Tells whether the block is well formed.
    pub fn is_well_formed(&self) -> (ok: bool)
        ensures
            ok == self.wf(),
    {
        let len = self.lines.len();
        len == 0 || (self.start >= 1 && self.start <= usize::MAX - len)
    }

    /// A block over the same lines that begins at `start`. The lines are
    /// shared with `self`, not copied.
    pub fn at(&self, start: usize) -> (moved: Block)
        ensures
            moved@ == self@.at(start as int),
    {
        Block { start, lines: share(&self.lines), trailing_newline: self.trailing_newline }
    }
}

impl Clone for Block {
    /// A second block over the same lines.
    fn clone(&self) -> (copy: Block)
        ensures
            copy@ == self@,
    {
        self.at(self.start)
    }
}

impl Hunk {
    /// See [`HunkView::wf`].
    pub open spec fn wf(&self) -> bool {
        self@.wf()
    }

    /// Tells whether the hunk is well formed.
    pub fn is_well_formed(&self) -> (ok: bool)
        ensures
            ok == self.wf(),
    {
        self.added.is_well_formed() && self.removed.is_well_formed()
    }
}

impl Clone for Hunk {
    /// A second hunk over the same lines.
    fn clone(&self) -> (copy: Hunk)
        ensures
            copy@ == self@,
    {
        Hunk { added: self.added.clone(), removed: self.removed.clone() }
    }
}

} // verus!
