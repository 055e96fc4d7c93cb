//! The window frame model: how a windowed aggregate bounds the rows it
//! reads around the current one. The core only carries these
//! declarations through plans; evaluating window functions is not part
//! of it.

use vstd::prelude::*;

verus! {

/// Whether a frame counts rows or ranges over peer values.
#[derive(Clone, Copy, PartialEq, Eq, Structural, Debug)]
pub enum FrameType {
    Rows,
    Range,
}

/// One bound of a frame: the current row, or a preceding or following
/// distance, unbounded when the distance is absent.
#[derive(Clone, Copy, PartialEq, Eq, Structural, Debug)]
pub enum FrameBound {
    CurrentRow,
    Preceding(Option<u64>),
    Following(Option<u64>),
}

/// A frame: its type, where it starts, and where it ends. An absent
/// end bound is the shorthand form and behaves as the current row.
#[derive(Clone, Copy, PartialEq, Eq, Structural, Debug)]
pub struct WindowFrame {
    pub frame_type: FrameType,
    pub start_bound: FrameBound,
    pub end_bound: Option<FrameBound>,
}

impl WindowFrame {
    /// The bound the frame ends at: the stated one, or the current row
    /// under the shorthand form.
    pub fn effective_end_bound(&self) -> (r: FrameBound)
        ensures
            r == (match self.end_bound {
                Some(b) => b,
                None => FrameBound::CurrentRow,
            }),
    {
        match self.end_bound {
            Some(b) => b,
            None => FrameBound::CurrentRow,
        }
    }
}

} // verus!
