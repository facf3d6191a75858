//! The terminal renderer's bookkeeping: to redraw a block in place
//! rather than scroll, each frame first moves the cursor up over
//! whatever the previous frame drew, clears from there to the end of
//! the screen, and then writes its own lines. This module decides the
//! cursor motion; executing it on a terminal is left to the caller.

use vstd::prelude::*;

verus! {

/// Tracks how many lines the previously drawn frame occupies below the
/// cursor's baseline: 0 when idle, the frame height while animating.
pub struct Renderer {
    /// How many lines the last frame drew; 0 before the first frame.
    pub lines_drawn: usize,
}

impl Renderer {
    /// A renderer that has drawn nothing yet: the first frame moves the
    /// cursor up by zero lines.
    pub fn new() -> (r: Renderer)
        ensures
            r.lines_drawn == 0,
    {
        Renderer { lines_drawn: 0 }
    }

    /// Decide the cursor motion for the next frame of `frame_lines`
    /// lines: move up by exactly the number of lines the previous frame
    /// drew, then clear downwards and write the new frame. Afterwards
    /// the new frame is what stands below the baseline.
    pub fn prepare_frame(&mut self, frame_lines: usize) -> (move_up: usize)
        ensures
            move_up == old(self).lines_drawn,
            final(self).lines_drawn == frame_lines,
    {
        let move_up = self.lines_drawn;
        self.lines_drawn = frame_lines;
        move_up
    }

    /// Finish the animation: the cursor is back at the baseline below
    /// the block, and the next frame (if any) starts from scratch.
    pub fn end_frame(&mut self)
        ensures
            final(self).lines_drawn == 0,
    {
        self.lines_drawn = 0;
    }
}

} // verus!
