//! The sink a running program prints to: a pane that takes output in batches.

use vstd::prelude::*;
use crate::geometry::{INTERIOR_CELLS, INTERIOR_WIDTH};
use crate::pane::PaneModel;
use crate::window::Window;

verus! {

/// The output side of one program step: the program's pane, and the number
/// of the pane it stands for.
pub struct KernelOutput {
    window: Window,
    which_one: usize,
}

impl KernelOutput {
    /// The pane as the sink sees it.
    pub closed spec fn view(&self) -> PaneModel {
        self.window@
    }

    /// The number of the pane the sink stands for.
    pub closed spec fn pane_number(&self) -> int {
        self.which_one as int
    }

    /// A sink that prints into a copy of `window`, the pane `which_one`.
    pub fn new(window: Window, which_one: usize) -> (out: Self)
        ensures
            out@ == window@,
            out.pane_number() == which_one,
    {
        KernelOutput { window, which_one }
    }

    /// Replaces what the pane shows by `contents`, wrapped at the interior's
    /// width. The pane number is not used: a sink has one pane.
    #[allow(unused_variables)]
    pub fn write_to_window(&mut self, window_num: usize, contents: [char; INTERIOR_CELLS])
        ensures
            old(self)@.wf() ==> final(self)@.wf(),
            final(self)@ == old(self)@.show_wrapped(contents@, 33),
            final(self).pane_number() == old(self).pane_number(),
    {
        self.window.write_wrapped(&contents, INTERIOR_WIDTH);
    }

    /// Takes one batch of output: every byte is typed into the pane, then the
    /// line is broken once.
    pub fn print(&mut self, chars: &[u8])
        ensures
            old(self)@.wf() ==> final(self)@.wf(),
            final(self)@ == old(self)@.append_output(chars@),
            final(self).pane_number() == old(self).pane_number(),
    {
        self.window.append_output(chars);
    }

    /// The pane with the output taken so far.
    pub fn window(&self) -> (w: Window)
        ensures
            w@ == self@,
    {
        self.window
    }

    /// The number of the pane the sink stands for.
    pub fn which_one(&self) -> (n: usize)
        ensures
            n == self.pane_number(),
    {
        self.which_one
    }
}

} // verus!
