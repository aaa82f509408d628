//! The state of the editor: its buffers, which of them is active, and how
//! the window is divided among them.

use crate::buffer::{outcome_of, Buffer, BufferEvent, EventHandlerOutcome};
use crate::layout::{initial_children, Layout, Split};
use crate::scalar::Milli;
use vstd::prelude::*;

verus! {

/// The state of the editor. `B` is what stands for a buffer: the buffer
/// itself, or a handle under which the owner keeps it.
pub struct AppState<B, S> {
    /// The buffers, in the order of their indices.
    pub buffers: Vec<B>,
    /// Index of the buffer that receives the input.
    pub active_buffer: usize,
    /// How the window is divided among the buffers.
    pub layout: Layout<S>,
}

impl<B, S> AppState<B, S> {
    /// The active buffer exists.
    pub open spec fn well_formed(&self) -> bool {
        self.active_buffer < self.buffers@.len()
    }

    /// `self` is what `before` was, but for the buffer at its active index:
    /// the same number of buffers, the same active index, the same layout,
    /// and every other buffer as it was.
    pub open spec fn differs_in_active_only(&self, before: &Self) -> bool {
        &&& self.active_buffer == before.active_buffer
        &&& self.layout == before.layout
        &&& self.buffers@.len() == before.buffers@.len()
        &&& forall|i: int|
            0 <= i < before.buffers@.len() && i != before.active_buffer ==> self.buffers@[i]
                == before.buffers@[i]
    }

    /// The buffer that receives the input.
    pub open spec fn active_of(&self) -> B {
        self.buffers@[self.active_buffer as int]
    }

    /// A state without buffers, with `layout` for the window. It becomes
    /// well formed once it has a buffer at the active index, which is 0.
    pub fn new(layout: Layout<S>) -> (state: Self)
        ensures
            state.buffers@.len() == 0,
            state.active_buffer == 0,
            state.layout == layout,
    {
        Self { buffers: Vec::new(), active_buffer: 0, layout }
    }

    /// The buffer that receives the input.
    pub fn active(&self) -> (buffer: &B)
        requires
            self.well_formed(),
        ensures
            *buffer == self.active_of(),
    {
        &self.buffers[self.active_buffer]
    }
}

impl<B: Buffer, S> AppState<B, S> {
    /// Has the active buffer handle the character `c`. No other buffer is
    /// touched, and neither the set of buffers, the active index nor the
    /// layout changes.
    pub fn handle_character(&mut self, c: char) -> (outcome: EventHandlerOutcome)
        requires
            old(self).well_formed(),
        ensures
            final(self).differs_in_active_only(old(self)),
            final(self).active_of().content() == old(self).active_of().content_after(
                BufferEvent::Input(c),
            ),
            outcome == outcome_of(old(self).active_of().content(), final(self).active_of().content()),
    {
        let active = self.active_buffer;
        self.buffers[active].handle_events(BufferEvent::Input(c))
    }
}

impl<B> Default for AppState<B, Milli> {
    fn default() -> (state: Self)
        ensures
            state.buffers@.len() == 0,
            state.active_buffer == 0,
            state.layout.root matches Split::Horizontal(children) && children@
                == initial_children(),
    {
        Self::new(Layout::new())
    }
}

} // verus!
