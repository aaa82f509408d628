//! What every buffer has in common: the rectangle it is drawn into, the
//! events it receives and what it answers.

use vstd::prelude::*;

pub mod dummy_buffer;
pub mod text_buffer;

verus! {

/// A rectangle on the drawable surface, in units of `S`.
#[derive(Debug, PartialEq, Eq)]
pub struct BoundingBox<S> {
    pub left: S,
    pub top: S,
    pub width: S,
    pub height: S,
}

impl<S: Copy> Clone for BoundingBox<S> {
    fn clone(&self) -> (copy: Self)
        ensures
            copy == *self,
    {
        *self
    }
}

impl<S: Copy> Copy for BoundingBox<S> {}

/// Whether handling an event changed what a buffer shows.
#[derive(Clone, Copy, Debug, PartialEq, Eq, Structural)]
pub enum EventHandlerOutcome {
    /// The content changed: the buffer has to be drawn again.
    Redraw,
    /// Nothing changed.
    NoChange,
}

/// An event delivered to a buffer.
#[derive(Clone, Copy, Debug, PartialEq, Eq, Structural)]
pub enum BufferEvent {
    /// One character of text input, control characters included.
    Input(char),
}

/// What the editor asks of a buffer, whatever it holds.
pub trait Buffer {
    /// The text that the buffer shows.
    spec fn content(&self) -> Seq<char>;

    /// The text that the buffer shows once it has handled `event`.
    spec fn content_after(&self, event: BufferEvent) -> Seq<char>;

    /// Applies `event` to the content and reports whether the content is
    /// another one than before.
    fn handle_events(&mut self, event: BufferEvent) -> (outcome: EventHandlerOutcome)
        ensures
            final(self).content() == old(self).content_after(event),
            outcome == outcome_of(old(self).content(), final(self).content()),
    ;
}

/// `Redraw` exactly when the content changed.
pub open spec fn outcome_of(before: Seq<char>, after: Seq<char>) -> EventHandlerOutcome {
    if after == before {
        EventHandlerOutcome::NoChange
    } else {
        EventHandlerOutcome::Redraw
    }
}

} // verus!
