//! A buffer that only ever grows.

use crate::buffer::dummy_buffer::push_char;
use crate::buffer::{Buffer, BufferEvent, EventHandlerOutcome};
use vstd::prelude::*;

verus! {

/// A text buffer to which every character of input is appended.
pub struct AppendOnlyTextBuffer {
    text: String,
}

impl View for AppendOnlyTextBuffer {
    type V = Seq<char>;

    closed spec fn view(&self) -> Seq<char> {
        self.text@
    }
}

impl AppendOnlyTextBuffer {
    /// A buffer that shows the words "placeholder text".
    pub fn new() -> (buffer: Self)
        ensures
            buffer@ == "placeholder text"@,
    {
        Self { text: "placeholder text".to_owned() }
    }

    /// The text of the buffer.
    pub fn text(&self) -> (text: &str)
        ensures
            text@ == self@,
    {
        self.text.as_str()
    }
}

impl Buffer for AppendOnlyTextBuffer {
    open spec fn content(&self) -> Seq<char> {
        self@
    }

    open spec fn content_after(&self, event: BufferEvent) -> Seq<char> {
        match event {
            BufferEvent::Input(c) => self@.push(c),
        }
    }

    fn handle_events(&mut self, event: BufferEvent) -> (outcome: EventHandlerOutcome)
        ensures
            outcome == EventHandlerOutcome::Redraw,
    {
        match event {
            BufferEvent::Input(c) => {
                push_char(&mut self.text, c);
                EventHandlerOutcome::Redraw
            },
        }
    }
}

} // verus!
