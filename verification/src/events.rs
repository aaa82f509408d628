//! The events of the window, and where each of them goes.

use crate::render::{RenderEvent, SurfaceSize};
use crate::state::{Modifiers, StateEvent};
use vstd::prelude::*;

verus! {

/// An event that the editor sends to its own event loop.
#[derive(Clone, Copy, Debug, PartialEq, Eq, Structural)]
pub enum KamiEvent {
    /// The content changed: the window is to be drawn again.
    RequestRedraw,
}

/// An event of the window system, reduced to what the editor reads of it.
#[derive(Clone, Copy, Debug, PartialEq, Eq, Structural)]
pub enum WindowInput {
    /// The window has a new size.
    Resized(SurfaceSize),
    /// The window system asks for the window to be drawn.
    RedrawRequested,
    /// The user asked to close the window.
    CloseRequested,
    /// A character was typed; backspace and delete come as characters too.
    ReceivedCharacter(char),
    /// The set of modifier keys held down changed.
    ModifiersChanged(Modifiers),
    /// An event that the editor sent to itself.
    User(KamiEvent),
    /// Any other event.
    Other,
}

/// What the event loop does with an event.
#[derive(Clone, Copy, Debug, PartialEq, Eq, Structural)]
pub enum Route {
    /// Hand the event to the render coordinator.
    Render(RenderEvent),
    /// Hand the event to the state actor.
    State(StateEvent),
    /// Leave the event loop.
    Exit,
    /// Drop the event.
    Ignore,
}

/// Where `input` goes: sizes and redraws to the render coordinator,
/// characters and modifiers to the state actor, a close request ends the
/// loop, and everything else is dropped.
pub open spec fn route_of(input: WindowInput) -> Route {
    match input {
        WindowInput::Resized(size) => Route::Render(RenderEvent::Resize(size)),
        WindowInput::RedrawRequested => Route::Render(RenderEvent::Redraw),
        WindowInput::User(KamiEvent::RequestRedraw) => Route::Render(RenderEvent::Redraw),
        WindowInput::CloseRequested => Route::Exit,
        WindowInput::ReceivedCharacter(c) => Route::State(StateEvent::CharInput(c)),
        WindowInput::ModifiersChanged(modifiers) => Route::State(
            StateEvent::ModifiersChange(modifiers),
        ),
        WindowInput::Other => Route::Ignore,
    }
}

/// Decides where one event of the window goes.
pub fn route(input: WindowInput) -> (route: Route)
    ensures
        route == route_of(input),
{
    match input {
        WindowInput::Resized(size) => Route::Render(RenderEvent::Resize(size)),
        WindowInput::RedrawRequested | WindowInput::User(KamiEvent::RequestRedraw) => {
            Route::Render(RenderEvent::Redraw)
        },
        WindowInput::CloseRequested => Route::Exit,
        WindowInput::ReceivedCharacter(c) => Route::State(StateEvent::CharInput(c)),
        WindowInput::ModifiersChanged(modifiers) => Route::State(
            StateEvent::ModifiersChange(modifiers),
        ),
        WindowInput::Other => Route::Ignore,
    }
}

} // verus!
