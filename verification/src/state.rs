//! The state actor: what it does with each event it receives.

use crate::app_state::AppState;
use crate::buffer::{outcome_of, Buffer, BufferEvent, EventHandlerOutcome};
use crate::events::KamiEvent;
use vstd::prelude::*;

verus! {

/// The modifier keys that are held down.
#[derive(Clone, Copy, Debug, PartialEq, Eq, Structural)]
pub struct Modifiers {
    pub shift: bool,
    pub ctrl: bool,
    pub alt: bool,
    pub logo: bool,
}

/// An event for the state actor.
#[derive(Clone, Copy, Debug, PartialEq, Eq, Structural)]
pub enum StateEvent {
    /// The set of modifier keys held down changed.
    ModifiersChange(Modifiers),
    /// A character of input, control characters included.
    CharInput(char),
}

/// What the active buffer is to handle for `event`: a character of input
/// goes to it, a change of modifiers goes nowhere.
pub fn buffer_event(event: StateEvent) -> (input: Option<BufferEvent>)
    ensures
        input == match event {
            StateEvent::CharInput(c) => Some(BufferEvent::Input(c)),
            StateEvent::ModifiersChange(_) => None,
        },
{
    match event {
        StateEvent::CharInput(c) => Some(BufferEvent::Input(c)),
        StateEvent::ModifiersChange(_) => None,
    }
}

/// One redraw request for a change, nothing otherwise.
pub open spec fn redraw_request_of(outcome: EventHandlerOutcome) -> Option<KamiEvent> {
    match outcome {
        EventHandlerOutcome::Redraw => Some(KamiEvent::RequestRedraw),
        EventHandlerOutcome::NoChange => None,
    }
}

/// What the state actor sends to the event loop once a buffer has answered
/// with `outcome`: one redraw request for a change, nothing otherwise.
pub fn redraw_request(outcome: EventHandlerOutcome) -> (request: Option<KamiEvent>)
    ensures
        request == redraw_request_of(outcome),
{
    match outcome {
        EventHandlerOutcome::Redraw => Some(KamiEvent::RequestRedraw),
        EventHandlerOutcome::NoChange => None,
    }
}

/// One turn of the state actor: `event` is applied to the state, and the
/// result says whether a redraw is to be requested. A redraw is requested
/// exactly when the content of the active buffer changed; a change of
/// modifiers changes nothing.
pub fn state_step<B: Buffer, S>(app_state: &mut AppState<B, S>, event: StateEvent) -> (request:
    Option<KamiEvent>)
    requires
        old(app_state).well_formed(),
    ensures
        final(app_state).differs_in_active_only(old(app_state)),
        final(app_state).active_of().content() == match event {
            StateEvent::CharInput(c) => old(app_state).active_of().content_after(
                BufferEvent::Input(c),
            ),
            StateEvent::ModifiersChange(_) => old(app_state).active_of().content(),
        },
        request == redraw_request_of(
            outcome_of(old(app_state).active_of().content(), final(app_state).active_of().content()),
        ),
        request is Some <==> final(app_state).active_of().content() != old(
            app_state,
        ).active_of().content(),
{
    match buffer_event(event) {
        Some(BufferEvent::Input(c)) => redraw_request(app_state.handle_character(c)),
        None => None,
    }
}

} // verus!
