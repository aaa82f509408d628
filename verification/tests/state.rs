use kami::buffer::dummy_buffer::BACKSPACE_CHAR;
use kami::events::route;
use kami::state::{buffer_event, redraw_request, state_step};
use kami::{
    AppState, BufferEvent, DummyBuffer, EventHandlerOutcome, KamiEvent, Layout, Milli, Modifiers,
    RenderEvent, Route, StateEvent, SurfaceSize, WindowInput,
};

fn state_with(texts: &[&str], active: usize) -> AppState<DummyBuffer, Milli> {
    let mut state = AppState::new(Layout::new());
    for text in texts {
        let mut buffer = DummyBuffer::new();
        for c in text.chars() {
            buffer.handle_input(c);
        }
        state.buffers.push(buffer);
    }
    state.active_buffer = active;
    state
}

fn texts(state: &AppState<DummyBuffer, Milli>) -> Vec<String> {
    state.buffers.iter().map(|buffer| buffer.text().to_string()).collect()
}

fn no_modifiers() -> Modifiers {
    Modifiers { shift: false, ctrl: false, alt: false, logo: false }
}

#[test]
fn default_state_has_no_buffers() {
    let state: AppState<DummyBuffer, Milli> = AppState::default();
    assert!(state.buffers.is_empty());
    assert_eq!(state.active_buffer, 0);
    assert!(matches!(state.layout.root, kami::Split::Horizontal(_)));
}

#[test]
fn active_is_the_buffer_at_the_active_index() {
    let state = state_with(&["zero", "one", "two"], 1);
    assert_eq!(state.active().text(), "one");
}

#[test]
fn character_goes_to_the_active_buffer_only() {
    let mut state = state_with(&["left", "right"], 1);
    assert_eq!(state.handle_character('!'), EventHandlerOutcome::Redraw);
    assert_eq!(texts(&state), vec!["left", "right!"]);
    assert_eq!(state.active_buffer, 1);

    state.active_buffer = 0;
    assert_eq!(state.handle_character(BACKSPACE_CHAR), EventHandlerOutcome::Redraw);
    assert_eq!(texts(&state), vec!["lef", "right!"]);
}

#[test]
fn erase_in_an_empty_active_buffer_changes_nothing() {
    let mut state = state_with(&["", "kept"], 0);
    assert_eq!(state.handle_character(BACKSPACE_CHAR), EventHandlerOutcome::NoChange);
    assert_eq!(texts(&state), vec!["", "kept"]);
}

#[test]
fn character_events_become_buffer_input() {
    assert_eq!(buffer_event(StateEvent::CharInput('x')), Some(BufferEvent::Input('x')));
    assert_eq!(buffer_event(StateEvent::ModifiersChange(no_modifiers())), None);
}

#[test]
fn redraw_is_requested_for_a_change_only() {
    assert_eq!(redraw_request(EventHandlerOutcome::Redraw), Some(KamiEvent::RequestRedraw));
    assert_eq!(redraw_request(EventHandlerOutcome::NoChange), None);
}

#[test]
fn step_requests_a_redraw_when_the_content_changes() {
    let mut state = state_with(&["a", "b"], 1);
    assert_eq!(state_step(&mut state, StateEvent::CharInput('c')), Some(KamiEvent::RequestRedraw));
    assert_eq!(texts(&state), vec!["a", "bc"]);
    assert_eq!(state_step(&mut state, StateEvent::CharInput(BACKSPACE_CHAR)), Some(KamiEvent::RequestRedraw));
    assert_eq!(texts(&state), vec!["a", "b"]);
}

#[test]
fn step_requests_nothing_when_nothing_changes() {
    let mut state = state_with(&["a", ""], 1);
    assert_eq!(state_step(&mut state, StateEvent::CharInput(BACKSPACE_CHAR)), None);
    assert_eq!(texts(&state), vec!["a", ""]);
    let shift = Modifiers { shift: true, ctrl: false, alt: false, logo: false };
    assert_eq!(state_step(&mut state, StateEvent::ModifiersChange(shift)), None);
    assert_eq!(texts(&state), vec!["a", ""]);
    assert_eq!(state.active_buffer, 1);
}

#[test]
fn events_are_applied_in_the_order_received() {
    let mut state = state_with(&[""], 0);
    let events = [
        StateEvent::CharInput('a'),
        StateEvent::CharInput('b'),
        StateEvent::CharInput(BACKSPACE_CHAR),
        StateEvent::ModifiersChange(no_modifiers()),
        StateEvent::CharInput('c'),
        StateEvent::CharInput(BACKSPACE_CHAR),
        StateEvent::CharInput(BACKSPACE_CHAR),
        StateEvent::CharInput(BACKSPACE_CHAR),
    ];
    let requests = events
        .iter()
        .map(|event| state_step(&mut state, *event).is_some())
        .collect::<Vec<_>>();
    assert_eq!(requests, vec![true, true, true, false, true, true, true, false]);
    assert_eq!(texts(&state), vec![""]);
}

#[test]
fn window_events_are_routed() {
    let size = SurfaceSize { width: 800, height: 600 };
    assert_eq!(route(WindowInput::Resized(size)), Route::Render(RenderEvent::Resize(size)));
    assert_eq!(route(WindowInput::RedrawRequested), Route::Render(RenderEvent::Redraw));
    assert_eq!(route(WindowInput::User(KamiEvent::RequestRedraw)), Route::Render(RenderEvent::Redraw));
    assert_eq!(route(WindowInput::CloseRequested), Route::Exit);
    assert_eq!(route(WindowInput::ReceivedCharacter('q')), Route::State(StateEvent::CharInput('q')));
    assert_eq!(
        route(WindowInput::ReceivedCharacter(BACKSPACE_CHAR)),
        Route::State(StateEvent::CharInput(BACKSPACE_CHAR))
    );
    let ctrl = Modifiers { shift: false, ctrl: true, alt: false, logo: false };
    assert_eq!(route(WindowInput::ModifiersChanged(ctrl)), Route::State(StateEvent::ModifiersChange(ctrl)));
    assert_eq!(route(WindowInput::Other), Route::Ignore);
}
