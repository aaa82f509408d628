//! The state and layout core of a small windowed text editor.
//!
//! The crate partitions a drawable area among buffers according to a split
//! tree, applies character input to the active buffer, and decides which
//! steps the input and render actors take for each event they receive.

pub mod app_state;
pub mod buffer;
pub mod events;
pub mod layout;
pub mod partition;
pub mod render;
pub mod scalar;
pub mod state;

pub use app_state::AppState;
pub use buffer::dummy_buffer::{CursorAnchor, DummyBuffer};
pub use buffer::text_buffer::AppendOnlyTextBuffer;
pub use buffer::{BoundingBox, Buffer, BufferEvent, EventHandlerOutcome};
pub use events::{KamiEvent, Route, WindowInput};
pub use layout::{Frame, Layout, Split};
pub use render::{RenderEvent, RenderStep, SurfaceSize};
pub use scalar::{Milli, Scalar};
pub use state::{Modifiers, StateEvent};
