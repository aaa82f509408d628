//! The render coordinator: the steps it takes for each event it receives.

use crate::buffer::BoundingBox;
use crate::layout::{Frame, Layout, Split};
use crate::scalar::Scalar;
use vstd::prelude::*;

verus! {

/// The size of the drawable surface, in physical pixels.
#[derive(Clone, Copy, Debug, PartialEq, Eq, Structural)]
pub struct SurfaceSize {
    pub width: u32,
    pub height: u32,
}

/// An event for the render coordinator.
#[derive(Clone, Copy, Debug, PartialEq, Eq, Structural)]
pub enum RenderEvent {
    /// The window has a new size.
    Resize(SurfaceSize),
    /// The window is to be drawn.
    Redraw,
}

/// One step of the render coordinator.
#[derive(Debug, PartialEq, Eq)]
pub enum RenderStep<S> {
    /// Configure the drawable target for this size.
    Configure(SurfaceSize),
    /// Ask the window for a redraw.
    RequestRedraw,
    /// Acquire the frame to draw into, and clear it.
    BeginFrame,
    /// Have the buffer with this index stage its content for `bounds`.
    Enqueue { buffer: usize, bounds: BoundingBox<S> },
    /// Have the buffer with this index flush what it staged onto the frame,
    /// which has the size `target`.
    Flush { buffer: usize, target: SurfaceSize },
    /// Submit what was drawn and present the frame.
    Present,
    /// Recycle the staging resources, without waiting for it.
    Recycle,
}

impl<S: Copy> Clone for RenderStep<S> {
    fn clone(&self) -> (copy: Self)
        ensures
            copy == *self,
    {
        *self
    }
}

impl<S: Copy> Copy for RenderStep<S> {}

/// The rectangle of the whole window.
pub open spec fn full_window<S: Scalar>(size: SurfaceSize) -> BoundingBox<S> {
    BoundingBox {
        left: S::of_pixels(0),
        top: S::of_pixels(0),
        width: S::of_pixels(size.width),
        height: S::of_pixels(size.height),
    }
}

/// The rectangle of each of `count` buffers: every buffer is laid out as
/// the single leaf of a tree of its own, in the whole window.
pub open spec fn assignments<S: Scalar>(count: nat, size: SurfaceSize) -> Seq<
    (BoundingBox<S>, usize),
> {
    Seq::new(count, |i: int| (full_window::<S>(size), i as usize))
}

/// The steps of one redraw of `count` buffers in a window of `size`: begin
/// the frame, have every buffer stage its content, then have every buffer
/// flush it, then present and recycle.
pub open spec fn redraw_steps<S: Scalar>(count: nat, size: SurfaceSize) -> Seq<RenderStep<S>> {
    seq![RenderStep::BeginFrame] + Seq::new(
        count,
        |i: int| RenderStep::Enqueue { buffer: i as usize, bounds: full_window::<S>(size) },
    ) + Seq::new(count, |i: int| RenderStep::Flush { buffer: i as usize, target: size })
        + seq![RenderStep::Present, RenderStep::Recycle]
}

/// The steps that `event` asks for, with `count` buffers in a window of
/// `size`: a new size is configured and followed by a request to redraw; a
/// redraw takes `redraw_steps`.
pub open spec fn steps_for<S: Scalar>(event: RenderEvent, count: nat, size: SurfaceSize) -> Seq<
    RenderStep<S>,
> {
    match event {
        RenderEvent::Resize(new_size) => seq![
            RenderStep::Configure(new_size),
            RenderStep::RequestRedraw,
        ],
        RenderEvent::Redraw => redraw_steps(count, size),
    }
}

/// A redraw is made of two passes between the beginning of the frame and
/// its presentation: every buffer, in the order of the indices, stages its
/// content for the whole window, and only then every buffer, in the same
/// order, flushes. Each buffer does either once.
pub proof fn lemma_redraw_is_two_pass<S: Scalar>(count: usize, size: SurfaceSize)
    ensures
        redraw_steps::<S>(count as nat, size).len() == 2 * count + 3,
        redraw_steps::<S>(count as nat, size)[0] == RenderStep::<S>::BeginFrame,
        forall|k: int|
            0 <= k < count ==> #[trigger] redraw_steps::<S>(count as nat, size)[1 + k]
                == (RenderStep::Enqueue { buffer: k as usize, bounds: full_window::<S>(size) }),
        forall|k: int|
            0 <= k < count ==> #[trigger] redraw_steps::<S>(count as nat, size)[1 + count + k]
                == (RenderStep::<S>::Flush { buffer: k as usize, target: size }),
        redraw_steps::<S>(count as nat, size)[2 * count + 1] == RenderStep::<S>::Present,
        redraw_steps::<S>(count as nat, size)[2 * count + 2] == RenderStep::<S>::Recycle,
        forall|a: int, b: int|
            0 <= a < 2 * count + 3 && 0 <= b < 2 * count + 3 && (#[trigger] redraw_steps::<S>(
                count as nat,
                size,
            )[a]) is Enqueue && (#[trigger] redraw_steps::<S>(count as nat, size)[b]) is Flush
                ==> a < b,
{
}

/// The rectangle of the whole window of `size`.
pub fn window_box<S: Scalar>(size: SurfaceSize) -> (window: BoundingBox<S>)
    ensures
        window == full_window::<S>(size),
{
    BoundingBox {
        left: S::from_pixels(0),
        top: S::from_pixels(0),
        width: S::from_pixels(size.width),
        height: S::from_pixels(size.height),
    }
}

/// Assigns each of `count` buffers its rectangle in a window of `size`. The
/// layout is pinned to the whole window: each buffer is laid out by the
/// layout engine as a single leaf.
pub fn assign_boxes<S: Scalar>(count: usize, size: SurfaceSize) -> (boxes: Vec<
    (BoundingBox<S>, usize),
>)
    ensures
        boxes@ == assignments::<S>(count as nat, size),
{
    let window = window_box::<S>(size);
    let mut boxes: Vec<(BoundingBox<S>, usize)> = Vec::new();
    let mut slot: usize = 0;
    while slot < count
        invariant
            slot <= count,
            window == full_window::<S>(size),
            boxes@ == assignments::<S>(slot as nat, size),
        decreases count - slot,
    {
        let pinned = Layout { root: Split::<S>::Singleton(Frame { buffer_index: slot }) };
        let mut placed = pinned.build_bounding_boxes(window);
        boxes.append(&mut placed);
        slot += 1;
    }
    boxes
}

/// Plans what the render coordinator does for `event`, with `count` buffers
/// in a window whose size is `size` when the event is handled.
pub fn plan<S: Scalar>(event: RenderEvent, count: usize, size: SurfaceSize) -> (steps: Vec<
    RenderStep<S>,
>)
    ensures
        steps@ == steps_for::<S>(event, count as nat, size),
{
    let mut steps: Vec<RenderStep<S>> = Vec::new();
    match event {
        RenderEvent::Resize(new_size) => {
            steps.push(RenderStep::Configure(new_size));
            steps.push(RenderStep::RequestRedraw);
        },
        RenderEvent::Redraw => {
            steps.push(RenderStep::BeginFrame);
            let boxes = assign_boxes::<S>(count, size);
            let mut i: usize = 0;
            while i < count
                invariant
                    i <= count,
                    boxes@ == assignments::<S>(count as nat, size),
                    steps@ == seq![RenderStep::<S>::BeginFrame] + Seq::new(
                        i as nat,
                        |k: int|
                            RenderStep::Enqueue {
                                buffer: k as usize,
                                bounds: full_window::<S>(size),
                            },
                    ),
                decreases count - i,
            {
                let (bounds, buffer) = boxes[i];
                steps.push(RenderStep::Enqueue { buffer, bounds });
                i += 1;
            }
            let ghost staged = steps@;
            let mut i: usize = 0;
            while i < count
                invariant
                    i <= count,
                    steps@ == staged + Seq::new(
                        i as nat,
                        |k: int| RenderStep::<S>::Flush { buffer: k as usize, target: size },
                    ),
                decreases count - i,
            {
                steps.push(RenderStep::Flush { buffer: i, target: size });
                i += 1;
            }
            steps.push(RenderStep::Present);
            steps.push(RenderStep::Recycle);
        },
    }
    steps
}

/// The buffers whose flush failed, among the first `n`: the indices below
/// `n`, in order, of which `flushed` does not hold. `flushed[i]` says
/// whether buffer `i` flushed.
pub open spec fn failures_among(flushed: Seq<bool>, n: nat) -> Seq<usize> {
    Seq::new(n, |i: int| i as usize).filter(|i: usize| !flushed[i as int])
}

/// Reports the flush pass of one frame: the indices of the buffers whose
/// flush failed, in order. The pass is never cut short by a failure, so
/// `flushed` holds an answer for every buffer.
pub fn failed_flushes(flushed: &Vec<bool>) -> (failed: Vec<usize>)
    ensures
        failed@ == failures_among(flushed@, flushed@.len()),
{
    let mut failed: Vec<usize> = Vec::new();
    let mut i: usize = 0;
    while i < flushed.len()
        invariant
            i <= flushed.len(),
            failed@ == failures_among(flushed@, i as nat),
        decreases flushed.len() - i,
    {
        proof {
            reveal(Seq::filter);
            let indices = Seq::new((i + 1) as nat, |k: int| k as usize);
            assert(indices.drop_last() == Seq::new(i as nat, |k: int| k as usize));
            assert(indices.last() == i);
        }
        if !flushed[i] {
            failed.push(i);
        }
        i += 1;
    }
    failed
}

} // verus!
