//! The layout engine: from a split tree and a container rectangle to the
//! rectangle of every buffer slot.

use crate::buffer::BoundingBox;
use crate::scalar::{Milli, Scalar};
use vstd::prelude::*;

verus! {

/// A leaf of the split tree: the place of one buffer.
#[derive(Clone, Copy, Debug, PartialEq, Eq, Structural)]
pub struct Frame {
    /// Index of the buffer shown here.
    pub buffer_index: usize,
}

/// A split tree. Each child of an inner node comes with its weight: the
/// proportion of the parent's extent, along the split axis, that it gets.
pub enum Split<S> {
    /// One buffer fills the whole container.
    Singleton(Frame),
    /// The children share the container's height, top to bottom.
    Vertical(Vec<(Split<S>, S)>),
    /// The children share the container's width, left to right.
    Horizontal(Vec<(Split<S>, S)>),
}

/// The layout of a window.
pub struct Layout<S> {
    pub root: Split<S>,
}

/// The direction along which a node lines up its children.
pub enum Axis {
    Vertical,
    Horizontal,
}

impl Axis {
    /// The other direction.
    pub open spec fn across(self) -> Axis {
        match self {
            Axis::Vertical => Axis::Horizontal,
            Axis::Horizontal => Axis::Vertical,
        }
    }
}

impl<S: Scalar> BoundingBox<S> {
    /// Where the box starts along `axis`.
    pub open spec fn origin(self, axis: Axis) -> S {
        match axis {
            Axis::Vertical => self.top,
            Axis::Horizontal => self.left,
        }
    }

    /// How far the box reaches along `axis`.
    pub open spec fn extent(self, axis: Axis) -> S {
        match axis {
            Axis::Vertical => self.height,
            Axis::Horizontal => self.width,
        }
    }

    /// The part of the box that starts at `start` and reaches `extent` far
    /// along `axis`, and spans the box across it.
    pub open spec fn strip(self, axis: Axis, start: S, extent: S) -> BoundingBox<S> {
        match axis {
            Axis::Vertical => BoundingBox {
                left: self.left,
                top: start,
                width: self.width,
                height: extent,
            },
            Axis::Horizontal => BoundingBox {
                left: start,
                top: self.top,
                width: extent,
                height: self.height,
            },
        }
    }
}

/// Where child `n` of a node starts: the container's origin, moved forward
/// by the extent of each of the `n` children before it, first child first.
pub open spec fn child_start<S: Scalar>(
    container: BoundingBox<S>,
    axis: Axis,
    children: Seq<(Split<S>, S)>,
    n: int,
) -> S
    decreases n,
{
    if n <= 0 {
        container.origin(axis)
    } else {
        child_start(container, axis, children, n - 1).advanced(
            container.extent(axis).scaled(children[n - 1].1),
        )
    }
}

/// The rectangle that child `i` of a node is laid out in.
pub open spec fn child_box<S: Scalar>(
    container: BoundingBox<S>,
    axis: Axis,
    children: Seq<(Split<S>, S)>,
    i: int,
) -> BoundingBox<S> {
    container.strip(
        axis,
        child_start(container, axis, children, i),
        container.extent(axis).scaled(children[i].1),
    )
}

/// The rectangles of the leaves under the first `n` of `children`, child by
/// child in their order, each child laid out in its own rectangle.
pub open spec fn boxes_of_first<S: Scalar>(
    children: Seq<(Split<S>, S)>,
    container: BoundingBox<S>,
    axis: Axis,
    n: nat,
) -> Seq<(BoundingBox<S>, usize)>
    decreases children, n,
{
    if 0 < n <= children.len() {
        boxes_of_first(children, container, axis, (n - 1) as nat)
            + children[n - 1].0.boxes(child_box(container, axis, children, n - 1))
    } else {
        Seq::empty()
    }
}

impl<S: Scalar> Split<S> {
    /// The rectangle of every leaf of the tree laid out in `container`, with
    /// the leaf's buffer index, in depth-first order.
    pub open spec fn boxes(self, container: BoundingBox<S>) -> Seq<(BoundingBox<S>, usize)>
        decreases self, 0nat,
    {
        match self {
            Split::Singleton(frame) => seq![(container, frame.buffer_index)],
            Split::Vertical(children) => boxes_of_first(
                children@,
                container,
                Axis::Vertical,
                children@.len(),
            ),
            Split::Horizontal(children) => boxes_of_first(
                children@,
                container,
                Axis::Horizontal,
                children@.len(),
            ),
        }
    }

    fn build_bounding_boxes(
        &self,
        container: BoundingBox<S>,
        accumulator: &mut Vec<(BoundingBox<S>, usize)>,
    )
        ensures
            final(accumulator)@ == old(accumulator)@ + self.boxes(container),
        decreases self,
    {
        let ghost before = accumulator@;
        match self {
            Split::Singleton(frame) => {
                accumulator.push((container, frame.buffer_index));
            },
            Split::Vertical(sub) => {
                let mut accumulated_top = container.top;
                let mut i: usize = 0;
                while i < sub.len()
                    invariant
                        *self == Split::Vertical(*sub),
                        i <= sub.len(),
                        accumulated_top == child_start(container, Axis::Vertical, sub@, i as int),
                        accumulator@ == before + boxes_of_first(
                            sub@,
                            container,
                            Axis::Vertical,
                            i as nat,
                        ),
                    decreases sub.len() - i,
                {
                    let height = container.height.scale(sub[i].1);
                    assert(decreases_to!(*self => self->Vertical_0@[i as int].0));
                    sub[i].0.build_bounding_boxes(
                        BoundingBox {
                            left: container.left,
                            top: accumulated_top,
                            width: container.width,
                            height,
                        },
                        accumulator,
                    );
                    accumulated_top = accumulated_top.advance(height);
                    i += 1;
                }
            },
            Split::Horizontal(sub) => {
                let mut accumulated_left = container.left;
                let mut i: usize = 0;
                while i < sub.len()
                    invariant
                        *self == Split::Horizontal(*sub),
                        i <= sub.len(),
                        accumulated_left == child_start(
                            container,
                            Axis::Horizontal,
                            sub@,
                            i as int,
                        ),
                        accumulator@ == before + boxes_of_first(
                            sub@,
                            container,
                            Axis::Horizontal,
                            i as nat,
                        ),
                    decreases sub.len() - i,
                {
                    let width = container.width.scale(sub[i].1);
                    assert(decreases_to!(*self => self->Horizontal_0@[i as int].0));
                    sub[i].0.build_bounding_boxes(
                        BoundingBox {
                            left: accumulated_left,
                            top: container.top,
                            width,
                            height: container.height,
                        },
                        accumulator,
                    );
                    accumulated_left = accumulated_left.advance(width);
                    i += 1;
                }
            },
        }
    }
}

impl<S: Scalar> Layout<S> {
    /// Lays the tree out in `container`: one rectangle per leaf, with the
    /// leaf's buffer index, in depth-first order.
    pub fn build_bounding_boxes(&self, container: BoundingBox<S>) -> (boxes: Vec<
        (BoundingBox<S>, usize),
    >)
        ensures
            boxes@ == self.root.boxes(container),
    {
        let mut accumulator = Vec::new();
        self.root.build_bounding_boxes(container, &mut accumulator);
        accumulator
    }
}

/// The children of the root of the layout a window starts with.
pub open spec fn initial_children() -> Seq<(Split<Milli>, Milli)> {
    seq![
        (Split::<Milli>::Singleton(Frame { buffer_index: 0 }), Milli { raw: 300 }),
        (Split::<Milli>::Singleton(Frame { buffer_index: 1 }), Milli { raw: 700 }),
    ]
}

impl Layout<Milli> {
    /// The layout a window starts with: buffer 0 in the left three tenths,
    /// buffer 1 in the rest.
    pub fn new() -> (layout: Self)
        ensures
            layout.root matches Split::Horizontal(children) && children@ == initial_children(),
    {
        Self {
            root: Split::Horizontal(
                vec![
                    (Split::Singleton(Frame { buffer_index: 0 }), Milli { raw: 300 }),
                    (Split::Singleton(Frame { buffer_index: 1 }), Milli { raw: 700 }),
                ],
            ),
        }
    }
}

impl Default for Layout<Milli> {
    fn default() -> (layout: Self)
        ensures
            layout.root matches Split::Horizontal(children) && children@ == initial_children(),
    {
        Self::new()
    }
}

/// Laying out is a function of the tree and the container: any two results
/// of `build_bounding_boxes` for the same layout and the same container hold
/// the same rectangles with the same buffer indices in the same order.
pub proof fn lemma_layout_is_deterministic<S: Scalar>(
    layout: Layout<S>,
    container: BoundingBox<S>,
    first: Seq<(BoundingBox<S>, usize)>,
    second: Seq<(BoundingBox<S>, usize)>,
)
    requires
        first == layout.root.boxes(container),
        second == layout.root.boxes(container),
    ensures
        first == second,
{
}

/// A single leaf gets the whole container, unchanged, and nothing else is
/// laid out.
pub proof fn lemma_singleton_fills_container<S: Scalar>(
    slot: usize,
    container: BoundingBox<S>,
)
    ensures
        Split::<S>::Singleton(Frame { buffer_index: slot }).boxes(container) == seq![
            (container, slot),
        ],
{
}

/// A node without children lays nothing out.
pub proof fn lemma_childless_node_is_empty<S: Scalar>(
    children: Vec<(Split<S>, S)>,
    container: BoundingBox<S>,
)
    requires
        children@.len() == 0,
    ensures
        Split::Vertical(children).boxes(container) == Seq::<(BoundingBox<S>, usize)>::empty(),
        Split::Horizontal(children).boxes(container) == Seq::<(BoundingBox<S>, usize)>::empty(),
{
}

/// Under a node whose first `n` children are leaves, the rectangles laid
/// out for them are the rectangles of the children themselves, in order.
pub proof fn lemma_leaves_get_the_child_boxes<S: Scalar>(
    children: Seq<(Split<S>, S)>,
    container: BoundingBox<S>,
    axis: Axis,
    n: nat,
)
    requires
        n <= children.len(),
        forall|i: int| 0 <= i < n ==> children[i].0 is Singleton,
    ensures
        boxes_of_first(children, container, axis, n) == Seq::new(
            n,
            |i: int|
                (child_box(container, axis, children, i), children[i].0->Singleton_0.buffer_index),
        ),
    decreases n,
{
    let leaves = |i: int|
        (child_box(container, axis, children, i), children[i].0->Singleton_0.buffer_index);
    if n > 0 {
        lemma_leaves_get_the_child_boxes(children, container, axis, (n - 1) as nat);
        assert(children[n - 1].0.boxes(child_box(container, axis, children, n - 1)) == seq![
            leaves(n - 1),
        ]);
        assert(Seq::new(n, leaves) == Seq::new((n - 1) as nat, leaves) + seq![leaves(n - 1)]);
    } else {
        assert(boxes_of_first(children, container, axis, n) == Seq::new(n, leaves));
    }
}

/// The children of a node are laid out back to back: the first starts
/// where the container starts, each next one where the one before it ends,
/// and all of them span the container across the split axis.
pub proof fn lemma_children_are_contiguous<S: Scalar>(
    container: BoundingBox<S>,
    axis: Axis,
    children: Seq<(Split<S>, S)>,
    i: int,
)
    requires
        0 <= i < children.len(),
    ensures
        i == 0 ==> child_box(container, axis, children, i).origin(axis) == container.origin(axis),
        i + 1 < children.len() ==> child_box(container, axis, children, i + 1).origin(axis)
            == child_box(container, axis, children, i).origin(axis).advanced(
            child_box(container, axis, children, i).extent(axis),
        ),
        child_box(container, axis, children, i).origin(axis.across()) == container.origin(
            axis.across(),
        ),
        child_box(container, axis, children, i).extent(axis.across()) == container.extent(
            axis.across(),
        ),
{
}

} // verus!
