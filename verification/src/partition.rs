//! What a split does to its container when rectangles are measured in
//! `Milli`: as long as the weights of a node sum to at most one whole, its
//! children tile a part of the container without gap or overlap, and a
//! tree of such nodes divides the container among its leaves.

use crate::buffer::BoundingBox;
use crate::layout::{boxes_of_first, child_box, child_start, Axis, Split};
use crate::scalar::{Milli, Scalar, WHOLE};
use vstd::prelude::*;

verus! {

impl BoundingBox<Milli> {
    /// The far edges of the box are within what a `Milli` can hold.
    pub open spec fn in_range(self) -> bool {
        &&& self.left.raw + self.width.raw <= u64::MAX
        &&& self.top.raw + self.height.raw <= u64::MAX
    }

    /// `inner` lies within the box, edges included.
    pub open spec fn holds(self, inner: BoundingBox<Milli>) -> bool {
        &&& self.left.raw <= inner.left.raw
        &&& inner.left.raw + inner.width.raw <= self.left.raw + self.width.raw
        &&& self.top.raw <= inner.top.raw
        &&& inner.top.raw + inner.height.raw <= self.top.raw + self.height.raw
    }

    /// The two boxes share no area: one ends where or before the other
    /// begins, along the width or along the height.
    pub open spec fn apart_from(self, other: BoundingBox<Milli>) -> bool {
        ||| self.left.raw + self.width.raw <= other.left.raw
        ||| other.left.raw + other.width.raw <= self.left.raw
        ||| self.top.raw + self.height.raw <= other.top.raw
        ||| other.top.raw + other.height.raw <= self.top.raw
    }
}

impl Split<Milli> {
    /// No node of the tree hands out more than one whole: the weights of
    /// the children of every node sum to at most `WHOLE`.
    pub open spec fn well_proportioned(self) -> bool
        decreases self,
    {
        match self {
            Split::Singleton(_) => true,
            Split::Vertical(children) => children_well_proportioned(children@),
            Split::Horizontal(children) => children_well_proportioned(children@),
        }
    }
}

/// The weights of `children` sum to at most one whole, and each child is
/// well proportioned in turn.
pub open spec fn children_well_proportioned(children: Seq<(Split<Milli>, Milli)>) -> bool
    decreases children,
{
    &&& weight_sum(children, children.len() as int) <= WHOLE
    &&& forall|i: int| 0 <= i < children.len() ==> (#[trigger] children[i]).0.well_proportioned()
}

/// The weights of the first `n` children, summed, in thousandths.
pub open spec fn weight_sum(children: Seq<(Split<Milli>, Milli)>, n: int) -> int
    decreases n,
{
    if n <= 0 {
        0
    } else {
        weight_sum(children, n - 1) + children[n - 1].1.raw
    }
}

/// The extents, along `axis`, of the rectangles of the first `n` children,
/// summed, in thousandths.
pub open spec fn extent_sum(
    container: BoundingBox<Milli>,
    axis: Axis,
    children: Seq<(Split<Milli>, Milli)>,
    n: int,
) -> int
    decreases n,
{
    if n <= 0 {
        0
    } else {
        extent_sum(container, axis, children, n - 1) + child_box(
            container,
            axis,
            children,
            n - 1,
        ).extent(axis).raw
    }
}

/// Every child's share of the container is a whole number of thousandths:
/// no extent is rounded.
pub open spec fn divides_evenly(
    container: BoundingBox<Milli>,
    axis: Axis,
    children: Seq<(Split<Milli>, Milli)>,
) -> bool {
    forall|i: int|
        0 <= i < children.len() ==> (container.extent(axis).raw * #[trigger] children[i].1.raw) % (
        WHOLE as int) == 0
}

proof fn lemma_weight_sum_grows(children: Seq<(Split<Milli>, Milli)>, m: int, n: int)
    requires
        0 <= m <= n,
    ensures
        0 <= weight_sum(children, m) <= weight_sum(children, n),
    decreases n,
{
    if m < n {
        lemma_weight_sum_grows(children, m, n - 1);
    } else if 0 < n {
        lemma_weight_sum_grows(children, m - 1, n - 1);
    }
}

/// A share of at most one whole is at most the extent it is taken from, and
/// a thousand times the share is at most extent times weight.
proof fn lemma_share_is_bounded(extent: Milli, weight: Milli)
    requires
        weight.raw <= WHOLE,
    ensures
        extent.scaled(weight).raw == extent.raw * weight.raw / (WHOLE as int),
        extent.scaled(weight).raw <= extent.raw,
        extent.scaled(weight).raw * WHOLE <= extent.raw * weight.raw,
        (extent.raw * weight.raw) % (WHOLE as int) == 0 ==> extent.scaled(weight).raw * WHOLE
            == extent.raw * weight.raw,
{
    let product = extent.raw * weight.raw;
    assert(0 <= product <= extent.raw * 1000) by (nonlinear_arith)
        requires
            product == extent.raw * weight.raw,
            0 <= weight.raw <= 1000,
            0 <= extent.raw,
    ;
    assert(product == 1000 * (product / 1000) + product % 1000);
}

/// The first `n` extents sum to at most the container's extent times the
/// first `n` weights, and to exactly that where nothing is rounded.
proof fn lemma_extent_sum_is_bounded(
    container: BoundingBox<Milli>,
    axis: Axis,
    children: Seq<(Split<Milli>, Milli)>,
    n: int,
)
    requires
        0 <= n <= children.len(),
        weight_sum(children, children.len() as int) <= WHOLE,
    ensures
        0 <= extent_sum(container, axis, children, n),
        extent_sum(container, axis, children, n) * WHOLE <= container.extent(axis).raw
            * weight_sum(children, n),
        extent_sum(container, axis, children, n) <= container.extent(axis).raw,
        divides_evenly(container, axis, children) ==> extent_sum(container, axis, children, n)
            * WHOLE == container.extent(axis).raw * weight_sum(children, n),
    decreases n,
{
    let extent = container.extent(axis);
    if n > 0 {
        lemma_extent_sum_is_bounded(container, axis, children, n - 1);
        lemma_weight_sum_grows(children, n - 1, n);
        lemma_weight_sum_grows(children, n, children.len() as int);
        let weight = children[n - 1].1;
        lemma_share_is_bounded(extent, weight);
        let before = extent_sum(container, axis, children, n - 1);
        let share = extent.scaled(weight).raw as int;
        assert(extent.raw * weight_sum(children, n) == extent.raw * weight_sum(children, n - 1)
            + extent.raw * weight.raw) by (nonlinear_arith)
            requires
                weight_sum(children, n) == weight_sum(children, n - 1) + weight.raw,
        ;
        assert((before + share) * 1000 == before * 1000 + share * 1000);
        assert(extent.raw * weight_sum(children, n) <= extent.raw * 1000) by (nonlinear_arith)
            requires
                0 <= weight_sum(children, n) <= 1000,
                0 <= extent.raw,
        ;
    }
}

/// While the weights sum to at most one whole, no position saturates: child
/// `n` starts at the container's origin plus the extents before it.
proof fn lemma_child_start_is_exact(
    container: BoundingBox<Milli>,
    axis: Axis,
    children: Seq<(Split<Milli>, Milli)>,
    n: int,
)
    requires
        0 <= n <= children.len(),
        container.in_range(),
        weight_sum(children, children.len() as int) <= WHOLE,
    ensures
        child_start(container, axis, children, n).raw == container.origin(axis).raw + extent_sum(
            container,
            axis,
            children,
            n,
        ),
    decreases n,
{
    if n > 0 {
        lemma_child_start_is_exact(container, axis, children, n - 1);
        lemma_extent_sum_is_bounded(container, axis, children, n);
    }
}

proof fn lemma_extent_sum_grows(
    container: BoundingBox<Milli>,
    axis: Axis,
    children: Seq<(Split<Milli>, Milli)>,
    m: int,
    n: int,
)
    requires
        0 <= m <= n,
    ensures
        extent_sum(container, axis, children, m) <= extent_sum(container, axis, children, n),
    decreases n,
{
    if m < n {
        lemma_extent_sum_grows(container, axis, children, m, n - 1);
    }
}

/// The children of a node whose weights sum to at most one whole lie back
/// to back inside the container: each ends where the next begins, none
/// reaches into a later one, and the last ends within the container.
pub proof fn lemma_children_tile_the_container(
    container: BoundingBox<Milli>,
    axis: Axis,
    children: Seq<(Split<Milli>, Milli)>,
)
    requires
        container.in_range(),
        weight_sum(children, children.len() as int) <= WHOLE,
    ensures
        forall|i: int|
            0 <= i && i + 1 < children.len() ==> (#[trigger] child_box(
                container,
                axis,
                children,
                i,
            )).origin(axis).raw + child_box(container, axis, children, i).extent(axis).raw
                == child_box(container, axis, children, i + 1).origin(axis).raw,
        forall|i: int, j: int|
            0 <= i < j < children.len() ==> (#[trigger] child_box(
                container,
                axis,
                children,
                i,
            )).origin(axis).raw + child_box(container, axis, children, i).extent(axis).raw <= (
            #[trigger] child_box(container, axis, children, j)).origin(axis).raw,
        forall|i: int|
            0 <= i < children.len() ==> container.origin(axis).raw <= (#[trigger] child_box(
                container,
                axis,
                children,
                i,
            )).origin(axis).raw && child_box(container, axis, children, i).origin(axis).raw
                + child_box(container, axis, children, i).extent(axis).raw <= container.origin(
                axis,
            ).raw + container.extent(axis).raw,
{
    assert forall|i: int| 0 <= i < children.len() implies {
        &&& child_box(container, axis, children, i).origin(axis).raw == container.origin(axis).raw
            + extent_sum(container, axis, children, i)
        &&& child_box(container, axis, children, i).origin(axis).raw + #[trigger] child_box(
            container,
            axis,
            children,
            i,
        ).extent(axis).raw == container.origin(axis).raw + extent_sum(
            container,
            axis,
            children,
            i + 1,
        )
        &&& 0 <= extent_sum(container, axis, children, i)
        &&& extent_sum(container, axis, children, i + 1) <= container.extent(axis).raw
    } by {
        lemma_child_start_is_exact(container, axis, children, i);
        lemma_extent_sum_is_bounded(container, axis, children, i);
        lemma_extent_sum_is_bounded(container, axis, children, i + 1);
    }
    assert forall|i: int| 0 <= i && i + 1 < children.len() implies (#[trigger] child_box(
        container,
        axis,
        children,
        i,
    )).origin(axis).raw + child_box(container, axis, children, i).extent(axis).raw == child_box(
        container,
        axis,
        children,
        i + 1,
    ).origin(axis).raw by {
        lemma_child_start_is_exact(container, axis, children, i + 1);
    }
    assert forall|i: int, j: int| 0 <= i < j < children.len() implies (#[trigger] child_box(
        container,
        axis,
        children,
        i,
    )).origin(axis).raw + child_box(container, axis, children, i).extent(axis).raw <= (
    #[trigger] child_box(container, axis, children, j)).origin(axis).raw by {
        lemma_extent_sum_grows(container, axis, children, i + 1, j);
    }
}

/// The extents of the children of a node whose weights sum to at most one
/// whole add up to at most the container's extent times the sum of the
/// weights, and to exactly that where no child's share is rounded.
pub proof fn lemma_children_total_extent(
    container: BoundingBox<Milli>,
    axis: Axis,
    children: Seq<(Split<Milli>, Milli)>,
)
    requires
        weight_sum(children, children.len() as int) <= WHOLE,
    ensures
        extent_sum(container, axis, children, children.len() as int) * WHOLE
            <= container.extent(axis).raw * weight_sum(children, children.len() as int),
        divides_evenly(container, axis, children) ==> extent_sum(
            container,
            axis,
            children,
            children.len() as int,
        ) * WHOLE == container.extent(axis).raw * weight_sum(children, children.len() as int),
{
    lemma_extent_sum_is_bounded(container, axis, children, children.len() as int);
}

/// The part of the container that the first `n` children of a node take up:
/// from the container's origin as far as their extents add up.
pub open spec fn taken_up(
    container: BoundingBox<Milli>,
    axis: Axis,
    children: Seq<(Split<Milli>, Milli)>,
    n: int,
) -> BoundingBox<Milli> {
    container.strip(
        axis,
        container.origin(axis),
        Milli { raw: extent_sum(container, axis, children, n) as u64 },
    )
}

/// The rectangles in `boxes` lie within `region` and no two of them share
/// any area.
pub open spec fn tiles_within(
    boxes: Seq<(BoundingBox<Milli>, usize)>,
    region: BoundingBox<Milli>,
) -> bool {
    &&& forall|k: int| 0 <= k < boxes.len() ==> region.holds((#[trigger] boxes[k]).0)
    &&& forall|j: int, k: int|
        0 <= j < k < boxes.len() ==> (#[trigger] boxes[j]).0.apart_from((#[trigger] boxes[k]).0)
}

proof fn lemma_first_children_tile(
    children: Seq<(Split<Milli>, Milli)>,
    container: BoundingBox<Milli>,
    axis: Axis,
    n: nat,
)
    requires
        container.in_range(),
        children_well_proportioned(children),
        n <= children.len(),
    ensures
        tiles_within(
            boxes_of_first(children, container, axis, n),
            taken_up(container, axis, children, n as int),
        ),
        container.holds(taken_up(container, axis, children, n as int)),
    decreases children, n,
{
    lemma_extent_sum_is_bounded(container, axis, children, n as int);
    if n > 0 {
        let i = n - 1;
        let child = children[i];
        let place = child_box(container, axis, children, i);
        let before = boxes_of_first(children, container, axis, i as nat);
        let added = child.0.boxes(place);
        let region = taken_up(container, axis, children, n as int);
        let region_before = taken_up(container, axis, children, i);

        lemma_extent_sum_is_bounded(container, axis, children, i);
        lemma_child_start_is_exact(container, axis, children, i);
        lemma_weight_sum_grows(children, i, n as int);
        lemma_weight_sum_grows(children, n as int, children.len() as int);
        lemma_share_is_bounded(container.extent(axis), child.1);
        assert(region.holds(place));
        assert(region.holds(region_before));
        assert(place.in_range());

        lemma_first_children_tile(children, container, axis, i as nat);
        lemma_layout_tiles(child.0, place);

        let all = boxes_of_first(children, container, axis, n);
        assert(all == before + added);
        assert forall|k: int| 0 <= k < all.len() implies region.holds((#[trigger] all[k]).0) by {
            if k < before.len() {
                assert(region_before.holds(before[k].0));
            } else {
                assert(place.holds(added[k - before.len()].0));
            }
        }
        assert forall|j: int, k: int| 0 <= j < k < all.len() implies (#[trigger] all[j]).0.apart_from(
            (#[trigger] all[k]).0,
        ) by {
            if k < before.len() {
                assert(before[j].0.apart_from(before[k].0));
            } else if j < before.len() {
                assert(region_before.holds(before[j].0));
                assert(place.holds(added[k - before.len()].0));
            } else {
                assert(added[j - before.len()].0.apart_from(added[k - before.len()].0));
            }
        }
    }
}

/// A well-proportioned tree divides its container: every rectangle laid out
/// lies within the container, and no two of them share any area.
pub proof fn lemma_layout_tiles(tree: Split<Milli>, container: BoundingBox<Milli>)
    requires
        tree.well_proportioned(),
        container.in_range(),
    ensures
        tiles_within(tree.boxes(container), container),
    decreases tree, 0nat,
{
    match tree {
        Split::Singleton(_) => {},
        Split::Vertical(children) => {
            lemma_first_children_tile(children@, container, Axis::Vertical, children@.len());
        },
        Split::Horizontal(children) => {
            lemma_first_children_tile(children@, container, Axis::Horizontal, children@.len());
        },
    }
}

} // verus!
