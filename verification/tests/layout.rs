use kami::scalar::WHOLE;
use kami::{BoundingBox, Frame, Layout, Milli, Scalar, Split};

/// Surface units as a renderer has them: single-precision floats.
#[derive(Clone, Copy, Debug, PartialEq)]
struct Px(f32);

impl Scalar for Px {
    fn of_pixels(pixels: u32) -> Px {
        Px(pixels as f32)
    }

    fn scaled(self, weight: Px) -> Px {
        Px(self.0 * weight.0)
    }

    fn advanced(self, extent: Px) -> Px {
        Px(self.0 + extent.0)
    }

    fn from_pixels(pixels: u32) -> Px {
        Px::of_pixels(pixels)
    }

    fn scale(self, weight: Px) -> Px {
        self.scaled(weight)
    }

    fn advance(self, extent: Px) -> Px {
        self.advanced(extent)
    }
}

fn milli_box(left: u32, top: u32, width: u32, height: u32) -> BoundingBox<Milli> {
    BoundingBox {
        left: Milli::from_pixels(left),
        top: Milli::from_pixels(top),
        width: Milli::from_pixels(width),
        height: Milli::from_pixels(height),
    }
}

fn px_box(left: f32, top: f32, width: f32, height: f32) -> BoundingBox<Px> {
    BoundingBox { left: Px(left), top: Px(top), width: Px(width), height: Px(height) }
}

fn leaf<S>(slot: usize) -> Split<S> {
    Split::Singleton(Frame { buffer_index: slot })
}

fn bits(b: &BoundingBox<Px>) -> [u32; 4] {
    [b.left.0.to_bits(), b.top.0.to_bits(), b.width.0.to_bits(), b.height.0.to_bits()]
}

fn close(a: f32, b: f32) -> bool {
    (a - b).abs() < 1e-4
}

#[test]
fn horizontal_split_of_two_singletons() {
    let layout = Layout {
        root: Split::Horizontal(vec![
            (leaf(0), Milli { raw: 300 }),
            (leaf(1), Milli { raw: 700 }),
        ]),
    };
    let boxes = layout.build_bounding_boxes(milli_box(0, 0, 100, 50));
    assert_eq!(boxes, vec![(milli_box(0, 0, 30, 50), 0), (milli_box(30, 0, 70, 50), 1)]);
}

#[test]
fn horizontal_split_of_two_singletons_in_floats() {
    let layout = Layout {
        root: Split::Horizontal(vec![(leaf(0), Px(0.3)), (leaf(1), Px(0.7))]),
    };
    let boxes = layout.build_bounding_boxes(px_box(0.0, 0.0, 100.0, 50.0));
    assert_eq!(boxes.len(), 2);
    let (first, second) = (boxes[0], boxes[1]);
    assert_eq!(first.1, 0);
    assert_eq!(second.1, 1);
    assert!(close(first.0.left.0, 0.0) && close(first.0.top.0, 0.0));
    assert!(close(first.0.width.0, 30.0) && close(first.0.height.0, 50.0));
    assert!(close(second.0.left.0, 30.0) && close(second.0.top.0, 0.0));
    assert!(close(second.0.width.0, 70.0) && close(second.0.height.0, 50.0));
    // The engine multiplies and adds in one fixed order.
    assert_eq!(first.0.width.0, 100.0f32 * 0.3f32);
    assert_eq!(second.0.left.0, 0.0f32 + 100.0f32 * 0.3f32);
    assert_eq!(second.0.width.0, 100.0f32 * 0.7f32);
}

#[test]
fn exact_weights_give_exact_floats() {
    let layout = Layout {
        root: Split::Horizontal(vec![(leaf(0), Px(0.25)), (leaf(1), Px(0.75))]),
    };
    let boxes = layout.build_bounding_boxes(px_box(0.0, 0.0, 100.0, 50.0));
    assert_eq!(boxes, vec![(px_box(0.0, 0.0, 25.0, 50.0), 0), (px_box(25.0, 0.0, 75.0, 50.0), 1)]);
}

#[test]
fn two_runs_give_the_same_bits() {
    let layout = Layout {
        root: Split::Vertical(vec![
            (Split::Horizontal(vec![(leaf(0), Px(0.1)), (leaf(1), Px(0.2)), (leaf(2), Px(0.7))]), Px(0.3)),
            (leaf(3), Px(0.3)),
            (Split::Vertical(vec![(leaf(4), Px(1.0 / 3.0)), (leaf(5), Px(2.0 / 3.0))]), Px(0.4)),
        ]),
    };
    let container = px_box(3.5, 7.25, 1279.0, 717.0);
    let first = layout.build_bounding_boxes(container);
    let second = layout.build_bounding_boxes(container);
    assert_eq!(first.len(), 6);
    assert_eq!(first.len(), second.len());
    for (a, b) in first.iter().zip(second.iter()) {
        assert_eq!(bits(&a.0), bits(&b.0));
        assert_eq!(a.1, b.1);
    }
}

#[test]
fn two_runs_give_the_same_rectangles() {
    let layout = Layout::new();
    let container = milli_box(0, 0, 1280, 720);
    assert_eq!(layout.build_bounding_boxes(container), layout.build_bounding_boxes(container));
}

#[test]
fn singleton_returns_the_container() {
    let container = milli_box(7, 11, 640, 480);
    let layout = Layout { root: leaf(5) };
    assert_eq!(layout.build_bounding_boxes(container), vec![(container, 5)]);
}

#[test]
fn singleton_returns_the_container_in_floats() {
    let container = px_box(0.1, 0.2, 640.3, 480.7);
    let layout = Layout { root: leaf(2) };
    let boxes = layout.build_bounding_boxes(container);
    assert_eq!(boxes.len(), 1);
    assert_eq!(bits(&boxes[0].0), bits(&container));
    assert_eq!(boxes[0].1, 2);
}

#[test]
fn vertical_split_stacks_top_to_bottom() {
    let layout = Layout {
        root: Split::Vertical(vec![
            (leaf(0), Milli { raw: 250 }),
            (leaf(1), Milli { raw: 250 }),
            (leaf(2), Milli { raw: 500 }),
        ]),
    };
    let boxes = layout.build_bounding_boxes(milli_box(10, 20, 200, 400));
    assert_eq!(
        boxes,
        vec![
            (milli_box(10, 20, 200, 100), 0),
            (milli_box(10, 120, 200, 100), 1),
            (milli_box(10, 220, 200, 200), 2),
        ]
    );
}

#[test]
fn nested_splits_are_laid_out_depth_first() {
    let layout = Layout {
        root: Split::Horizontal(vec![
            (
                Split::Vertical(vec![(leaf(3), Milli { raw: 500 }), (leaf(1), Milli { raw: 500 })]),
                Milli { raw: 400 },
            ),
            (leaf(2), Milli { raw: 600 }),
        ]),
    };
    let boxes = layout.build_bounding_boxes(milli_box(0, 0, 100, 60));
    assert_eq!(
        boxes,
        vec![
            (milli_box(0, 0, 40, 30), 3),
            (milli_box(0, 30, 40, 30), 1),
            (milli_box(40, 0, 60, 60), 2),
        ]
    );
}

#[test]
fn node_without_children_lays_nothing_out() {
    let container = milli_box(0, 0, 100, 50);
    let vertical: Layout<Milli> = Layout { root: Split::Vertical(vec![]) };
    let horizontal: Layout<Milli> = Layout { root: Split::Horizontal(vec![]) };
    assert!(vertical.build_bounding_boxes(container).is_empty());
    assert!(horizontal.build_bounding_boxes(container).is_empty());
    let nested = Layout {
        root: Split::Horizontal(vec![
            (Split::Vertical(vec![]), Milli { raw: 500 }),
            (leaf(4), Milli { raw: 500 }),
        ]),
    };
    assert_eq!(nested.build_bounding_boxes(container), vec![(milli_box(50, 0, 50, 50), 4)]);
}

#[test]
fn weights_over_one_whole_run_past_the_container() {
    let layout = Layout {
        root: Split::Vertical(vec![
            (leaf(0), Milli { raw: 800 }),
            (leaf(1), Milli { raw: 800 }),
        ]),
    };
    let boxes = layout.build_bounding_boxes(milli_box(0, 0, 100, 50));
    assert_eq!(boxes, vec![(milli_box(0, 0, 100, 40), 0), (milli_box(0, 40, 100, 40), 1)]);
    // The second child ends at 80, below the container's bottom edge at 50.
    assert!(boxes[1].0.top.raw + boxes[1].0.height.raw > 50 * WHOLE);
}

#[test]
fn children_tile_without_gap_or_overlap() {
    let weights = [125u64, 250, 375, 250];
    let children = weights
        .iter()
        .enumerate()
        .map(|(slot, raw)| (leaf(slot), Milli { raw: *raw }))
        .collect::<Vec<_>>();
    let container = milli_box(16, 32, 800, 600);
    let boxes = Layout { root: Split::Horizontal(children) }.build_bounding_boxes(container);
    assert_eq!(boxes.len(), 4);
    assert_eq!(boxes[0].0.left, container.left);
    for pair in boxes.windows(2) {
        assert_eq!(pair[0].0.left.raw + pair[0].0.width.raw, pair[1].0.left.raw);
    }
    for (rectangle, _) in &boxes {
        assert_eq!(rectangle.top, container.top);
        assert_eq!(rectangle.height, container.height);
    }
    let total: u64 = boxes.iter().map(|(rectangle, _)| rectangle.width.raw).sum();
    let weight_sum: u64 = weights.iter().sum();
    assert_eq!(total * WHOLE, container.width.raw * weight_sum);
    assert_eq!(total, 800 * WHOLE);
}

#[test]
fn children_are_back_to_back_in_floats() {
    let weights = [0.1f32, 0.2, 0.3, 0.4];
    let children = weights
        .iter()
        .enumerate()
        .map(|(slot, weight)| (leaf(slot), Px(*weight)))
        .collect::<Vec<_>>();
    let container = px_box(5.0, 9.0, 1024.0, 768.0);
    let boxes = Layout { root: Split::Vertical(children) }.build_bounding_boxes(container);
    assert_eq!(boxes.len(), 4);
    assert_eq!(boxes[0].0.top, container.top);
    for pair in boxes.windows(2) {
        assert_eq!(pair[1].0.top.0, pair[0].0.top.0 + pair[0].0.height.0);
        assert!(pair[0].0.top.0 + pair[0].0.height.0 <= pair[1].0.top.0);
    }
    for ((rectangle, _), weight) in boxes.iter().zip(weights) {
        assert_eq!(rectangle.left, container.left);
        assert_eq!(rectangle.width, container.width);
        assert_eq!(rectangle.height.0, 768.0f32 * weight);
    }
    let total: f32 = boxes.iter().map(|(rectangle, _)| rectangle.height.0).sum();
    assert!(close(total, 768.0 * weights.iter().sum::<f32>()));
}

#[test]
fn well_proportioned_tree_divides_its_container() {
    let layout = Layout {
        root: Split::Vertical(vec![
            (
                Split::Horizontal(vec![
                    (leaf(0), Milli { raw: 333 }),
                    (
                        Split::Vertical(vec![
                            (leaf(1), Milli { raw: 500 }),
                            (leaf(2), Milli { raw: 250 }),
                        ]),
                        Milli { raw: 333 },
                    ),
                    (leaf(3), Milli { raw: 334 }),
                ]),
                Milli { raw: 600 },
            ),
            (leaf(4), Milli { raw: 150 }),
            (Split::Horizontal(vec![]), Milli { raw: 50 }),
            (leaf(5), Milli { raw: 200 }),
        ]),
    };
    let container = BoundingBox {
        left: Milli { raw: 12_345 },
        top: Milli { raw: 678 },
        width: Milli { raw: 1_919_191 },
        height: Milli { raw: 1_079_999 },
    };
    let boxes = layout.build_bounding_boxes(container);
    assert_eq!(boxes.iter().map(|(_, slot)| *slot).collect::<Vec<_>>(), vec![0, 1, 2, 3, 4, 5]);
    let right = |b: &BoundingBox<Milli>| b.left.raw + b.width.raw;
    let bottom = |b: &BoundingBox<Milli>| b.top.raw + b.height.raw;
    for (inner, _) in &boxes {
        assert!(container.left.raw <= inner.left.raw && right(inner) <= right(&container));
        assert!(container.top.raw <= inner.top.raw && bottom(inner) <= bottom(&container));
    }
    for (j, (a, _)) in boxes.iter().enumerate() {
        for (b, _) in &boxes[j + 1..] {
            let apart = right(a) <= b.left.raw
                || right(b) <= a.left.raw
                || bottom(a) <= b.top.raw
                || bottom(b) <= a.top.raw;
            assert!(apart);
        }
    }
}

#[test]
fn rounded_shares_stay_below_the_exact_total() {
    // One thousandth of a unit cannot be halved: both shares round down.
    let container = BoundingBox {
        left: Milli { raw: 0 },
        top: Milli { raw: 0 },
        width: Milli { raw: 1 },
        height: Milli { raw: 1 },
    };
    let layout = Layout {
        root: Split::Horizontal(vec![(leaf(0), Milli { raw: 500 }), (leaf(1), Milli { raw: 500 })]),
    };
    let boxes = layout.build_bounding_boxes(container);
    assert_eq!(boxes[0].0.width, Milli { raw: 0 });
    assert_eq!(boxes[1].0.width, Milli { raw: 0 });
    assert_eq!(boxes[1].0.left, Milli { raw: 0 });
}

#[test]
fn initial_layout_is_three_tenths_and_seven_tenths() {
    for layout in [Layout::new(), Layout::default()] {
        match layout.root {
            Split::Horizontal(children) => {
                assert_eq!(children.len(), 2);
                assert!(matches!(children[0].0, Split::Singleton(Frame { buffer_index: 0 })));
                assert_eq!(children[0].1, Milli { raw: 300 });
                assert!(matches!(children[1].0, Split::Singleton(Frame { buffer_index: 1 })));
                assert_eq!(children[1].1, Milli { raw: 700 });
            }
            _ => panic!("the initial layout splits horizontally"),
        }
    }
}

#[test]
fn milli_measures_pixels_in_thousandths() {
    assert_eq!(Milli::from_pixels(0), Milli { raw: 0 });
    assert_eq!(Milli::from_pixels(1), Milli { raw: 1000 });
    assert_eq!(Milli::from_pixels(u32::MAX), Milli { raw: 4_294_967_295_000 });
}

#[test]
fn milli_scales_and_rounds_down() {
    assert_eq!(Milli { raw: 100_000 }.scale(Milli { raw: 300 }), Milli { raw: 30_000 });
    assert_eq!(Milli { raw: 1 }.scale(Milli { raw: 999 }), Milli { raw: 0 });
    assert_eq!(Milli { raw: 1999 }.scale(Milli { raw: 500 }), Milli { raw: 999 });
    assert_eq!(Milli { raw: 5 }.scale(Milli { raw: 1000 }), Milli { raw: 5 });
    assert_eq!(Milli { raw: 7 }.scale(Milli { raw: 0 }), Milli { raw: 0 });
}

#[test]
fn milli_saturates() {
    let max = Milli { raw: u64::MAX };
    assert_eq!(max.advance(Milli { raw: 1 }), max);
    assert_eq!(Milli { raw: u64::MAX - 1 }.advance(Milli { raw: 1 }), max);
    assert_eq!(Milli { raw: 3 }.advance(Milli { raw: 4 }), Milli { raw: 7 });
    assert_eq!(max.scale(Milli { raw: 1001 }), max);
    assert_eq!(max.scale(Milli { raw: 1000 }), max);
    assert_eq!(max.scale(max), max);
    assert_eq!(max.scale(Milli { raw: 500 }), Milli { raw: u64::MAX / 2 });
}
