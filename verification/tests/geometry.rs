use scm_record::rect::{clamp_to_usize, Rect, RectSize, ScreenRect};

fn rect(x: isize, y: isize, width: usize, height: usize) -> Rect {
    Rect { x, y, width, height }
}

fn samples() -> Vec<Rect> {
    vec![
        rect(0, 0, 0, 0),
        rect(0, 0, 10, 5),
        rect(2, 0, 5, 1),
        rect(-3, -4, 6, 8),
        rect(7, 7, 0, 3),
        rect(-20, 5, 4, 0),
        rect(100, 100, 1, 1),
        rect(isize::MAX, isize::MAX, 5, 5),
        rect(isize::MIN, isize::MIN, usize::MAX, usize::MAX),
        rect(isize::MAX - 2, 0, usize::MAX, 1),
        rect(isize::MIN, 3, 1, 1),
    ]
}

#[test]
fn is_empty_when_width_or_height_is_zero() {
    assert!(rect(0, 0, 0, 0).is_empty());
    assert!(rect(5, 5, 0, 3).is_empty());
    assert!(rect(5, 5, 3, 0).is_empty());
    assert!(!rect(5, 5, 1, 1).is_empty());
    assert!(!rect(-5, -5, 3, 2).is_empty());
}

#[test]
fn corners() {
    let r = rect(-3, 4, 10, 2);
    assert_eq!(r.top_left(), (-3, 4));
    assert_eq!(r.bottom_right(), (7, 6));
}

#[test]
fn bottom_right_beyond_isize() {
    let r = rect(isize::MAX, isize::MAX - 1, usize::MAX, 3);
    assert_eq!(
        r.bottom_right(),
        (isize::MAX as i128 + usize::MAX as i128, isize::MAX as i128 + 2)
    );
}

#[test]
fn intersect_overlapping() {
    let a = rect(0, 0, 10, 5);
    let b = rect(2, 0, 5, 1);
    assert_eq!(a.intersect(b), rect(2, 0, 5, 1));
    let c = rect(8, 3, 10, 10);
    assert_eq!(a.intersect(c), rect(8, 3, 2, 2));
    let d = rect(-4, -2, 6, 4);
    assert_eq!(a.intersect(d), rect(0, 0, 2, 2));
}

#[test]
fn intersect_disjoint_is_empty_at_computed_position() {
    let a = rect(0, 0, 10, 5);
    let right = rect(20, 1, 3, 3);
    assert_eq!(a.intersect(right), rect(20, 1, 0, 3));
    assert!(a.intersect(right).is_empty());
    let below = rect(1, 9, 3, 3);
    assert_eq!(a.intersect(below), rect(1, 9, 3, 0));
    let far = rect(-30, -30, 3, 3);
    assert_eq!(a.intersect(far), rect(0, 0, 0, 0));
    let touching = rect(10, 0, 2, 2);
    assert_eq!(a.intersect(touching), rect(10, 0, 0, 2));
}

#[test]
fn intersect_at_the_limits_of_the_coordinates() {
    let all = rect(isize::MIN, isize::MIN, usize::MAX, usize::MAX);
    let corner = rect(isize::MAX - 1, isize::MAX - 1, 5, 5);
    assert_eq!(all.intersect(corner), rect(isize::MAX - 1, isize::MAX - 1, 1, 1));
    let beyond = rect(isize::MAX, 0, usize::MAX, 1);
    assert_eq!(beyond.intersect(beyond), beyond);
    let wide = rect(isize::MAX - 2, 0, 10, 1);
    assert_eq!(beyond.intersect(wide), rect(isize::MAX, 0, 8, 1));
}

#[test]
fn union_bounding_of_two_rects_with_area() {
    let a = rect(0, 0, 10, 5);
    let b = rect(20, 7, 3, 3);
    assert_eq!(a.union_bounding(b), rect(0, 0, 23, 10));
    let c = rect(-5, -1, 2, 2);
    assert_eq!(a.union_bounding(c), rect(-5, -1, 15, 6));
    let inside = rect(2, 2, 1, 1);
    assert_eq!(a.union_bounding(inside), a);
}

#[test]
fn union_bounding_ignores_an_empty_operand() {
    let a = rect(3, 4, 10, 5);
    for empty in [rect(0, 0, 0, 0), rect(100, 100, 0, 7), rect(-9, 50, 7, 0)] {
        assert_eq!(a.union_bounding(empty), a);
        assert_eq!(empty.union_bounding(a), a);
    }
}

#[test]
fn union_bounding_of_two_empty_rects_is_the_second() {
    let first = rect(1, 1, 0, 0);
    let second = rect(5, 5, 0, 1);
    assert_eq!(first.union_bounding(second), second);
    assert_eq!(second.union_bounding(first), first);
}

#[test]
fn union_bounding_clamps_a_box_that_is_too_wide() {
    let left = rect(isize::MIN, 0, 1, 1);
    let right = rect(isize::MAX, 0, 5, 1);
    assert_eq!(left.union_bounding(right), rect(isize::MIN, 0, usize::MAX, 1));
    let top = rect(0, isize::MIN, 1, 1);
    let bottom = rect(0, isize::MAX - 1, 1, usize::MAX);
    assert_eq!(top.union_bounding(bottom), rect(0, isize::MIN, 1, usize::MAX));
}

#[test]
fn union_bounding_reaches_exactly_the_largest_width() {
    let left = rect(isize::MIN, 0, 1, 1);
    let right = rect(isize::MAX - 1, 0, 1, 1);
    assert_eq!(left.union_bounding(right), rect(isize::MIN, 0, usize::MAX, 1));
    let nearer = rect(isize::MAX - 2, 0, 1, 1);
    assert_eq!(left.union_bounding(nearer), rect(isize::MIN, 0, usize::MAX - 1, 1));
}

#[test]
fn intersect_and_union_with_itself() {
    for a in samples() {
        assert_eq!(a.intersect(a), a);
        assert_eq!(a.union_bounding(a), a);
    }
}

#[test]
fn intersect_is_commutative() {
    for a in samples() {
        for b in samples() {
            assert_eq!(a.intersect(b), b.intersect(a));
        }
    }
}

#[test]
fn union_bounding_is_commutative_unless_both_are_empty() {
    for a in samples() {
        for b in samples() {
            if !(a.is_empty() && b.is_empty()) {
                assert_eq!(a.union_bounding(b), b.union_bounding(a));
            }
        }
    }
}

#[test]
fn union_bounding_is_associative() {
    for a in samples() {
        for b in samples() {
            for c in samples() {
                assert_eq!(
                    a.union_bounding(b).union_bounding(c),
                    a.union_bounding(b.union_bounding(c))
                );
            }
        }
    }
}

#[test]
fn union_bounding_absorbs_its_operands() {
    for a in samples() {
        for b in samples() {
            let both = a.union_bounding(b);
            if !a.is_empty() {
                assert_eq!(both.union_bounding(a), both);
            }
            if !b.is_empty() {
                assert_eq!(both.union_bounding(b), both);
            }
        }
    }
}

#[test]
fn intersection_lies_within_both() {
    for a in samples() {
        for b in samples() {
            let common = a.intersect(b);
            if !common.is_empty() {
                assert_eq!(common.intersect(a), common);
                assert_eq!(common.intersect(b), common);
                assert_eq!(a.union_bounding(common), a);
                assert_eq!(b.union_bounding(common), b);
            }
        }
    }
}

#[test]
fn clamp_to_usize_clamps_both_ways() {
    assert_eq!(clamp_to_usize(-1), 0);
    assert_eq!(clamp_to_usize(i128::MIN), 0);
    assert_eq!(clamp_to_usize(0), 0);
    assert_eq!(clamp_to_usize(17), 17);
    assert_eq!(clamp_to_usize(usize::MAX as i128), usize::MAX);
    assert_eq!(clamp_to_usize(usize::MAX as i128 + 1), usize::MAX);
    assert_eq!(clamp_to_usize(i128::MAX), usize::MAX);
}

#[test]
fn defaults_are_empty_at_the_origin() {
    assert_eq!(Rect::default(), rect(0, 0, 0, 0));
    assert_eq!(RectSize::default(), RectSize { width: 0, height: 0 });
    assert_eq!(ScreenRect::default(), ScreenRect { x: 0, y: 0, width: 0, height: 0 });
}

#[test]
fn size_of_a_rect() {
    assert_eq!(RectSize::from(rect(-3, 9, 12, 7)), RectSize { width: 12, height: 7 });
}

#[test]
fn rect_of_a_screen_rect() {
    let screen = ScreenRect { x: 3, y: 65535, width: 80, height: 24 };
    assert_eq!(Rect::from(screen), rect(3, 65535, 80, 24));
    assert_eq!(RectSize::from(screen), RectSize { width: 80, height: 24 });
    let size: RectSize = screen.into();
    assert_eq!(size, RectSize { width: 80, height: 24 });
}

#[test]
fn screen_rect_is_empty() {
    assert!(ScreenRect { x: 1, y: 1, width: 0, height: 4 }.is_empty());
    assert!(ScreenRect { x: 1, y: 1, width: 4, height: 0 }.is_empty());
    assert!(!ScreenRect { x: 1, y: 1, width: 4, height: 4 }.is_empty());
}
