use elmesque::element::{down, inward, left, outward, right, up, Direction, Three};
use elmesque::layout::{
    anchor_offset, crop_scissor, flow_size, flow_slots, intersect, point_over, scale_dimension,
    Scissor, Slot,
};

#[test]
fn direction_constructors() {
    assert_eq!(up(), Direction::Up);
    assert_eq!(down(), Direction::Down);
    assert_eq!(left(), Direction::Left);
    assert_eq!(right(), Direction::Right);
    assert_eq!(inward(), Direction::In);
    assert_eq!(outward(), Direction::Out);
}

#[test]
fn flow_down_takes_widest_and_adds_heights() {
    let a = (10, 20);
    let b = (30, 5);
    assert_eq!(flow_size(Direction::Down, &vec![a, b]), (30, 25));
    assert_eq!(flow_size(Direction::Up, &vec![a, b]), (30, 25));
}

#[test]
fn above_matches_down_flow_and_below_swaps() {
    let a = (12, 7);
    let b = (40, 3);
    let above = flow_size(down(), &vec![a, b]);
    let below = flow_size(down(), &vec![b, a]);
    assert_eq!(above, (40, 10));
    assert_eq!(above, below);
}

#[test]
fn flow_right_adds_widths_and_takes_tallest() {
    let sizes = vec![(10, 20), (30, 5), (1, 21)];
    assert_eq!(flow_size(Direction::Right, &sizes), (41, 21));
    assert_eq!(flow_size(Direction::Left, &sizes), (41, 21));
}

#[test]
fn layered_flow_takes_largest_of_each() {
    let sizes = vec![(10, 20), (30, 5)];
    assert_eq!(flow_size(Direction::In, &sizes), (30, 20));
    assert_eq!(flow_size(Direction::Out, &sizes), (30, 20));
}

#[test]
fn flow_of_nothing_is_zero_sized() {
    for dir in [up(), down(), left(), right(), inward(), outward()] {
        assert_eq!(flow_size(dir, &vec![]), (0, 0));
        assert!(flow_slots(dir, &vec![]).is_empty());
    }
}

#[test]
fn flow_single_negative_extent_is_kept() {
    assert_eq!(flow_size(Direction::Out, &vec![(-4, -9)]), (-4, -9));
}

#[test]
fn down_slots_are_edge_to_edge() {
    let slots = flow_slots(Direction::Down, &vec![(5, 10), (5, 20), (5, 30)]);
    assert_eq!(
        slots,
        vec![
            Slot { index: 0, dx: 0, dy: 0 },
            Slot { index: 1, dx: 0, dy: -30 },
            Slot { index: 2, dx: 0, dy: -80 },
        ]
    );
}

#[test]
fn right_and_left_slots() {
    let sizes = vec![(4, 1), (6, 1), (3, 1)];
    let r = flow_slots(Direction::Right, &sizes);
    assert_eq!(r.iter().map(|s| s.dx).collect::<Vec<_>>(), vec![0, 10, 19]);
    assert!(r.iter().all(|s| s.dy == 0));
    let l = flow_slots(Direction::Left, &sizes);
    assert_eq!(l.iter().map(|s| s.dx).collect::<Vec<_>>(), vec![0, -10, -19]);
}

#[test]
fn up_slots_count_upwards() {
    let u = flow_slots(Direction::Up, &vec![(1, 2), (1, 4)]);
    assert_eq!(u[1], Slot { index: 1, dx: 0, dy: 6 });
}

#[test]
fn inward_draws_back_to_front() {
    let sizes = vec![(1, 1), (2, 2), (3, 3)];
    let i = flow_slots(Direction::In, &sizes);
    assert_eq!(i.iter().map(|s| s.index).collect::<Vec<_>>(), vec![2, 1, 0]);
    assert!(i.iter().all(|s| s.dx == 0 && s.dy == 0));
    let o = flow_slots(Direction::Out, &sizes);
    assert_eq!(o.iter().map(|s| s.index).collect::<Vec<_>>(), vec![0, 1, 2]);
}

#[test]
fn resize_keeps_aspect_ratio() {
    assert_eq!(scale_dimension(50, 100, 30), 15);
    assert_eq!(scale_dimension(10, 3, 1), 3);
    assert_eq!(scale_dimension(40, 30, 45), 60);
}

#[test]
fn resize_rounds_halves_away_from_zero() {
    assert_eq!(scale_dimension(5, 2, 1), 3);
    assert_eq!(scale_dimension(-5, 2, 1), -3);
    assert_eq!(scale_dimension(5, -2, 1), -3);
    assert_eq!(scale_dimension(7, 4, 1), 2);
}

#[test]
fn resize_from_zero_extent_saturates() {
    assert_eq!(scale_dimension(5, 0, 3), i32::MAX);
    assert_eq!(scale_dimension(-5, 0, 3), i32::MIN);
    assert_eq!(scale_dimension(0, 0, 3), 0);
    assert_eq!(scale_dimension(5, 0, 0), 0);
}

#[test]
fn resize_saturates_large_results() {
    assert_eq!(scale_dimension(i32::MAX, 1, 2), i32::MAX);
    assert_eq!(scale_dimension(i32::MIN, 1, 2), i32::MIN);
}

#[test]
fn container_anchors() {
    assert_eq!(anchor_offset(Three::N, 100, 20, 10), -60);
    assert_eq!(anchor_offset(Three::Z, 100, 20, 10), 20);
    assert_eq!(anchor_offset(Three::P, 100, 20, 10), 60);
    assert_eq!(anchor_offset(Three::N, 100, 20, 0), -80);
    assert_eq!(anchor_offset(Three::Z, 101, 20, 0), 0);
}

#[test]
fn crop_clips_negative_corner() {
    let s = crop_scissor(-10, 5, 30, 20, None);
    assert_eq!(s, Scissor { x: 0, y: 5, w: 20, h: 20 });
    let gone = crop_scissor(-40, -1, 30, 1, None);
    assert_eq!(gone, Scissor { x: 0, y: 0, w: 0, h: 0 });
}

#[test]
fn crop_outside_active_scissor_is_empty() {
    let active = Scissor { x: 0, y: 0, w: 100, h: 100 };
    let s = crop_scissor(200, 10, 50, 50, Some(active));
    assert_eq!(s.w, 0);
    assert_eq!(s.h, 0);
    assert_eq!(s, Scissor { x: 200, y: 10, w: 0, h: 0 });
}

#[test]
fn crop_overlapping_active_scissor_is_intersection() {
    let active = Scissor { x: 10, y: 10, w: 100, h: 50 };
    let s = crop_scissor(50, 0, 100, 30, Some(active));
    assert_eq!(s, Scissor { x: 50, y: 10, w: 60, h: 20 });
}

#[test]
fn intersect_touching_edges_gives_zero_width() {
    let a = Scissor { x: 0, y: 0, w: 10, h: 10 };
    let b = Scissor { x: 10, y: 0, w: 10, h: 10 };
    assert_eq!(intersect(a, b), Scissor { x: 10, y: 0, w: 0, h: 10 });
}

#[test]
fn intersect_nested_is_inner() {
    let outer = Scissor { x: 0, y: 0, w: u32::MAX, h: u32::MAX };
    let inner = Scissor { x: 5, y: 6, w: 7, h: 8 };
    assert_eq!(intersect(inner, outer), inner);
    assert_eq!(intersect(outer, inner), inner);
}

#[test]
fn empty_scissor_is_not_visible() {
    let active = Scissor { x: 0, y: 0, w: 100, h: 100 };
    assert!(!crop_scissor(500, 500, 10, 10, Some(active)).is_visible());
    assert!(crop_scissor(5, 5, 10, 10, Some(active)).is_visible());
    assert!(!Scissor { x: 1, y: 1, w: 0, h: 9 }.is_visible());
}

#[test]
fn point_over_box_includes_edges() {
    assert!(point_over(10, 6, 0, 0));
    assert!(point_over(10, 6, 5, -3));
    assert!(!point_over(10, 6, 6, 0));
    assert!(!point_over(10, 6, 0, 4));
    assert!(point_over(11, 6, -5, 0));
    assert!(!point_over(0, 0, 1, 0));
}
