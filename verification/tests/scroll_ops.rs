use novel_reader::scroll::{ScrollOp, ScrollState};

#[test]
fn page_down_clamps_at_bottom() {
    // Viewport height 20 over a virtual height of 100: page-down steps
    // 0 -> 20 -> 40 -> 60 -> 80, the last clamped from a naive 100.
    let mut s = ScrollState::new(100, 80, 20);
    s.apply(ScrollOp::PageDown);
    assert_eq!(s.offset, 20);
    s.apply(ScrollOp::PageDown);
    s.apply(ScrollOp::PageDown);
    s.apply(ScrollOp::PageDown);
    assert_eq!(s.offset, 80);
    s.apply(ScrollOp::PageDown);
    assert_eq!(s.offset, 80);
}

#[test]
fn top_is_floor() {
    let mut s = ScrollState::new(100, 80, 20);
    s.apply(ScrollOp::PageDown);
    s.apply(ScrollOp::ToTop);
    assert_eq!(s.offset, 0);
    for _ in 0..5 {
        s.apply(ScrollOp::UnitUp);
        assert_eq!(s.offset, 0);
    }
}

#[test]
fn bottom_is_ceiling() {
    let mut s = ScrollState::new(100, 80, 20);
    s.apply(ScrollOp::ToBottom);
    assert_eq!(s.offset, 80);
    for _ in 0..5 {
        s.apply(ScrollOp::UnitDown);
        assert_eq!(s.offset, 80);
    }
}

#[test]
fn unit_steps_move_by_one() {
    let mut s = ScrollState::new(100, 80, 20);
    s.apply(ScrollOp::UnitDown);
    s.apply(ScrollOp::UnitDown);
    assert_eq!(s.offset, 2);
    s.apply(ScrollOp::UnitUp);
    assert_eq!(s.offset, 1);
}

#[test]
fn every_operation_stays_in_range() {
    let ops = [
        ScrollOp::UnitDown,
        ScrollOp::PageDown,
        ScrollOp::ToBottom,
        ScrollOp::UnitUp,
        ScrollOp::PageUp,
        ScrollOp::ToTop,
        ScrollOp::PageUp,
        ScrollOp::UnitUp,
    ];
    let mut s = ScrollState::new(100, 80, 30);
    for op in ops {
        s.apply(op);
        assert!(s.offset <= 70);
    }
}

#[test]
fn viewport_taller_than_canvas_pins_offset_to_zero() {
    let mut s = ScrollState::new(100, 80, 200);
    s.apply(ScrollOp::ToBottom);
    assert_eq!(s.offset, 0);
    s.apply(ScrollOp::PageDown);
    assert_eq!(s.offset, 0);
}

#[test]
fn resize_reclamps_offset() {
    let mut s = ScrollState::new(100, 80, 20);
    s.apply(ScrollOp::ToBottom);
    assert_eq!(s.offset, 80);
    s.set_viewport(80, 60);
    assert_eq!(s.offset, 40);
    s.set_viewport(80, 10);
    assert_eq!(s.offset, 40);
}
