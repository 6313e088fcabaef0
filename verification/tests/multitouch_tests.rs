use app_web::input::{
    DownAction, DragPhase, ReleaseAction, TouchGestureKind, TouchTracker, UpAction,
    MAX_TOUCH_POINTS,
};

// ────────────────── TouchGestureKind ──────────────────

#[test]
fn gesture_kind_default_is_none() {
    assert_eq!(TouchGestureKind::default(), TouchGestureKind::Idle);
}

#[test]
fn gesture_kinds_are_distinct() {
    let kinds = [TouchGestureKind::Idle, TouchGestureKind::PerformanceSurface];
    for (i, a) in kinds.iter().enumerate() {
        for (j, b) in kinds.iter().enumerate() {
            if i == j {
                assert_eq!(a, b);
            } else {
                assert_ne!(a, b);
            }
        }
    }
}

// ────────────────── TouchTracker ──────────────────

#[test]
fn tracker_starts_empty() {
    let t = TouchTracker::new();
    assert_eq!(t.len(), 0);
    assert_eq!(t.gesture_kind(), TouchGestureKind::Idle);
    assert_eq!(t.peak_pointer_count(), 0);
    assert_eq!(t.lowest_two(), None);
}

#[test]
fn tracker_pointer_add_remove() {
    let mut t = TouchTracker::new();
    assert_eq!(t.pointer_down(1), DownAction::SinglePointer);
    assert_eq!(t.len(), 1);
    assert_eq!(t.pointer_down(2), DownAction::SurfaceStarted);
    assert_eq!(t.len(), 2);
    assert_eq!(t.pointer_up(1), UpAction::SurfaceEnded);
    assert_eq!(t.len(), 1);
    assert!(t.contains(2));
    assert!(!t.contains(1));
    assert_eq!(t.gesture_kind(), TouchGestureKind::Idle);
}

#[test]
fn tracker_repeated_down_is_idempotent() {
    let mut t = TouchTracker::new();
    t.pointer_down(7);
    t.pointer_down(7);
    assert_eq!(t.len(), 1);
    assert_eq!(t.gesture_kind(), TouchGestureKind::Idle);
}

#[test]
fn tracker_surface_lifecycle() {
    let mut t = TouchTracker::new();
    t.pointer_down(10);
    assert_eq!(t.pointer_down(20), DownAction::SurfaceStarted);
    assert_eq!(t.pointer_down(30), DownAction::SurfaceContinued);
    assert_eq!(t.peak_pointer_count(), 3);
    assert_eq!(t.pointer_up(20), UpAction::SurfaceRebased);
    assert_eq!(t.gesture_kind(), TouchGestureKind::PerformanceSurface);
    assert_eq!(t.peak_pointer_count(), 3);
    assert_eq!(t.pointer_up(10), UpAction::SurfaceEnded);
    assert_eq!(t.gesture_kind(), TouchGestureKind::Idle);
    assert_eq!(t.peak_pointer_count(), 0);
    assert_eq!(t.pointer_up(30), UpAction::SinglePointer);
    assert_eq!(t.len(), 0);
}

#[test]
fn tracker_last_lift_ends_surface() {
    let mut t = TouchTracker::new();
    t.pointer_down(1);
    t.pointer_down(2);
    // A cancel leaves one pointer and resets the gesture; re-adding restarts it.
    t.pointer_cancel(2);
    assert_eq!(t.gesture_kind(), TouchGestureKind::Idle);
    t.pointer_down(3);
    assert_eq!(t.gesture_kind(), TouchGestureKind::PerformanceSurface);
    t.pointer_cancel(99);
    assert_eq!(t.gesture_kind(), TouchGestureKind::PerformanceSurface);
    assert_eq!(t.len(), 2);
}

#[test]
fn tracker_cancel_below_two_resets_surface() {
    let mut t = TouchTracker::new();
    t.pointer_down(4);
    t.pointer_down(5);
    t.pointer_down(6);
    assert_eq!(t.pointer_up(4), UpAction::SurfaceRebased);
    t.pointer_cancel(5);
    assert_eq!(t.gesture_kind(), TouchGestureKind::Idle);
    assert_eq!(t.len(), 1);
    assert_eq!(t.pointer_up(6), UpAction::SinglePointer);
}

#[test]
fn tracker_surface_ends_once_then_last_finger_is_single() {
    let mut t = TouchTracker::new();
    t.pointer_down(1);
    t.pointer_down(2);
    assert_eq!(t.pointer_up(2), UpAction::SurfaceEnded);
    assert_eq!(t.gesture_kind(), TouchGestureKind::Idle);
    assert_eq!(t.pointer_up(1), UpAction::SinglePointer);
    assert_eq!(t.len(), 0);
}

#[test]
fn tracker_reset_keeps_pointers() {
    let mut t = TouchTracker::new();
    t.pointer_down(1);
    t.pointer_down(2);
    t.reset_gesture();
    assert_eq!(t.len(), 2, "pointers survive a reset");
    assert_eq!(t.gesture_kind(), TouchGestureKind::Idle);
    assert_eq!(t.peak_pointer_count(), 0);
}

#[test]
fn down_then_up_restores_the_pointer_set() {
    let mut t = TouchTracker::new();
    t.pointer_down(3);
    t.pointer_down(9);
    let before = t.sorted_ids(10);
    t.pointer_down(5);
    t.pointer_up(5);
    assert_eq!(t.sorted_ids(10), before);
}

#[test]
fn sorted_ids_are_ascending_and_capped() {
    let mut t = TouchTracker::new();
    for id in [20, 10, 15, 3, 8, 42, 1, 30] {
        t.pointer_down(id);
    }
    assert_eq!(t.sorted_ids(MAX_TOUCH_POINTS), vec![1, 3, 8, 10, 15]);
    assert_eq!(t.sorted_ids(100), vec![1, 3, 8, 10, 15, 20, 30, 42]);
    assert_eq!(t.sorted_ids(0), Vec::<i32>::new());
    assert_eq!(t.lowest_two(), Some((1, 3)));
    assert_eq!(MAX_TOUCH_POINTS, 5);
}

#[test]
fn lowest_two_uses_ids_not_arrival_order() {
    let mut t = TouchTracker::new();
    t.pointer_down(-4);
    assert_eq!(t.lowest_two(), None);
    t.pointer_down(-9);
    assert_eq!(t.lowest_two(), Some((-9, -4)));
}

// ────────────────── DragPhase ──────────────────

#[test]
fn tap_without_travel_is_a_flare() {
    let mut d = DragPhase::idle();
    d.arm();
    assert!(!d.on_move(false));
    assert_eq!(d.release(false), ReleaseAction::Flare);
    assert!(!d.pending && !d.active);
}

#[test]
fn drag_past_threshold_is_a_carve() {
    let mut d = DragPhase::idle();
    d.arm();
    assert!(d.on_move(true));
    assert!(!d.on_move(true), "a drag starts only once");
    assert_eq!(
        d.release(false),
        ReleaseAction::CarveDrop {
            started_on_release: false
        }
    );
}

#[test]
fn drag_crossing_threshold_on_release() {
    let mut d = DragPhase::idle();
    d.arm();
    assert_eq!(
        d.release(true),
        ReleaseAction::CarveDrop {
            started_on_release: true
        }
    );
}

#[test]
fn release_without_press_does_nothing() {
    let mut d = DragPhase::idle();
    assert!(!d.on_move(true));
    assert_eq!(d.release(true), ReleaseAction::NoGesture);
    d.arm();
    d.cancel();
    assert_eq!(d.release(true), ReleaseAction::NoGesture);
}
