//! Tests of the key snapshot, the event queue, and the fixed-timestep
//! accounting.

use walk_the_dog::engine::{GameLoop, InputQueue, KeyPress, KeyState, Point, FRAME_SIZE};

#[test]
fn key_state_starts_empty() {
    let keys = KeyState::new();
    assert!(!keys.is_pressed("ArrowRight"));
    assert!(!keys.is_down());
    assert!(!keys.is_up());
    assert!(!keys.is_left());
    assert!(!keys.is_right());
}

#[test]
fn key_state_tracks_presses() {
    let mut keys = KeyState::new();
    keys.set_pressed("ArrowRight");
    assert!(keys.is_pressed("ArrowRight"));
    assert!(keys.is_right());
    assert!(!keys.is_pressed("ArrowLeft"));
    keys.set_pressed("ArrowRight");
    keys.set_pressed("ArrowDown");
    assert!(keys.is_down());
    keys.set_released("ArrowRight");
    assert!(!keys.is_pressed("ArrowRight"));
    assert!(keys.is_pressed("ArrowDown"));
    keys.set_released("ArrowDown");
    assert!(!keys.is_pressed("ArrowDown"));
}

#[test]
fn releasing_an_unknown_key_changes_nothing() {
    let mut keys = KeyState::new();
    keys.set_pressed("KeyA");
    keys.set_released("KeyB");
    assert!(keys.is_pressed("KeyA"));
    assert!(!keys.is_pressed("KeyB"));
}

#[test]
fn drain_applies_events_in_order() {
    let mut keys = KeyState::new();
    let mut queue = InputQueue::new();
    queue.push(KeyPress::KeyDown("ArrowRight".to_string()));
    queue.push(KeyPress::KeyUp("ArrowRight".to_string()));
    queue.push(KeyPress::KeyDown("ArrowRight".to_string()));
    queue.drain(&mut keys);
    assert!(keys.is_pressed("ArrowRight"));
}

#[test]
fn drain_ends_with_released_key() {
    let mut keys = KeyState::new();
    let mut queue = InputQueue::new();
    queue.push(KeyPress::KeyDown("ArrowDown".to_string()));
    queue.push(KeyPress::KeyUp("ArrowDown".to_string()));
    queue.drain(&mut keys);
    assert!(!keys.is_pressed("ArrowDown"));
}

#[test]
fn drain_on_empty_queue_is_idempotent() {
    let mut keys = KeyState::new();
    keys.set_pressed("ArrowRight");
    keys.set_pressed("KeyZ");
    let mut queue = InputQueue::new();
    queue.drain(&mut keys);
    assert!(keys.is_pressed("ArrowRight"));
    assert!(keys.is_pressed("KeyZ"));
    assert!(!keys.is_pressed("ArrowDown"));
    queue.drain(&mut keys);
    assert!(keys.is_pressed("ArrowRight"));
    assert!(keys.is_pressed("KeyZ"));
    assert!(!keys.is_pressed("ArrowDown"));
}

#[test]
fn step_counts_whole_frames_and_keeps_the_remainder() {
    // FRAME_SIZE is 16666 microseconds.
    assert_eq!(FRAME_SIZE, 16666);
    let mut gl = GameLoop::new(0);
    let updates = gl.step(50000);
    assert_eq!(updates, 3);
    assert_eq!(gl.accumulated_delta, 50000 - 3 * FRAME_SIZE);
    assert_eq!(gl.last_frame, 50000);
    // The banked remainder of 2 plus 16664 new microseconds is exactly one
    // more frame.
    let updates = gl.step(50000 + 16664);
    assert_eq!(updates, 1);
    assert_eq!(gl.accumulated_delta, 0);
}

#[test]
fn step_with_no_elapsed_time_runs_nothing() {
    let mut gl = GameLoop::new(1234);
    let updates = gl.step(1234);
    assert_eq!(updates, 0);
    assert_eq!(gl.accumulated_delta, 0);
    let updates = gl.step(1234 + 16665);
    assert_eq!(updates, 0);
    assert_eq!(gl.accumulated_delta, 16665);
}

#[test]
fn point_zero_is_the_origin() {
    let p = Point::zero();
    assert_eq!(p.x, 0);
    assert_eq!(p.y, 0);
}
