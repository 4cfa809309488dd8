//! Tests of the character state machine, the sprite naming, the draw
//! commands, and the composed per-callback tick.

use walk_the_dog::engine::{GameLoop, InputQueue, KeyPress, KeyState, Rect};
use walk_the_dog::game::{
    demo_frame, viewport, Cell, Event, Idle, RedHatBoy, RedHatBoyState, RedHatBoyStateMachine,
    Sheet, SheetRect, WalkTheDog, FLOOR, RUN_SPEED,
};

fn cell(x: u16, y: u16, w: u16, h: u16) -> Cell {
    Cell { frame: SheetRect { x, y, w, h } }
}

fn idle_machine() -> RedHatBoyStateMachine {
    RedHatBoyStateMachine::Idle(RedHatBoyState::<Idle>::new())
}

#[test]
fn new_state_starts_idle_at_the_origin() {
    let s = RedHatBoyState::<Idle>::new();
    assert_eq!(s.context.frame, 0);
    assert_eq!(s.context.position.x, 0);
    assert_eq!(s.context.position.y, FLOOR);
    assert_eq!(s.context.velocity.x, 0);
    assert_eq!(s.context.velocity.y, 0);
}

#[test]
fn idle_frame_wraps_after_a_full_cycle() {
    // Scenario: idle at frame 29 of a 30-tick cycle, one more update wraps
    // the counter to zero.
    let mut machine = idle_machine();
    for _ in 0..29 {
        machine = machine.update();
    }
    assert_eq!(machine.context().frame, 29);
    machine = machine.update();
    assert_eq!(machine.context().frame, 0);
    assert_eq!(machine.context().position.x, 0);
    assert_eq!(machine.context().position.y, FLOOR);
}

#[test]
fn run_event_resets_frame_and_raises_speed() {
    // Scenario: idle at frame 5 with zero velocity; a run event enters the
    // running state with frame 0, velocity (3, 0) and the position kept;
    // one update then moves to frame 1 and shifts the abscissa by 3.
    let mut machine = idle_machine();
    for _ in 0..5 {
        machine = machine.update();
    }
    assert_eq!(machine.context().frame, 5);
    machine = machine.transition(Event::Run);
    assert!(matches!(machine, RedHatBoyStateMachine::Running(_)));
    assert_eq!(machine.context().frame, 0);
    assert_eq!(machine.context().velocity.x, RUN_SPEED);
    assert_eq!(machine.context().velocity.y, 0);
    assert_eq!(machine.context().position.x, 0);
    assert_eq!(machine.context().position.y, FLOOR);
    machine = machine.update();
    assert_eq!(machine.context().frame, 1);
    assert_eq!(machine.context().position.x, RUN_SPEED);
}

#[test]
fn running_frame_wraps_and_names_the_first_sprite() {
    // Scenario: running at frame 23 of a 24-tick cycle; one update wraps to
    // frame 0, whose sprite name is "Run (1).png".
    let mut machine = idle_machine().transition(Event::Run);
    for _ in 0..23 {
        machine = machine.update();
    }
    assert_eq!(machine.context().frame, 23);
    machine = machine.update();
    assert_eq!(machine.context().frame, 0);
    assert_eq!(machine.sprite_name(), "Run (1).png");
}

#[test]
fn run_event_in_running_state_changes_nothing() {
    let mut machine = idle_machine().transition(Event::Run);
    machine = machine.update();
    let frame = machine.context().frame;
    let vx = machine.context().velocity.x;
    let x = machine.context().position.x;
    machine = machine.transition(Event::Run);
    assert!(matches!(machine, RedHatBoyStateMachine::Running(_)));
    assert_eq!(machine.context().frame, frame);
    assert_eq!(machine.context().velocity.x, vx);
    assert_eq!(machine.context().position.x, x);
}

#[test]
fn sprite_names_advance_every_three_ticks() {
    let mut machine = idle_machine();
    assert_eq!(machine.sprite_name(), "Idle (1).png");
    machine = machine.update();
    assert_eq!(machine.sprite_name(), "Idle (1).png");
    machine = machine.update();
    machine = machine.update();
    assert_eq!(machine.sprite_name(), "Idle (2).png");
    assert_eq!(machine.frame_name(), "Idle");
}

#[test]
fn sheet_lookup_finds_the_latest_entry() {
    let mut sheet = Sheet::new();
    sheet.insert("Idle (1).png".to_string(), cell(1, 2, 3, 4));
    sheet.insert("Run (1).png".to_string(), cell(5, 6, 7, 8));
    assert_eq!(sheet.get("Idle (1).png"), Some(cell(1, 2, 3, 4)));
    assert_eq!(sheet.get("Run (1).png"), Some(cell(5, 6, 7, 8)));
    assert_eq!(sheet.get("Run (2).png"), None);
    sheet.insert("Run (1).png".to_string(), cell(9, 9, 9, 9));
    assert_eq!(sheet.get("Run (1).png"), Some(cell(9, 9, 9, 9)));
}

#[test]
fn draw_command_blits_the_cell_at_the_position() {
    let mut sheet = Sheet::new();
    sheet.insert("Idle (1).png".to_string(), cell(10, 20, 30, 40));
    let boy = RedHatBoy::new(sheet);
    let cmd = boy.draw_command().expect("the idle cell is present");
    assert_eq!(cmd.source, Rect { x: 10, y: 20, w: 30, h: 40 });
    assert_eq!(cmd.dest, Rect { x: 0, y: FLOOR as i32, w: 30, h: 40 });
}

#[test]
fn draw_command_is_absent_without_the_cell() {
    let sheet = Sheet::new();
    let boy = RedHatBoy::new(sheet);
    assert_eq!(boy.draw_command(), None);
}

#[test]
fn walk_update_reacts_to_held_keys() {
    let mut sheet = Sheet::new();
    sheet.insert("Run (1).png".to_string(), cell(0, 0, 1, 1));
    let mut game = WalkTheDog { rhb: Some(RedHatBoy::new(sheet)) };
    let mut keys = KeyState::new();
    keys.set_pressed("ArrowRight");
    game.update(&keys);
    let boy = game.rhb.as_ref().unwrap();
    assert!(matches!(boy.state_machine, RedHatBoyStateMachine::Running(_)));
    assert_eq!(boy.state_machine.context().frame, 1);
    assert_eq!(boy.state_machine.context().position.x, RUN_SPEED);
}

#[test]
fn walk_update_resets_on_a_held_down_key() {
    let mut game = WalkTheDog { rhb: Some(RedHatBoy::new(Sheet::new())) };
    let mut keys = KeyState::new();
    keys.set_pressed("ArrowRight");
    game.update(&keys);
    game.update(&keys);
    keys.set_released("ArrowRight");
    keys.set_pressed("ArrowDown");
    game.update(&keys);
    let boy = game.rhb.as_ref().unwrap();
    assert!(matches!(boy.state_machine, RedHatBoyStateMachine::Idle(_)));
    assert_eq!(boy.state_machine.context().frame, 1);
    assert_eq!(boy.state_machine.context().position.x, 0);
    assert_eq!(boy.state_machine.context().velocity.x, 0);
}

#[test]
fn update_checked_reports_a_missing_character() {
    let mut game = WalkTheDog::new();
    let keys = KeyState::new();
    assert!(!game.update_checked(&keys));
    let mut game = WalkTheDog { rhb: Some(RedHatBoy::new(Sheet::new())) };
    assert!(game.update_checked(&keys));
}

#[test]
fn tick_drains_input_then_updates_per_banked_frame() {
    let mut gl = GameLoop::new(0);
    let mut queue = InputQueue::new();
    queue.push(KeyPress::KeyDown("ArrowRight".to_string()));
    let mut keys = KeyState::new();
    let mut game = WalkTheDog { rhb: Some(RedHatBoy::new(Sheet::new())) };
    let updates = gl
        .tick(2 * 16666 + 5, &mut queue, &mut keys, &mut game)
        .expect("both updates stay in range");
    assert_eq!(updates, 2);
    assert_eq!(gl.accumulated_delta, 5);
    assert!(keys.is_pressed("ArrowRight"));
    let boy = game.rhb.as_ref().unwrap();
    assert!(matches!(boy.state_machine, RedHatBoyStateMachine::Running(_)));
    assert_eq!(boy.state_machine.context().frame, 2);
    assert_eq!(boy.state_machine.context().position.x, 2 * RUN_SPEED);
}

#[test]
fn tick_with_a_missing_character_fails_only_when_updates_are_owed() {
    let mut gl = GameLoop::new(0);
    let mut queue = InputQueue::new();
    let mut keys = KeyState::new();
    let mut game = WalkTheDog::new();
    assert_eq!(gl.tick(100, &mut queue, &mut keys, &mut game), Ok(0));
    assert_eq!(gl.tick(100 + 20000, &mut queue, &mut keys, &mut game), Err(0));
}

#[test]
fn viewport_covers_the_square_stage() {
    assert_eq!(viewport(), Rect { x: 0, y: 0, w: 600, h: 600 });
}

#[test]
fn demo_frame_wraps_and_names_sprites() {
    let (f, name, x) = demo_frame(-1);
    assert_eq!(f, 0);
    assert_eq!(name, "Run (1).png");
    assert_eq!(x, 0);
    let (f, name, x) = demo_frame(7);
    assert_eq!(f, 8);
    assert_eq!(name, "Run (1).png");
    assert_eq!(x, 16);
    let (f, name, _) = demo_frame(8);
    assert_eq!(f, 9);
    assert_eq!(name, "Run (2).png");
    let (f, _, x) = demo_frame(299);
    assert_eq!(f, 0);
    assert_eq!(x, 0);
}
