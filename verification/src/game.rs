//! The character layer: the sprite sheet lookup table, the per-entity
//! animation context, the typed character states with their transition and
//! per-tick update rules, and the composition that drains input and advances
//! the machine a fixed number of times per host callback.

use vstd::prelude::*;
use vstd::string::*;
use vstd::pervasive::arbitrary;
use crate::engine::{apply_events, GameLoop, InputQueue, KeyState, Point, Rect, FRAME_SIZE};
use crate::text::{dec_digits, str_eq, u64_to_string};

verus! {

/// Vertical coordinate of the ground the character stands on.
pub const FLOOR: i16 = 475;

/// Horizontal speed gained when a run is triggered.
pub const RUN_SPEED: i16 = 3;

/// Ticks in one idle animation cycle.
pub const IDLE_FRAMES: u8 = 30;

/// Ticks in one running animation cycle.
pub const RUNNING_FRAMES: u8 = 24;

/// A source rectangle inside the shared atlas image.
#[derive(Clone, Copy, PartialEq, Eq, Structural, Debug)]
pub struct SheetRect {
    pub x: u16,
    pub y: u16,
    pub w: u16,
    pub h: u16,
}

/// One named atlas cell.
#[derive(Clone, Copy, PartialEq, Eq, Structural, Debug)]
pub struct Cell {
    pub frame: SheetRect,
}

/// The sprite atlas lookup table: frame names to cells. Built once during
/// initialization and read-only afterwards; a later entry for the same name
/// shadows an earlier one, as in the mapping document it is loaded from.
pub struct Sheet {
    frames: Vec<(String, Cell)>,
}

/// The mapping described by an entry list, later entries winning.
pub open spec fn sheet_map(s: Seq<(String, Cell)>) -> Map<Seq<char>, Cell>
    decreases s.len(),
{
    if s.len() == 0 {
        Map::empty()
    } else {
        sheet_map(s.drop_last()).insert(s.last().0@, s.last().1)
    }
}

proof fn lemma_sheet_map_found(s: Seq<(String, Cell)>, i: int)
    requires
        0 <= i < s.len(),
        forall|j: int| i < j < s.len() ==> s[j].0@ != s[i].0@,
    ensures
        sheet_map(s).contains_key(s[i].0@),
        sheet_map(s)[s[i].0@] == s[i].1,
    decreases s.len(),
{
    if i == s.len() - 1 {
    } else {
        let t = s.drop_last();
        assert(t[i] == s[i]);
        lemma_sheet_map_found(t, i);
    }
}

proof fn lemma_sheet_map_absent(s: Seq<(String, Cell)>, k: Seq<char>)
    requires
        forall|j: int| 0 <= j < s.len() ==> s[j].0@ != k,
    ensures
        !sheet_map(s).contains_key(k),
    decreases s.len(),
{
    if s.len() > 0 {
        lemma_sheet_map_absent(s.drop_last(), k);
    }
}

impl Sheet {
    /// The mapping from frame name to atlas cell.
    pub closed spec fn map(&self) -> Map<Seq<char>, Cell> {
        sheet_map(self.frames@)
    }

    /// An empty sheet.
    pub fn new() -> (s: Sheet)
        ensures
            s.map() == Map::<Seq<char>, Cell>::empty(),
    {
        let s = Sheet { frames: Vec::new() };
        proof {
            assert(s.frames@.len() == 0);
        }
        s
    }

    /// Adds one cell under `name`, shadowing any earlier entry for it.
    pub fn insert(&mut self, name: String, cell: Cell)
        ensures
            final(self).map() == old(self).map().insert(name@, cell),
    {
        self.frames.push((name, cell));
        proof {
            assert(self.frames@.drop_last() =~= old(self).frames@);
        }
    }

    /// Looks `name` up: the cell most recently inserted under it, if any.
    pub fn get(&self, name: &str) -> (r: Option<Cell>)
        ensures
            match r {
                Option::Some(c) => self.map().contains_key(name@) && c == self.map()[name@],
                Option::None => !self.map().contains_key(name@),
            },
    {
        let mut i = self.frames.len();
        while i > 0
            invariant
                0 <= i <= self.frames@.len(),
                forall|j: int| i <= j < self.frames@.len() ==> self.frames@[j].0@ != name@,
            decreases i,
        {
            i = i - 1;
            if str_eq(self.frames[i].0.as_str(), name) {
                proof {
                    lemma_sheet_map_found(self.frames@, i as int);
                }
                return Some(self.frames[i].1);
            }
        }
        proof {
            lemma_sheet_map_absent(self.frames@, name@);
        }
        None
    }
}

/// Per-entity animation bookkeeping: the tick counter within the current
/// animation cycle, the screen position, and the velocity added to the
/// position once per tick.
#[derive(Clone, Copy, PartialEq, Eq, Structural, Debug)]
pub struct RedHatBoyContext {
    pub frame: u8,
    pub position: Point,
    pub velocity: Point,
}

/// One tick applied to a context: the frame advances modulo the cycle length
/// and the velocity is added to the position componentwise.
pub open spec fn spec_ctx_update(c: RedHatBoyContext, frames: u8) -> RedHatBoyContext
    recommends
        frames > 0,
{
    RedHatBoyContext {
        frame: (((c.frame + 1) as int) % (frames as int)) as u8,
        position: Point {
            x: (c.position.x + c.velocity.x) as i16,
            y: (c.position.y + c.velocity.y) as i16,
        },
        velocity: c.velocity,
    }
}

impl RedHatBoyContext {
    /// Advances the context by one tick of a cycle `frames` ticks long.
    pub fn update(self, frames: u8) -> (r: Self)
        requires
            frames > 0,
            self.frame < frames,
            i16::MIN <= self.position.x + self.velocity.x <= i16::MAX,
            i16::MIN <= self.position.y + self.velocity.y <= i16::MAX,
        ensures
            r == spec_ctx_update(self, frames),
            r.frame < frames,
    {
        let mut s = self;
        s.frame = (s.frame + 1) % frames;
        s.position.x = s.position.x + s.velocity.x;
        s.position.y = s.position.y + s.velocity.y;
        s
    }

    /// Restarts the animation cycle, everything else unchanged.
    pub fn reset_frame(self) -> (r: Self)
        ensures
            r == (RedHatBoyContext { frame: 0, position: self.position, velocity: self.velocity }),
    {
        let mut s = self;
        s.frame = 0;
        s
    }

    /// Moves the entity back to the origin, everything else unchanged.
    pub fn reset_position(self) -> (r: Self)
        ensures
            r == (RedHatBoyContext {
                frame: self.frame,
                position: Point { x: 0, y: 0 },
                velocity: self.velocity,
            }),
    {
        let mut s = self;
        s.position.x = 0;
        s.position.y = 0;
        s
    }

    /// Raises the horizontal speed by `RUN_SPEED`.
    pub fn run_right(self) -> (r: Self)
        requires
            self.velocity.x + RUN_SPEED <= i16::MAX,
        ensures
            r == (RedHatBoyContext {
                frame: self.frame,
                position: self.position,
                velocity: Point { x: (self.velocity.x + RUN_SPEED) as i16, y: self.velocity.y },
            }),
    {
        let mut s = self;
        s.velocity.x = s.velocity.x + RUN_SPEED;
        s
    }
}

/// The context of a freshly created entity: cycle start, origin abscissa on
/// the floor, at rest.
pub open spec fn spec_initial_context() -> RedHatBoyContext {
    RedHatBoyContext {
        frame: 0,
        position: Point { x: 0, y: FLOOR },
        velocity: Point { x: 0, y: 0 },
    }
}

/// Marker for the idle state.
#[derive(Clone, Copy)]
pub struct Idle;

/// Marker for the running state.
#[derive(Clone, Copy)]
pub struct Running;

/// A character state tagged at the type level, wrapping the animation
/// context that every state shares.
#[derive(Clone, Copy)]
pub struct RedHatBoyState<T> {
    pub context: RedHatBoyContext,
    pub _state: T,
}

impl RedHatBoyState<Idle> {
    /// A fresh idle character.
    pub fn new() -> (s: Self)
        ensures
            s == (RedHatBoyState { context: spec_initial_context(), _state: Idle {  } }),
    {
        RedHatBoyState {
            context: RedHatBoyContext {
                frame: 0,
                position: Point { x: 0, y: FLOOR },
                velocity: Point { x: 0, y: 0 },
            },
            _state: Idle {  },
        }
    }

    /// Starts running: the cycle restarts at frame zero, the horizontal
    /// speed rises by `RUN_SPEED`, and the position is kept.
    pub fn run(self) -> (r: RedHatBoyState<Running>)
        requires
            self.context.velocity.x + RUN_SPEED <= i16::MAX,
        ensures
            r == (RedHatBoyState {
                context: RedHatBoyContext {
                    frame: 0,
                    position: self.context.position,
                    velocity: Point {
                        x: (self.context.velocity.x + RUN_SPEED) as i16,
                        y: self.context.velocity.y,
                    },
                },
                _state: Running {  },
            }),
    {
        RedHatBoyState { context: self.context.reset_frame().run_right(), _state: Running {  } }
    }

    /// The sprite label of the idle animation.
    pub fn frame_name(&self) -> (r: &'static str)
        ensures
            r@ == "Idle"@,
    {
        "Idle"
    }

    /// One idle tick: a cycle of `IDLE_FRAMES` ticks.
    pub fn update(&mut self)
        requires
            old(self).context.frame < IDLE_FRAMES,
            i16::MIN <= old(self).context.position.x + old(self).context.velocity.x <= i16::MAX,
            i16::MIN <= old(self).context.position.y + old(self).context.velocity.y <= i16::MAX,
        ensures
            final(self).context == spec_ctx_update(old(self).context, IDLE_FRAMES),
            final(self)._state == old(self)._state,
    {
        self.context = self.context.update(IDLE_FRAMES);
    }
}

impl RedHatBoyState<Running> {
    /// The sprite label of the running animation.
    pub fn frame_name(&self) -> (r: &'static str)
        ensures
            r@ == "Run"@,
    {
        "Run"
    }

    /// One running tick: a cycle of `RUNNING_FRAMES` ticks.
    pub fn update(&mut self)
        requires
            old(self).context.frame < RUNNING_FRAMES,
            i16::MIN <= old(self).context.position.x + old(self).context.velocity.x <= i16::MAX,
            i16::MIN <= old(self).context.position.y + old(self).context.velocity.y <= i16::MAX,
        ensures
            final(self).context == spec_ctx_update(old(self).context, RUNNING_FRAMES),
            final(self)._state == old(self)._state,
    {
        self.context = self.context.update(RUNNING_FRAMES);
    }
}

impl<S> RedHatBoyState<S> {
    /// The shared animation context.
    pub fn context(&self) -> (r: &RedHatBoyContext)
        ensures
            *r == self.context,
    {
        &self.context
    }
}

/// The semantic triggers produced by interpreting the key snapshot; only
/// "move right" maps to one today.
#[derive(Clone, Copy, PartialEq, Eq, Structural, Debug)]
pub enum Event {
    Run,
}

/// The closed set of character states, each wrapping its context.
#[derive(Clone, Copy)]
pub enum RedHatBoyStateMachine {
    Idle(RedHatBoyState<Idle>),
    Running(RedHatBoyState<Running>),
}

/// The animation cycle length of the active state.
pub open spec fn frames_of(m: RedHatBoyStateMachine) -> u8 {
    match m {
        RedHatBoyStateMachine::Idle(_) => IDLE_FRAMES,
        RedHatBoyStateMachine::Running(_) => RUNNING_FRAMES,
    }
}

/// The context wrapped by the active state.
pub open spec fn machine_context(m: RedHatBoyStateMachine) -> RedHatBoyContext {
    match m {
        RedHatBoyStateMachine::Idle(s) => s.context,
        RedHatBoyStateMachine::Running(s) => s.context,
    }
}

/// The frame counter never reaches the cycle length of the active state.
pub open spec fn machine_wf(m: RedHatBoyStateMachine) -> bool {
    machine_context(m).frame < frames_of(m)
}

/// The sprite label of the active state.
pub open spec fn spec_label(m: RedHatBoyStateMachine) -> Seq<char> {
    match m {
        RedHatBoyStateMachine::Idle(_) => "Idle"@,
        RedHatBoyStateMachine::Running(_) => "Run"@,
    }
}

/// The whole transition table: from idle, a run event enters the running
/// state with the frame reset and the horizontal speed raised by
/// `RUN_SPEED`; every other pairing leaves the machine unchanged.
pub open spec fn spec_transition(m: RedHatBoyStateMachine, event: Event) -> RedHatBoyStateMachine {
    match (m, event) {
        (RedHatBoyStateMachine::Idle(s), Event::Run) => RedHatBoyStateMachine::Running(
            RedHatBoyState {
                context: RedHatBoyContext {
                    frame: 0,
                    position: s.context.position,
                    velocity: Point {
                        x: (s.context.velocity.x + RUN_SPEED) as i16,
                        y: s.context.velocity.y,
                    },
                },
                _state: Running {  },
            },
        ),
        _ => m,
    }
}

/// One tick applied to the machine: the active state keeps its identity and
/// its context advances by one tick of that state's cycle.
pub open spec fn spec_machine_update(m: RedHatBoyStateMachine) -> RedHatBoyStateMachine {
    match m {
        RedHatBoyStateMachine::Idle(s) => RedHatBoyStateMachine::Idle(
            RedHatBoyState { context: spec_ctx_update(s.context, IDLE_FRAMES), _state: s._state },
        ),
        RedHatBoyStateMachine::Running(s) => RedHatBoyStateMachine::Running(
            RedHatBoyState {
                context: spec_ctx_update(s.context, RUNNING_FRAMES),
                _state: s._state,
            },
        ),
    }
}

impl From<RedHatBoyState<Running>> for RedHatBoyStateMachine {
    /// Wraps a running state into the machine.
    fn from(state: RedHatBoyState<Running>) -> (m: RedHatBoyStateMachine) {
        RedHatBoyStateMachine::Running(state)
    }
}

impl vstd::std_specs::convert::FromSpecImpl<RedHatBoyState<Running>> for RedHatBoyStateMachine {
    open spec fn obeys_from_spec() -> bool {
        true
    }

    open spec fn from_spec(state: RedHatBoyState<Running>) -> RedHatBoyStateMachine {
        RedHatBoyStateMachine::Running(state)
    }
}

impl RedHatBoyStateMachine {
    /// Applies one event according to the transition table.
    pub fn transition(self, event: Event) -> (r: Self)
        requires
            match self {
                RedHatBoyStateMachine::Idle(s) => s.context.velocity.x + RUN_SPEED <= i16::MAX,
                RedHatBoyStateMachine::Running(_) => true,
            },
        ensures
            r == spec_transition(self, event),
            machine_wf(self) ==> machine_wf(r),
    {
        match (self, event) {
            (RedHatBoyStateMachine::Idle(state), Event::Run) => RedHatBoyStateMachine::from(
                state.run(),
            ),
            _ => self,
        }
    }

    /// The sprite label of the active state.
    pub fn frame_name(&self) -> (r: &'static str)
        ensures
            r@ == spec_label(*self),
    {
        match self {
            RedHatBoyStateMachine::Idle(state) => state.frame_name(),
            RedHatBoyStateMachine::Running(state) => state.frame_name(),
        }
    }

    /// The context of the active state.
    pub fn context(&self) -> (r: &RedHatBoyContext)
        ensures
            *r == machine_context(*self),
    {
        match self {
            RedHatBoyStateMachine::Idle(state) => state.context(),
            RedHatBoyStateMachine::Running(state) => state.context(),
        }
    }

    /// Advances the active state by one tick.
    pub fn update(self) -> (r: Self)
        requires
            machine_wf(self),
            i16::MIN <= machine_context(self).position.x + machine_context(self).velocity.x
                <= i16::MAX,
            i16::MIN <= machine_context(self).position.y + machine_context(self).velocity.y
                <= i16::MAX,
        ensures
            r == spec_machine_update(self),
            machine_wf(r),
    {
        match self {
            RedHatBoyStateMachine::Idle(mut state) => {
                state.update();
                RedHatBoyStateMachine::Idle(state)
            },
            RedHatBoyStateMachine::Running(mut state) => {
                state.update();
                RedHatBoyStateMachine::Running(state)
            },
        }
    }
}

/// The context after `n` ticks with no intervening transition.
pub open spec fn spec_updates(c: RedHatBoyContext, frames: u8, n: nat) -> RedHatBoyContext
    decreases n,
{
    if n == 0 {
        c
    } else {
        spec_ctx_update(spec_updates(c, frames, (n - 1) as nat), frames)
    }
}

/// After `n` ticks with no intervening transition, the frame counter is the
/// starting counter plus `n`, modulo the cycle length.
pub proof fn lemma_frame_after_updates(c: RedHatBoyContext, frames: u8, n: nat)
    requires
        frames > 0,
        c.frame < frames,
    ensures
        spec_updates(c, frames, n).frame == (c.frame + n) % (frames as int),
    decreases n,
{
    if n == 0 {
        vstd::arithmetic::div_mod::lemma_small_mod(c.frame as nat, frames as nat);
    } else {
        lemma_frame_after_updates(c, frames, (n - 1) as nat);
        let a = c.frame + n - 1;
        let f = frames as int;
        vstd::arithmetic::div_mod::lemma_mod_bound(a, f);
        if (a % f) + 1 < f {
            vstd::arithmetic::div_mod::lemma_small_mod(((a % f) + 1) as nat, f as nat);
            vstd::arithmetic::div_mod::lemma_add_mod_noop(a, 1, f);
            vstd::arithmetic::div_mod::lemma_small_mod(1nat, f as nat);
        } else {
            // The counter wraps: a % f == f - 1, so a + 1 is a multiple of f.
            vstd::arithmetic::div_mod::lemma_add_mod_noop(a, 1, f);
            if f == 1 {
                vstd::arithmetic::div_mod::lemma_mod_self_0(f);
                vstd::arithmetic::div_mod::lemma_small_mod(0nat, 1nat);
            } else {
                vstd::arithmetic::div_mod::lemma_small_mod(1nat, f as nat);
                vstd::arithmetic::div_mod::lemma_mod_self_0(f);
            }
        }
    }
}

/// Whether `start + i * v` still fits in a 16-bit coordinate.
pub open spec fn offset_in_range(start: int, v: int, i: int) -> bool {
    i16::MIN <= start + i * v <= i16::MAX
}

/// With no intervening transition the velocity never changes, and after `n`
/// ticks the position is the starting position plus `n` times the velocity,
/// componentwise — provided no intermediate position leaves the coordinate
/// range.
pub proof fn lemma_position_after_updates(c: RedHatBoyContext, frames: u8, n: nat)
    requires
        frames > 0,
        forall|i: int|
            0 <= i <= n ==> #[trigger] offset_in_range(
                c.position.x as int,
                c.velocity.x as int,
                i,
            ),
        forall|i: int|
            0 <= i <= n ==> #[trigger] offset_in_range(
                c.position.y as int,
                c.velocity.y as int,
                i,
            ),
    ensures
        spec_updates(c, frames, n).velocity == c.velocity,
        spec_updates(c, frames, n).position.x == c.position.x + n * c.velocity.x,
        spec_updates(c, frames, n).position.y == c.position.y + n * c.velocity.y,
    decreases n,
{
    if n == 0 {
        assert(n * c.velocity.x == 0) by (nonlinear_arith)
            requires
                n == 0,
        ;
        assert(n * c.velocity.y == 0) by (nonlinear_arith)
            requires
                n == 0,
        ;
    } else {
        let m = (n - 1) as nat;
        lemma_position_after_updates(c, frames, m);
        assert(offset_in_range(c.position.x as int, c.velocity.x as int, m as int));
        assert(offset_in_range(c.position.x as int, c.velocity.x as int, n as int));
        assert(offset_in_range(c.position.y as int, c.velocity.y as int, m as int));
        assert(offset_in_range(c.position.y as int, c.velocity.y as int, n as int));
        assert(m * c.velocity.x + c.velocity.x == n * c.velocity.x) by (nonlinear_arith)
            requires
                m + 1 == n,
        ;
        assert(m * c.velocity.y + c.velocity.y == n * c.velocity.y) by (nonlinear_arith)
            requires
                m + 1 == n,
        ;
    }
}

/// Transition determinism: from idle, a run event always yields a running
/// state whose frame is zero and whose horizontal speed rose by exactly
/// `RUN_SPEED`, position unchanged; a run event in the running state and any
/// pairing without an event leave the machine exactly as it was.
pub proof fn lemma_transition_determinism(m: RedHatBoyStateMachine, event: Event)
    requires
        match m {
            RedHatBoyStateMachine::Idle(s) => s.context.velocity.x + RUN_SPEED <= i16::MAX,
            RedHatBoyStateMachine::Running(_) => true,
        },
    ensures
        match m {
            RedHatBoyStateMachine::Idle(s) => spec_transition(m, event) matches
                RedHatBoyStateMachine::Running(r) && r.context.frame == 0
                && r.context.velocity.x == s.context.velocity.x + RUN_SPEED
                && r.context.velocity.y == s.context.velocity.y && r.context.position
                == s.context.position,
            RedHatBoyStateMachine::Running(_) => spec_transition(m, event) == m,
        },
{
}

/// The machine after `n` ticks with no intervening transition.
pub open spec fn machine_updates(m: RedHatBoyStateMachine, n: nat) -> RedHatBoyStateMachine
    decreases n,
{
    if n == 0 {
        m
    } else {
        spec_machine_update(machine_updates(m, (n - 1) as nat))
    }
}

/// Ticks keep the active state's identity and advance the shared context
/// tick by tick with that state's cycle length.
pub proof fn lemma_machine_updates(m: RedHatBoyStateMachine, n: nat)
    ensures
        frames_of(machine_updates(m, n)) == frames_of(m),
        machine_context(machine_updates(m, n)) == spec_updates(
            machine_context(m),
            frames_of(m),
            n,
        ),
    decreases n,
{
    if n > 0 {
        lemma_machine_updates(m, (n - 1) as nat);
    }
}

/// For every state: after `n` ticks with no intervening transition, the
/// frame counter is the starting counter plus `n`, modulo that state's
/// cycle length.
pub proof fn lemma_machine_frame_cycle(m: RedHatBoyStateMachine, n: nat)
    requires
        machine_wf(m),
    ensures
        machine_context(machine_updates(m, n)).frame == (machine_context(m).frame + n) % (
        frames_of(m) as int),
{
    lemma_machine_updates(m, n);
    lemma_frame_after_updates(machine_context(m), frames_of(m), n);
}

/// For every state: with no intervening transition the velocity never
/// changes, and after `n` ticks the position is the starting position plus
/// `n` times the velocity, componentwise — provided no intermediate position
/// leaves the coordinate range.
pub proof fn lemma_machine_position_linear(m: RedHatBoyStateMachine, n: nat)
    requires
        forall|i: int|
            0 <= i <= n ==> #[trigger] offset_in_range(
                machine_context(m).position.x as int,
                machine_context(m).velocity.x as int,
                i,
            ),
        forall|i: int|
            0 <= i <= n ==> #[trigger] offset_in_range(
                machine_context(m).position.y as int,
                machine_context(m).velocity.y as int,
                i,
            ),
    ensures
        machine_context(machine_updates(m, n)).velocity == machine_context(m).velocity,
        machine_context(machine_updates(m, n)).position.x == machine_context(m).position.x + n
            * machine_context(m).velocity.x,
        machine_context(machine_updates(m, n)).position.y == machine_context(m).position.y + n
            * machine_context(m).velocity.y,
{
    lemma_machine_updates(m, n);
    lemma_position_after_updates(machine_context(m), frames_of(m), n);
}

/// The state machine of a freshly created or reset entity.
pub open spec fn spec_initial_machine() -> RedHatBoyStateMachine {
    RedHatBoyStateMachine::Idle(
        RedHatBoyState { context: spec_initial_context(), _state: Idle {  } },
    )
}

/// The atlas cell name for the current tick of `m`: the state label and the
/// one-based visual frame index — the tick counter divided by three, so the
/// visual animation runs at a third of the logic rate.
pub open spec fn spec_sprite_name(m: RedHatBoyStateMachine) -> Seq<char> {
    spec_label(m) + " ("@ + dec_digits(machine_context(m).frame as int / 3 + 1) + ").png"@
}

impl RedHatBoyStateMachine {
    /// Composes the atlas cell name for the current tick.
    pub fn sprite_name(&self) -> (s: String)
        ensures
            s@ == spec_sprite_name(*self),
    {
        let idx = self.context().frame / 3 + 1;
        let digits = u64_to_string(idx as u64);
        let mut s = String::from_str(self.frame_name());
        s.append(" (");
        s.append(digits.as_str());
        s.append(").png");
        proof {
            assert(s@ =~= spec_sprite_name(*self));
        }
        s
    }
}

/// One blit request: an atlas source rectangle and the destination rectangle
/// on the drawing surface, sized to match the cell.
#[derive(Clone, Copy, PartialEq, Eq, Structural, Debug)]
pub struct DrawCommand {
    pub source: Rect,
    pub dest: Rect,
}

/// The blit for a context and its atlas cell: the cell's rectangle as the
/// source, the entity position with the cell's size as the destination.
pub open spec fn spec_draw_command(c: RedHatBoyContext, cell: Cell) -> DrawCommand {
    DrawCommand {
        source: Rect {
            x: cell.frame.x as i32,
            y: cell.frame.y as i32,
            w: cell.frame.w as i32,
            h: cell.frame.h as i32,
        },
        dest: Rect {
            x: c.position.x as i32,
            y: c.position.y as i32,
            w: cell.frame.w as i32,
            h: cell.frame.h as i32,
        },
    }
}

/// The full region cleared before each draw.
pub fn viewport() -> (r: Rect)
    ensures
        r == (Rect { x: 0, y: 0, w: 600, h: 600 }),
{
    Rect { x: 0, y: 0, w: 600, h: 600 }
}

/// The animated character: its state machine and the sprite sheet its frames
/// are drawn from.
pub struct RedHatBoy {
    pub state_machine: RedHatBoyStateMachine,
    pub sprite_sheet: Sheet,
}

impl RedHatBoy {
    /// A fresh idle character drawing from `sheet`.
    pub fn new(sheet: Sheet) -> (b: RedHatBoy)
        ensures
            b.state_machine == spec_initial_machine(),
            b.sprite_sheet.map() == sheet.map(),
    {
        RedHatBoy {
            state_machine: RedHatBoyStateMachine::Idle(RedHatBoyState::new()),
            sprite_sheet: sheet,
        }
    }

    /// The blit for the current tick: present exactly when the sheet has a
    /// cell under the composed sprite name.
    pub fn draw_command(&self) -> (r: Option<DrawCommand>)
        ensures
            match r {
                Option::Some(cmd) => self.sprite_sheet.map().contains_key(
                    spec_sprite_name(self.state_machine),
                ) && cmd == spec_draw_command(
                    machine_context(self.state_machine),
                    self.sprite_sheet.map()[spec_sprite_name(self.state_machine)],
                ),
                Option::None => !self.sprite_sheet.map().contains_key(
                    spec_sprite_name(self.state_machine),
                ),
            },
    {
        let name = self.state_machine.sprite_name();
        match self.sprite_sheet.get(name.as_str()) {
            Some(cell) => {
                let c = self.state_machine.context();
                Some(
                    DrawCommand {
                        source: Rect {
                            x: cell.frame.x as i32,
                            y: cell.frame.y as i32,
                            w: cell.frame.w as i32,
                            h: cell.frame.h as i32,
                        },
                        dest: Rect {
                            x: c.position.x as i32,
                            y: c.position.y as i32,
                            w: cell.frame.w as i32,
                            h: cell.frame.h as i32,
                        },
                    },
                )
            },
            None => None,
        }
    }

    /// Advances the active state by one tick.
    pub fn update(&mut self)
        requires
            machine_wf(old(self).state_machine),
            i16::MIN <= machine_context(old(self).state_machine).position.x + machine_context(
                old(self).state_machine,
            ).velocity.x <= i16::MAX,
            i16::MIN <= machine_context(old(self).state_machine).position.y + machine_context(
                old(self).state_machine,
            ).velocity.y <= i16::MAX,
        ensures
            final(self).state_machine == spec_machine_update(old(self).state_machine),
            machine_wf(final(self).state_machine),
            final(self).sprite_sheet == old(self).sprite_sheet,
    {
        self.state_machine = self.state_machine.update();
    }

    /// Returns the entity to a fresh idle state, the sheet kept.
    pub fn reset(&mut self)
        ensures
            final(self).state_machine == spec_initial_machine(),
            final(self).sprite_sheet == old(self).sprite_sheet,
    {
        self.state_machine = RedHatBoyStateMachine::Idle(RedHatBoyState::new());
    }

    /// Feeds a run event to the state machine.
    pub fn run_right(&mut self)
        requires
            match old(self).state_machine {
                RedHatBoyStateMachine::Idle(s) => s.context.velocity.x + RUN_SPEED <= i16::MAX,
                RedHatBoyStateMachine::Running(_) => true,
            },
        ensures
            final(self).state_machine == spec_transition(old(self).state_machine, Event::Run),
            final(self).sprite_sheet == old(self).sprite_sheet,
    {
        self.state_machine = self.state_machine.transition(Event::Run);
    }
}

/// The composed game: the character, once assets have produced it.
pub struct WalkTheDog {
    pub rhb: Option<RedHatBoy>,
}

/// The state machine of the game's character; meaningful only when the
/// character is present.
pub open spec fn spec_boy(w: WalkTheDog) -> RedHatBoyStateMachine {
    match w.rhb {
        Option::Some(b) => b.state_machine,
        Option::None => arbitrary(),
    }
}

/// The sheet mapping of the game's character; meaningful only when the
/// character is present.
pub open spec fn spec_boy_sheet(w: WalkTheDog) -> Map<Seq<char>, Cell> {
    match w.rhb {
        Option::Some(b) => b.sprite_sheet.map(),
        Option::None => arbitrary(),
    }
}

/// The machine after the held keys are interpreted: a held "down" key resets
/// the entity outright, then a held "move right" key feeds a run event.
pub open spec fn spec_input_applied(m: RedHatBoyStateMachine, down: bool, right: bool) -> RedHatBoyStateMachine {
    let m1 = if down {
        spec_initial_machine()
    } else {
        m
    };
    if right {
        spec_transition(m1, Event::Run)
    } else {
        m1
    }
}

/// One whole logic update: interpret the held keys, then advance one tick.
pub open spec fn spec_walk_update(m: RedHatBoyStateMachine, down: bool, right: bool) -> RedHatBoyStateMachine {
    spec_machine_update(spec_input_applied(m, down, right))
}

/// Whether one whole logic update stays within the machine limits: the
/// machine is well formed, a triggered run does not overflow the horizontal
/// speed, and the moved position stays in coordinate range.
pub open spec fn walk_update_safe(m: RedHatBoyStateMachine, down: bool, right: bool) -> bool {
    let m1 = if down {
        spec_initial_machine()
    } else {
        m
    };
    let ok_transition = match m1 {
        RedHatBoyStateMachine::Idle(s) => s.context.velocity.x + RUN_SPEED <= i16::MAX,
        RedHatBoyStateMachine::Running(_) => true,
    };
    let m2 = if right {
        spec_transition(m1, Event::Run)
    } else {
        m1
    };
    let c = machine_context(m2);
    &&& machine_wf(m1)
    &&& (right ==> ok_transition)
    &&& i16::MIN <= c.position.x + c.velocity.x <= i16::MAX
    &&& i16::MIN <= c.position.y + c.velocity.y <= i16::MAX
}

impl WalkTheDog {
    /// A game whose assets have not arrived yet.
    pub fn new() -> (g: WalkTheDog)
        ensures
            g.rhb is None,
    {
        WalkTheDog { rhb: None }
    }

    /// One logic update against the current key snapshot: a held "down" key
    /// resets the entity, a held "move right" key feeds a run event, and the
    /// machine then advances one tick.
    pub fn update(&mut self, key_state: &KeyState)
        requires
            old(self).rhb is Some,
            walk_update_safe(
                spec_boy(*old(self)),
                key_state.key_set().contains("ArrowDown"@),
                key_state.key_set().contains("ArrowRight"@),
            ),
        ensures
            final(self).rhb is Some,
            spec_boy(*final(self)) == spec_walk_update(
                spec_boy(*old(self)),
                key_state.key_set().contains("ArrowDown"@),
                key_state.key_set().contains("ArrowRight"@),
            ),
            machine_wf(spec_boy(*final(self))),
            spec_boy_sheet(*final(self)) == spec_boy_sheet(*old(self)),
    {
        let down = key_state.is_down();
        let right = key_state.is_right();
        match &mut self.rhb {
            Some(b) => {
                if down {
                    b.reset();
                }
                if right {
                    b.run_right();
                }
                b.update();
            },
            None => {
                proof {
                    assert(false);
                }
            },
        }
    }

    /// Tests the machine limits first and updates only when they hold,
    /// reporting whether the update ran; the state is untouched otherwise.
    pub fn update_checked(&mut self, key_state: &KeyState) -> (ok: bool)
        ensures
            ok == (old(self).rhb is Some && walk_update_safe(
                spec_boy(*old(self)),
                key_state.key_set().contains("ArrowDown"@),
                key_state.key_set().contains("ArrowRight"@),
            )),
            ok ==> final(self).rhb is Some && spec_boy(*final(self)) == spec_walk_update(
                spec_boy(*old(self)),
                key_state.key_set().contains("ArrowDown"@),
                key_state.key_set().contains("ArrowRight"@),
            ) && machine_wf(spec_boy(*final(self))) && spec_boy_sheet(*final(self))
                == spec_boy_sheet(*old(self)),
            !ok ==> *final(self) == *old(self),
    {
        let down = key_state.is_down();
        let right = key_state.is_right();
        let m0: RedHatBoyStateMachine;
        match &self.rhb {
            Some(b) => {
                m0 = b.state_machine;
            },
            None => {
                return false;
            },
        }
        let m1 = if down {
            RedHatBoyStateMachine::Idle(RedHatBoyState::new())
        } else {
            m0
        };
        let frames1: u8 = match &m1 {
            RedHatBoyStateMachine::Idle(_) => IDLE_FRAMES,
            RedHatBoyStateMachine::Running(_) => RUNNING_FRAMES,
        };
        if m1.context().frame >= frames1 {
            return false;
        }
        let transition_fits: bool = match &m1 {
            RedHatBoyStateMachine::Idle(s) => s.context.velocity.x <= i16::MAX - RUN_SPEED,
            RedHatBoyStateMachine::Running(_) => true,
        };
        if right && !transition_fits {
            return false;
        }
        let m2 = if right {
            m1.transition(Event::Run)
        } else {
            m1
        };
        let c = *m2.context();
        let nx: i32 = c.position.x as i32 + c.velocity.x as i32;
        let ny: i32 = c.position.y as i32 + c.velocity.y as i32;
        if nx < i16::MIN as i32 || nx > i16::MAX as i32 || ny < i16::MIN as i32 || ny
            > i16::MAX as i32 {
            return false;
        }
        proof {
            assert(walk_update_safe(spec_boy(*self), down, right));
        }
        self.update(key_state);
        true
    }

    /// The blit for the current tick: absent when no character exists or the
    /// sheet lacks the composed sprite name.
    pub fn draw_command(&self) -> (r: Option<DrawCommand>)
        ensures
            match self.rhb {
                Option::None => r is None,
                Option::Some(b) => match r {
                    Option::Some(cmd) => b.sprite_sheet.map().contains_key(
                        spec_sprite_name(b.state_machine),
                    ) && cmd == spec_draw_command(
                        machine_context(b.state_machine),
                        b.sprite_sheet.map()[spec_sprite_name(b.state_machine)],
                    ),
                    Option::None => !b.sprite_sheet.map().contains_key(
                        spec_sprite_name(b.state_machine),
                    ),
                },
            },
    {
        match &self.rhb {
            None => None,
            Some(b) => b.draw_command(),
        }
    }
}

/// The machine after `n` whole logic updates against one held-key snapshot.
pub open spec fn walk_updates(m: RedHatBoyStateMachine, down: bool, right: bool, n: nat) -> RedHatBoyStateMachine
    decreases n,
{
    if n == 0 {
        m
    } else {
        spec_walk_update(walk_updates(m, down, right, (n - 1) as nat), down, right)
    }
}

impl GameLoop {
    /// One host callback: drains the queued key events into the snapshot,
    /// banks the elapsed time, and runs one whole logic update per banked
    /// `FRAME_SIZE`. Succeeds with the update count, or reports the index of
    /// the first update that would leave the machine limits — or zero when
    /// updates are owed and no character exists — leaving the game at the
    /// last sound state.
    pub fn tick(&mut self, now: u64, queue: &mut InputQueue, keys: &mut KeyState, game: &mut WalkTheDog) -> (r: Result<u64, u64>)
        requires
            old(keys).wf(),
            old(self).last_frame <= now,
            old(self).accumulated_delta + (now - old(self).last_frame) <= u64::MAX,
        ensures
            final(keys).wf(),
            final(keys).key_set() == apply_events(old(keys).key_set(), old(queue).events()),
            final(queue).events().len() == 0,
            final(self).last_frame == now,
            final(self).accumulated_delta == (old(self).accumulated_delta + (now - old(
                self,
            ).last_frame)) as int % (FRAME_SIZE as int),
            ({
                let n = (old(self).accumulated_delta + (now - old(self).last_frame)) as int / (
                FRAME_SIZE as int);
                let ks = apply_events(old(keys).key_set(), old(queue).events());
                let down = ks.contains("ArrowDown"@);
                let right = ks.contains("ArrowRight"@);
                let boy0 = spec_boy(*old(game));
                match r {
                    Result::Ok(k) => {
                        &&& k == n
                        &&& (forall|j: int|
                            0 <= j < n ==> #[trigger] walk_update_safe(
                                walk_updates(boy0, down, right, j as nat),
                                down,
                                right,
                            ))
                        &&& (n == 0 ==> *final(game) == *old(game))
                        &&& (n > 0 ==> old(game).rhb is Some && final(game).rhb is Some
                            && spec_boy(*final(game)) == walk_updates(boy0, down, right, n as nat)
                            && machine_wf(spec_boy(*final(game))) && spec_boy_sheet(*final(game))
                            == spec_boy_sheet(*old(game)))
                    },
                    Result::Err(j) => {
                        &&& j < n
                        &&& (forall|i: int|
                            0 <= i < j ==> #[trigger] walk_update_safe(
                                walk_updates(boy0, down, right, i as nat),
                                down,
                                right,
                            ))
                        &&& if old(game).rhb is None {
                            j == 0 && *final(game) == *old(game)
                        } else {
                            &&& final(game).rhb is Some
                            &&& spec_boy(*final(game)) == walk_updates(
                                boy0,
                                down,
                                right,
                                j as nat,
                            )
                            &&& !walk_update_safe(
                                walk_updates(boy0, down, right, j as nat),
                                down,
                                right,
                            )
                            &&& spec_boy_sheet(*final(game)) == spec_boy_sheet(*old(game))
                        }
                    },
                }
            }),
    {
        queue.drain(keys);
        let updates = self.step(now);
        let ghost ks = keys.key_set();
        let ghost down = ks.contains("ArrowDown"@);
        let ghost right = ks.contains("ArrowRight"@);
        let ghost boy0 = spec_boy(*game);
        let ghost g0 = *game;
        let mut i: u64 = 0;
        while i < updates
            invariant
                0 <= i <= updates,
                keys.wf(),
                keys.key_set() == ks,
                ks == apply_events(old(keys).key_set(), old(queue).events()),
                queue.events().len() == 0,
                self.last_frame == now,
                self.accumulated_delta == (old(self).accumulated_delta + (now - old(
                    self,
                ).last_frame)) as int % (FRAME_SIZE as int),
                updates == (old(self).accumulated_delta + (now - old(self).last_frame)) as int / (
                FRAME_SIZE as int),
                down == ks.contains("ArrowDown"@),
                right == ks.contains("ArrowRight"@),
                g0 == *old(game),
                boy0 == spec_boy(g0),
                i == 0 ==> *game == g0,
                forall|j: int|
                    0 <= j < i ==> #[trigger] walk_update_safe(
                        walk_updates(boy0, down, right, j as nat),
                        down,
                        right,
                    ),
                if g0.rhb is None {
                    i == 0 && *game == g0
                } else {
                    &&& game.rhb is Some
                    &&& spec_boy(*game) == walk_updates(boy0, down, right, i as nat)
                    &&& (i > 0 ==> machine_wf(spec_boy(*game)))
                    &&& spec_boy_sheet(*game) == spec_boy_sheet(g0)
                },
            decreases updates - i,
        {
            if !game.update_checked(keys) {
                return Err(i);
            }
            proof {
                assert(walk_update_safe(walk_updates(boy0, down, right, i as nat), down, right));
                assert(walk_updates(boy0, down, right, (i + 1) as nat) == spec_walk_update(
                    walk_updates(boy0, down, right, i as nat),
                    down,
                    right,
                ));
            }
            i = i + 1;
        }
        Ok(updates)
    }
}

/// One step of the title-screen demo animation: the advanced wrap-around
/// counter, the sprite name to show for it, and the destination abscissa.
pub fn demo_frame(frame: i32) -> (r: (i32, String, i32))
    requires
        -1 <= frame < 300,
    ensures
        r.0 == (frame + 1) % 300,
        r.1@ == "Run ("@ + dec_digits(r.0 % 8 + 1) + ").png"@,
        r.2 == (r.0 * 2) % 600,
{
    let f = (frame + 1) % 300;
    let digits = u64_to_string((f % 8 + 1) as u64);
    let mut name = String::from_str("Run (");
    name.append(digits.as_str());
    name.append(").png");
    let x = (f * 2) % 600;
    proof {
        assert(name@ =~= "Run ("@ + dec_digits(f % 8 + 1) + ").png"@);
    }
    (f, name, x)
}

} // verus!
