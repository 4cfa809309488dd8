//! Engine layer: geometry types, the pressed-key snapshot, the queue of raw
//! key events drained once per host callback, and the fixed-timestep
//! accounting of the game loop.

use vstd::prelude::*;
use vstd::string::*;
use crate::text::str_eq;
use std::collections::VecDeque;

verus! {

/// An integer screen/world coordinate pair, used both for positions and for
/// velocities.
#[derive(Clone, Copy, PartialEq, Eq, Structural, Debug)]
pub struct Point {
    pub x: i16,
    pub y: i16,
}

impl Point {
    /// The origin, also the zero velocity.
    pub fn zero() -> (p: Point)
        ensures
            p.x == 0,
            p.y == 0,
    {
        Point { x: 0, y: 0 }
    }
}

/// An axis-aligned rectangle: both a source cell in the sprite atlas and a
/// destination region on the drawing surface. Width and height are never
/// negative in any rectangle this crate builds.
#[derive(Clone, Copy, PartialEq, Eq, Structural, Debug)]
pub struct Rect {
    pub x: i32,
    pub y: i32,
    pub w: i32,
    pub h: i32,
}

/// A snapshot of which key codes are currently held down.
pub struct KeyState {
    pressed_keys: Vec<String>,
}

impl KeyState {
    /// The set of key codes reported as pressed.
    pub closed spec fn key_set(&self) -> Set<Seq<char>> {
        Set::new(
            |k: Seq<char>|
                exists|i: int|
                    0 <= i < self.pressed_keys@.len() && self.pressed_keys@[i]@ == k,
        )
    }

    /// Each code is recorded at most once.
    pub closed spec fn wf(&self) -> bool {
        forall|i: int, j: int|
            0 <= i < j < self.pressed_keys@.len() ==> self.pressed_keys@[i]@
                != self.pressed_keys@[j]@
    }

    /// An empty snapshot: no key is pressed.
    pub fn new() -> (s: KeyState)
        ensures
            s.wf(),
            s.key_set() == Set::<Seq<char>>::empty(),
    {
        let s = KeyState { pressed_keys: Vec::new() };
        proof {
            assert(s.key_set() =~= Set::<Seq<char>>::empty());
        }
        s
    }

    /// The index holding `code`, if any.
    fn find(&self, code: &str) -> (r: Option<usize>)
        ensures
            match r {
                Option::Some(i) => i < self.pressed_keys@.len() && self.pressed_keys@[i as int]@
                    == code@,
                Option::None => forall|j: int|
                    0 <= j < self.pressed_keys@.len() ==> self.pressed_keys@[j]@ != code@,
            },
    {
        let n = self.pressed_keys.len();
        let mut i: usize = 0;
        while i < n
            invariant
                0 <= i <= n,
                n == self.pressed_keys@.len(),
                forall|j: int| 0 <= j < i ==> self.pressed_keys@[j]@ != code@,
            decreases n - i,
        {
            if str_eq(self.pressed_keys[i].as_str(), code) {
                return Some(i);
            }
            i = i + 1;
        }
        None
    }

    /// Whether `code` is currently held down.
    pub fn is_pressed(&self, code: &str) -> (r: bool)
        ensures
            r == self.key_set().contains(code@),
    {
        match self.find(code) {
            Some(_) => true,
            None => false,
        }
    }

    /// Records `code` as pressed, overwriting any stale entry for it.
    pub fn set_pressed(&mut self, code: &str)
        requires
            old(self).wf(),
        ensures
            final(self).wf(),
            final(self).key_set() == old(self).key_set().insert(code@),
    {
        match self.find(code) {
            Some(_) => {
                proof {
                    assert(self.key_set() =~= old(self).key_set().insert(code@));
                }
            },
            None => {
                self.pressed_keys.push(String::from_str(code));
                proof {
                    let n = old(self).pressed_keys@.len() as int;
                    assert forall|k: Seq<char>| #[trigger]
                        self.key_set().contains(k) implies old(self).key_set().insert(
                        code@,
                    ).contains(k) by {
                        let i = choose|i: int|
                            0 <= i < self.pressed_keys@.len() && self.pressed_keys@[i]@ == k;
                        if i < n {
                            assert(old(self).pressed_keys@[i]@ == k);
                        }
                    };
                    assert forall|k: Seq<char>| #[trigger]
                        old(self).key_set().insert(code@).contains(k) implies self.key_set().contains(
                        k,
                    ) by {
                        if k == code@ {
                            assert(self.pressed_keys@[n]@ == k);
                        } else {
                            let i = choose|i: int|
                                0 <= i < old(self).pressed_keys@.len() && old(
                                    self,
                                ).pressed_keys@[i]@ == k;
                            assert(self.pressed_keys@[i]@ == k);
                        }
                    };
                    assert(self.key_set() =~= old(self).key_set().insert(code@));
                }
            },
        }
    }

    /// Clears any record of `code` being pressed.
    pub fn set_released(&mut self, code: &str)
        requires
            old(self).wf(),
        ensures
            final(self).wf(),
            final(self).key_set() == old(self).key_set().remove(code@),
    {
        match self.find(code) {
            None => {
                proof {
                    assert(self.key_set() =~= old(self).key_set().remove(code@));
                }
            },
            Some(i) => {
                self.pressed_keys.remove(i);
                proof {
                    let s_old = old(self).pressed_keys@;
                    s_old.remove_ensures(i as int);
                    assert forall|k: Seq<char>| #[trigger]
                        self.key_set().contains(k) implies old(self).key_set().remove(
                        code@,
                    ).contains(k) by {
                        let j = choose|j: int|
                            0 <= j < self.pressed_keys@.len() && self.pressed_keys@[j]@ == k;
                        if j < i {
                            assert(s_old[j]@ == k);
                        } else {
                            assert(s_old[j + 1]@ == k);
                        }
                    };
                    assert forall|k: Seq<char>| #[trigger]
                        old(self).key_set().remove(code@).contains(k) implies self.key_set().contains(
                        k,
                    ) by {
                        let j = choose|j: int| 0 <= j < s_old.len() && s_old[j]@ == k;
                        if j < i {
                            assert(self.pressed_keys@[j]@ == k);
                        } else {
                            assert(j != i);
                            assert(self.pressed_keys@[j - 1]@ == k);
                        }
                    };
                    assert(self.key_set() =~= old(self).key_set().remove(code@));
                }
            },
        }
    }

    /// Whether the "move down" key is held.
    pub fn is_down(&self) -> (r: bool)
        ensures
            r == self.key_set().contains("ArrowDown"@),
    {
        self.is_pressed("ArrowDown")
    }

    /// Whether the "move up" key is held.
    pub fn is_up(&self) -> (r: bool)
        ensures
            r == self.key_set().contains("ArrowUp"@),
    {
        self.is_pressed("ArrowUp")
    }

    /// Whether the "move right" key is held.
    pub fn is_right(&self) -> (r: bool)
        ensures
            r == self.key_set().contains("ArrowRight"@),
    {
        self.is_pressed("ArrowRight")
    }

    /// Whether the "move left" key is held.
    pub fn is_left(&self) -> (r: bool)
        ensures
            r == self.key_set().contains("ArrowLeft"@),
    {
        self.is_pressed("ArrowLeft")
    }
}

/// One raw keyboard notification from the host, tagged with its key code.
pub enum KeyPress {
    KeyUp(String),
    KeyDown(String),
}

/// The effect of one raw key event on a pressed-key snapshot.
pub open spec fn apply_event(keys: Set<Seq<char>>, e: KeyPress) -> Set<Seq<char>> {
    match e {
        KeyPress::KeyDown(code) => keys.insert(code@),
        KeyPress::KeyUp(code) => keys.remove(code@),
    }
}

/// The effect of a whole event sequence, applied in order.
pub open spec fn apply_events(keys: Set<Seq<char>>, evs: Seq<KeyPress>) -> Set<Seq<char>>
    decreases evs.len(),
{
    if evs.len() == 0 {
        keys
    } else {
        apply_event(apply_events(keys, evs.drop_last()), evs.last())
    }
}

/// Draining produces no change at all when the queue is empty, so draining
/// twice in a row is as harmless as draining once.
pub proof fn lemma_drain_empty(keys: Set<Seq<char>>, evs: Seq<KeyPress>)
    requires
        evs.len() == 0,
    ensures
        apply_events(keys, evs) == keys,
{
}

/// The ordered queue of raw key events, fed by the host callback and drained
/// once per game-loop callback.
pub struct InputQueue {
    events: VecDeque<KeyPress>,
}

impl InputQueue {
    /// The pending events, oldest first.
    pub closed spec fn events(&self) -> Seq<KeyPress> {
        self.events@
    }

    /// An empty queue.
    pub fn new() -> (q: InputQueue)
        ensures
            q.events() == Seq::<KeyPress>::empty(),
    {
        let q = InputQueue { events: VecDeque::new() };
        proof {
            assert(q.events() =~= Seq::<KeyPress>::empty());
        }
        q
    }

    /// Appends one raw event; the producer side of the pipeline.
    pub fn push(&mut self, ev: KeyPress)
        ensures
            final(self).events() == old(self).events().push(ev),
    {
        self.events.push_back(ev);
    }

    /// Drains the queue to exhaustion, applying each event in order to the
    /// key snapshot: a key-down marks its code pressed, a key-up clears it.
    pub fn drain(&mut self, keys: &mut KeyState)
        requires
            old(keys).wf(),
        ensures
            final(keys).wf(),
            final(keys).key_set() == apply_events(old(keys).key_set(), old(self).events()),
            final(self).events().len() == 0,
    {
        let ghost evs = self.events@;
        let ghost k0 = keys.key_set();
        let ghost mut n: int = 0;
        loop
            invariant
                keys.wf(),
                0 <= n <= evs.len(),
                self.events@ == evs.subrange(n, evs.len() as int),
                keys.key_set() == apply_events(k0, evs.take(n)),
            ensures
                keys.wf(),
                keys.key_set() == apply_events(k0, evs),
                self.events@.len() == 0,
            decreases evs.len() - n,
        {
            match self.events.pop_front() {
                None => {
                    proof {
                        assert(n == evs.len());
                        assert(evs.take(n) =~= evs);
                    }
                    break ;
                },
                Some(ev) => {
                    proof {
                        assert(evs.take(n + 1).drop_last() =~= evs.take(n));
                        assert(evs.take(n + 1).last() == evs[n]);
                    }
                    match ev {
                        KeyPress::KeyDown(code) => keys.set_pressed(code.as_str()),
                        KeyPress::KeyUp(code) => keys.set_released(code.as_str()),
                    }
                    proof {
                        n = n + 1;
                        assert(self.events@ =~= evs.subrange(n, evs.len() as int));
                    }
                },
            }
        }
    }
}

/// Simulated time consumed by one logic update, in microseconds: the game
/// logic runs at sixty ticks per second.
pub const FRAME_SIZE: u64 = 1000000 / 60;

/// Fixed-timestep accounting: banks elapsed real time and releases it in
/// constant `FRAME_SIZE` increments, so the logic rate is independent of the
/// host's callback rate. Timestamps are microseconds of host time.
pub struct GameLoop {
    pub last_frame: u64,
    pub accumulated_delta: u64,
}

impl GameLoop {
    /// A loop that has just observed its first timestamp and banked nothing.
    pub fn new(now: u64) -> (gl: GameLoop)
        ensures
            gl.last_frame == now,
            gl.accumulated_delta == 0,
    {
        GameLoop { last_frame: now, accumulated_delta: 0 }
    }

    /// Banks the time elapsed since the previous callback and reports how
    /// many whole logic updates it covers: exactly the floor of the banked
    /// total divided by `FRAME_SIZE`, the remainder staying banked.
    pub fn step(&mut self, now: u64) -> (updates: u64)
        requires
            old(self).last_frame <= now,
            old(self).accumulated_delta + (now - old(self).last_frame) <= u64::MAX,
        ensures
            updates == (old(self).accumulated_delta + (now - old(self).last_frame)) as int / (
            FRAME_SIZE as int),
            final(self).accumulated_delta == (old(self).accumulated_delta + (now - old(
                self,
            ).last_frame)) as int % (FRAME_SIZE as int),
            final(self).last_frame == now,
            final(self).accumulated_delta < FRAME_SIZE,
    {
        let ghost total = old(self).accumulated_delta + (now - old(self).last_frame);
        self.accumulated_delta = self.accumulated_delta + (now - self.last_frame);
        let mut updates: u64 = 0;
        while self.accumulated_delta >= FRAME_SIZE
            invariant
                FRAME_SIZE == 16666,
                updates * 16666 + self.accumulated_delta == total,
                0 <= total <= u64::MAX,
            decreases self.accumulated_delta,
        {
            self.accumulated_delta = self.accumulated_delta - FRAME_SIZE;
            updates = updates + 1;
        }
        self.last_frame = now;
        proof {
            vstd::arithmetic::div_mod::lemma_fundamental_div_mod_converse(
                total as int,
                FRAME_SIZE as int,
                updates as int,
                self.accumulated_delta as int,
            );
        }
        updates
    }
}

} // verus!
