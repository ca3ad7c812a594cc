//! The raw-input translator: a stateful per-session machine that converts
//! platform input primitives into the semantic events the pipeline routes.
//!
//! It tracks the pointer, classifies a press/release pair as a tap or a
//! drag release against fixed displacement and hold thresholds, normalizes
//! wheel and trackpad deltas into the same scroll semantic as touch drags,
//! and drives inertial scrolling by exponential velocity decay evaluated
//! once per tick.

use vstd::prelude::*;
use crate::events::{Event, MouseEvent, MouseState, Key, KeyboardEvent, KeyboardState};

verus! {

/// A raw platform input primitive, in logical pixels.
#[derive(Clone, Copy, Debug, PartialEq)]
pub enum Input {
    /// A touch sample: position and phase.
    Touch { x: i64, y: i64, phase: TouchPhase },
    /// The pointing device moved.
    CursorMoved { x: i64, y: i64 },
    /// A mouse button transition at the current pointer position.
    MouseButton { pressed: bool },
    /// A wheel or trackpad delta with its gesture phase.
    MouseWheel { delta: WheelDelta, phase: TouchPhase },
    /// A key transition.
    Keyboard { key: Key, pressed: bool },
    /// The per-frame pulse.
    Tick,
}

/// The phase of a touch or wheel gesture.
#[derive(Clone, Copy, Debug, PartialEq, Eq, Structural)]
pub enum TouchPhase {
    Started,
    Moved,
    Ended,
    Cancelled,
}

/// A wheel delta: whole lines or pixels.
#[derive(Clone, Copy, Debug, PartialEq, Eq, Structural)]
pub enum WheelDelta {
    Lines(i64, i64),
    Pixels(i64, i64),
}

/// The widest input coordinate the translator accepts.
pub const MAX_POS: i64 = 0x10_0000_0000;

/// A press whose pointer travelled less than this many logical pixels can
/// still be a tap.
pub const TAP_MAX_DISPLACEMENT: i64 = 25;

/// A press held shorter than this many milliseconds can still be a tap.
pub const TAP_MAX_HOLD_MS: u64 = 600;

/// Inertial speed is carried in thousandths of a logical pixel per tick.
pub const SPEED_UNIT: i64 = 1000;

/// Decay multiplies the carried speed by 92/100 each tick.
pub const DECAY_NUM: i64 = 92;

/// The decay denominator.
pub const DECAY_DEN: i64 = 100;

/// Once the carried speed falls below a tenth of a pixel per tick, the
/// momentum disarms and no further synthetic scrolls are emitted.
pub const MOMENTUM_CUTOFF: i64 = 100;

/// The largest inertial speed ever armed, in thousandths of a pixel.
pub const MAX_SPEED: i64 = 0x100_0000_0000;

/// The latest clock value the translator accepts, in milliseconds.
pub const MAX_TIME_MS: u64 = 0x1_0000_0000_0000;

/// The absolute value of an integer.
pub open spec fn spec_abs(x: int) -> int {
    if x >= 0 {
        x
    } else {
        -x
    }
}

/// One tick of exponential decay: the speed scaled by 92/100, rounding
/// toward zero.
pub open spec fn spec_decay(s: int) -> int {
    if s >= 0 {
        (s * DECAY_NUM) / (DECAY_DEN as int)
    } else {
        -(((-s) * DECAY_NUM) / (DECAY_DEN as int))
    }
}

/// The speed after `n` ticks of decay.
pub open spec fn spec_decay_n(s: int, n: nat) -> int
    decreases n,
{
    if n == 0 {
        s
    } else {
        spec_decay(spec_decay_n(s, (n - 1) as nat))
    }
}

proof fn lemma_decay_step(s: int)
    requires
        s >= 1,
    ensures
        0 <= spec_decay(s) <= s - 1,
{
    let x = s * DECAY_NUM;
    let q = x / (DECAY_DEN as int);
    vstd::arithmetic::div_mod::lemma_fundamental_div_mod(x, DECAY_DEN as int);
    vstd::arithmetic::div_mod::lemma_mod_bound(x, DECAY_DEN as int);
    assert(92 * s <= 100 * s - 8) by (nonlinear_arith)
        requires s >= 1;
    assert(s * DECAY_NUM >= 0) by (nonlinear_arith)
        requires s >= 1;
}

proof fn lemma_decay_shrinks(s: int)
    ensures
        spec_abs(spec_decay(s)) <= if spec_abs(s) >= 1 { spec_abs(s) - 1 } else { 0int },
{
    if s >= 1 {
        lemma_decay_step(s);
    } else if s <= -1 {
        lemma_decay_step(-s);
    }
}

proof fn lemma_decay_n_bound(s: int, n: nat)
    ensures
        spec_abs(spec_decay_n(s, n)) <= if spec_abs(s) - n >= 0 { spec_abs(s) - n } else { 0int },
    decreases n,
{
    if n > 0 {
        lemma_decay_n_bound(s, (n - 1) as nat);
        lemma_decay_shrinks(spec_decay_n(s, (n - 1) as nat));
    }
}

/// Momentum decay terminates: from any starting speed, repeatedly applying
/// the 92/100 decay brings the speed below the cutoff within a number of
/// ticks bounded by the starting magnitude itself, after which the machine
/// disarms and emits nothing further.
pub proof fn lemma_momentum_decay_terminates(s: int)
    ensures
        spec_abs(spec_decay_n(s, spec_abs(s) as nat)) < MOMENTUM_CUTOFF,
{
    lemma_decay_n_bound(s, spec_abs(s) as nat);
}

/// How a finished press is classified: a short, small-displacement press
/// is a tap and releases normally; anything longer or farther is a
/// drag release.
pub open spec fn spec_classify(displacement: int, hold_ms: int) -> MouseState {
    if displacement < TAP_MAX_DISPLACEMENT && hold_ms < TAP_MAX_HOLD_MS {
        MouseState::Released
    } else {
        MouseState::DragReleased
    }
}

/// The displacement between two points: the larger of the two axis
/// distances.
pub open spec fn spec_displacement(a: (i64, i64), b: (i64, i64)) -> int {
    let dx = spec_abs(a.0 - b.0);
    let dy = spec_abs(a.1 - b.1);
    if dx >= dy {
        dx
    } else {
        dy
    }
}

/// The speed armed when a drag ends: the vertical travel per elapsed time,
/// scaled to thousandths of a pixel per tick and reversed, clamped into
/// the carried range. A zero hold counts as one millisecond.
pub open spec fn spec_armed_speed(dy: int, hold_ms: int) -> int {
    let t = if hold_ms >= 1 { hold_ms } else { 1int };
    let raw = if dy >= 0 {
        -((dy * 50000) / t)
    } else {
        (((-dy) * 50000) / t)
    };
    if raw > MAX_SPEED {
        MAX_SPEED as int
    } else if raw < -MAX_SPEED {
        -MAX_SPEED as int
    } else {
        raw
    }
}

/// The per-session translator state.
#[derive(Clone, Copy, Debug, PartialEq)]
pub struct InputTranslator {
    /// The current pointer position.
    pub mouse: (i64, i64),
    /// Whether a press is active.
    pub pressed: bool,
    /// Where and when the active press began.
    pub press_start: Option<((i64, i64), u64)>,
    /// The last drag sample, or the wheel accumulator.
    pub scroll: Option<(i64, i64)>,
    /// The armed inertial speed, if any.
    pub speed: Option<i64>,
}

impl InputTranslator {
    /// All carried coordinates and the armed speed lie in range.
    pub open spec fn wf(self) -> bool {
        &&& -MAX_POS <= self.mouse.0 <= MAX_POS
        &&& -MAX_POS <= self.mouse.1 <= MAX_POS
        &&& self.press_start matches Some(ps)
            ==> -MAX_POS <= ps.0.0 <= MAX_POS && -MAX_POS <= ps.0.1 <= MAX_POS
        &&& self.scroll matches Some(p)
            ==> -MAX_POS * 4 <= p.0 <= MAX_POS * 4 && -MAX_POS * 4 <= p.1 <= MAX_POS * 4
        &&& self.speed matches Some(s) ==> -MAX_SPEED <= s <= MAX_SPEED
    }

    /// A fresh translator: pointer at the origin, nothing pressed, nothing
    /// armed.
    pub fn new() -> (r: Self)
        ensures
            r == (InputTranslator {
                mouse: (0int as i64, 0int as i64),
                pressed: false,
                press_start: None::<((i64, i64), u64)>,
                scroll: None::<(i64, i64)>,
                speed: None::<i64>,
            }),
            r.wf(),
    {
        InputTranslator { mouse: (0, 0), pressed: false, press_start: None, scroll: None, speed: None }
    }

    /// Classifies the active press against the thresholds.
    fn classify(&self, p: (i64, i64), now_ms: u64) -> (r: MouseState)
        requires
            self.wf(),
            -MAX_POS <= p.0 <= MAX_POS,
            -MAX_POS <= p.1 <= MAX_POS,
            self.press_start matches Some(ps) ==> ps.1 <= now_ms,
        ensures
            r == match self.press_start {
                Some(ps) => spec_classify(spec_displacement(p, ps.0), now_ms - ps.1),
                None => MouseState::Released,
            },
    {
        match self.press_start {
            None => MouseState::Released,
            Some(((sx, sy), t0)) => {
                let dx = if p.0 >= sx { p.0 - sx } else { sx - p.0 };
                let dy = if p.1 >= sy { p.1 - sy } else { sy - p.1 };
                let disp = if dx >= dy { dx } else { dy };
                let hold = now_ms - t0;
                if disp < TAP_MAX_DISPLACEMENT && hold < TAP_MAX_HOLD_MS {
                    MouseState::Released
                } else {
                    MouseState::DragReleased
                }
            },
        }
    }

    /// Finishes the active press: classifies it, arms momentum after a
    /// drag release, and clears the press state.
    fn finish_press(&mut self, p: (i64, i64), now_ms: u64) -> (r: MouseState)
        requires
            old(self).wf(),
            -MAX_POS <= p.0 <= MAX_POS,
            -MAX_POS <= p.1 <= MAX_POS,
            now_ms <= MAX_TIME_MS,
            old(self).press_start matches Some(ps) ==> ps.1 <= now_ms,
        ensures
            final(self).wf(),
            r == match old(self).press_start {
                Some(ps) => spec_classify(spec_displacement(p, ps.0), now_ms - ps.1),
                None => MouseState::Released,
            },
            final(self).pressed == false,
            final(self).press_start is None,
            final(self).mouse == old(self).mouse,
            final(self).scroll == old(self).scroll,
            final(self).speed == match old(self).press_start {
                Some(ps) => if spec_classify(spec_displacement(p, ps.0), now_ms - ps.1)
                    == MouseState::DragReleased {
                    Some(spec_armed_speed(p.1 - ps.0.1, now_ms - ps.1) as i64)
                } else {
                    old(self).speed
                },
                None => old(self).speed,
            },
    {
        let state = self.classify(p, now_ms);
        match self.press_start {
            Some((start, t0)) => {
                if matches!(state, MouseState::DragReleased) {
                    let dy = p.1 - start.1;
                    let hold = now_ms - t0;
                    let t: i64 = if hold >= 1 { hold as i64 } else { 1 };
                    proof {
                        assert(t >= 1);
                    }
                    let raw: i64 = if dy >= 0 { -((dy * 50000) / t) } else { ((-dy) * 50000) / t };
                    let clamped: i64 = if raw > MAX_SPEED {
                        MAX_SPEED
                    } else if raw < -MAX_SPEED {
                        -MAX_SPEED
                    } else {
                        raw
                    };
                    self.speed = Some(clamped);
                }
            },
            None => {},
        }
        self.pressed = false;
        self.press_start = None;
        state
    }
}

/// The sign of a delta: wheel lines are normalized to one step each.
pub open spec fn spec_signum(x: int) -> int {
    if x > 0 {
        1int
    } else if x < 0 {
        -1int
    } else {
        0int
    }
}

/// Division by five that rounds toward zero: the wheel damping factor.
pub open spec fn spec_fifth(x: int) -> int {
    if x >= 0 {
        x / 5
    } else {
        -((-x) / 5)
    }
}

/// The normalized, damped wheel step. Trackpad pixel deltas are damped to
/// a fifth. A line of wheel travel is likewise damped to a fifth of a
/// step, which rounds to nothing in whole pixels, so it stands as one
/// whole pixel instead: the smallest honest integer step.
pub open spec fn spec_wheel_step(delta: WheelDelta) -> (int, int) {
    match delta {
        WheelDelta::Lines(x, y) => (spec_signum(x as int), spec_signum(y as int)),
        WheelDelta::Pixels(x, y) => (spec_fifth(x as int), spec_fifth(y as int)),
    }
}

/// An input whose coordinates lie in range.
pub open spec fn spec_input_wf(input: Input) -> bool {
    match input {
        Input::Touch { x, y, phase: _ } => -MAX_POS <= x <= MAX_POS && -MAX_POS <= y <= MAX_POS,
        Input::CursorMoved { x, y } => -MAX_POS <= x <= MAX_POS && -MAX_POS <= y <= MAX_POS,
        Input::MouseWheel { delta, phase: _ } => match delta {
            WheelDelta::Lines(_, _) => true,
            WheelDelta::Pixels(x, y) => -MAX_POS <= x <= MAX_POS && -MAX_POS <= y <= MAX_POS,
        },
        _ => true,
    }
}

impl InputTranslator {
    /// The translator state after one input.
    pub open spec fn spec_next(self, input: Input, now_ms: u64) -> InputTranslator {
        match input {
            Input::Touch { x, y, phase } => {
                let p = (x, y);
                match phase {
                    TouchPhase::Started => InputTranslator {
                        mouse: p,
                        pressed: true,
                        press_start: Some((p, now_ms)),
                        scroll: Some(p),
                        speed: None,
                    },
                    TouchPhase::Moved => InputTranslator {
                        mouse: p,
                        scroll: if self.scroll is Some { Some(p) } else { self.scroll },
                        ..self
                    },
                    TouchPhase::Ended | TouchPhase::Cancelled => {
                        let speed = match self.press_start {
                            Some(ps) => if spec_classify(spec_displacement(p, ps.0), now_ms - ps.1)
                                == MouseState::DragReleased {
                                Some(spec_armed_speed(p.1 - ps.0.1, now_ms - ps.1) as i64)
                            } else {
                                self.speed
                            },
                            None => self.speed,
                        };
                        InputTranslator {
                            mouse: p,
                            pressed: false,
                            press_start: None,
                            speed,
                            ..self
                        }
                    },
                }
            },
            Input::CursorMoved { x, y } => InputTranslator { mouse: (x, y), ..self },
            Input::MouseButton { pressed } => if pressed {
                InputTranslator {
                    pressed: true,
                    press_start: Some((self.mouse, now_ms)),
                    speed: None,
                    ..self
                }
            } else {
                let speed = match self.press_start {
                    Some(ps) => if spec_classify(spec_displacement(self.mouse, ps.0), now_ms - ps.1)
                        == MouseState::DragReleased {
                        Some(spec_armed_speed(self.mouse.1 - ps.0.1, now_ms - ps.1) as i64)
                    } else {
                        self.speed
                    },
                    None => self.speed,
                };
                InputTranslator { pressed: false, press_start: None, speed, ..self }
            },
            Input::MouseWheel { delta: _, phase } => match phase {
                TouchPhase::Started => InputTranslator { scroll: Some((0int as i64, 0int as i64)), ..self },
                _ => self,
            },
            Input::Keyboard { key: _, pressed: _ } => self,
            Input::Tick => match self.speed {
                Some(s) if !self.pressed => {
                    let decayed = spec_decay(s as int);
                    if spec_abs(decayed) < MOMENTUM_CUTOFF {
                        InputTranslator { speed: None, ..self }
                    } else {
                        InputTranslator { speed: Some(decayed as i64), ..self }
                    }
                },
                _ => self,
            },
        }
    }

    /// The semantic event one input translates to, if any.
    pub open spec fn spec_output(self, input: Input, now_ms: u64) -> Option<Event> {
        match input {
            Input::Touch { x, y, phase } => {
                let p = (x, y);
                match phase {
                    TouchPhase::Started => Some(Event::Mouse(MouseEvent {
                        position: Some(p),
                        state: MouseState::Pressed,
                    })),
                    TouchPhase::Moved => match self.scroll {
                        Some(prev) => if p.0 != prev.0 || p.1 != prev.1 {
                            Some(Event::Mouse(MouseEvent {
                                position: Some(p),
                                state: MouseState::Scroll(
                                    (prev.0 - p.0) as i64,
                                    (prev.1 - p.1) as i64,
                                ),
                            }))
                        } else {
                            None
                        },
                        None => None,
                    },
                    TouchPhase::Ended | TouchPhase::Cancelled => Some(Event::Mouse(MouseEvent {
                        position: Some(p),
                        state: match self.press_start {
                            Some(ps) => spec_classify(spec_displacement(p, ps.0), now_ms - ps.1),
                            None => MouseState::Released,
                        },
                    })),
                }
            },
            Input::CursorMoved { x, y } => if self.mouse != (x, y) {
                Some(Event::Mouse(MouseEvent { position: Some((x, y)), state: MouseState::Moved }))
            } else {
                None
            },
            Input::MouseButton { pressed } => if pressed {
                Some(Event::Mouse(MouseEvent { position: Some(self.mouse), state: MouseState::Pressed }))
            } else {
                Some(Event::Mouse(MouseEvent {
                    position: Some(self.mouse),
                    state: match self.press_start {
                        Some(ps) => spec_classify(spec_displacement(self.mouse, ps.0), now_ms - ps.1),
                        None => MouseState::Released,
                    },
                }))
            },
            Input::MouseWheel { delta, phase } => match phase {
                TouchPhase::Moved => match self.scroll {
                    Some(prev) => Some(Event::Mouse(MouseEvent {
                        position: Some(self.mouse),
                        state: MouseState::Scroll(
                            (prev.0 - spec_wheel_step(delta).0) as i64,
                            (prev.1 - spec_wheel_step(delta).1) as i64,
                        ),
                    })),
                    None => None,
                },
                _ => None,
            },
            Input::Keyboard { key, pressed } => Some(Event::Keyboard(KeyboardEvent {
                key,
                state: if pressed { KeyboardState::Pressed } else { KeyboardState::Released },
            })),
            Input::Tick => match self.speed {
                Some(s) if !self.pressed => {
                    let decayed = spec_decay(s as int);
                    if spec_abs(decayed) < MOMENTUM_CUTOFF {
                        None
                    } else {
                        Some(Event::Mouse(MouseEvent {
                            position: Some(self.mouse),
                            state: MouseState::Scroll(
                                0int as i64,
                                (if decayed >= 0 {
                                    decayed / (SPEED_UNIT as int)
                                } else {
                                    -((-decayed) / (SPEED_UNIT as int))
                                }) as i64,
                            ),
                        }))
                    }
                },
                _ => None,
            },
        }
    }

    /// Translates one raw input into at most one semantic event, advancing
    /// the per-session state: presses record where and when they began,
    /// drag samples emit scroll deltas, releases are classified as tap or
    /// drag release, wheel deltas are normalized into the same scroll
    /// semantic, and each tick decays any armed inertial speed, emitting a
    /// synthetic scroll until the speed falls below the cutoff.
    pub fn on_input(&mut self, input: Input, now_ms: u64) -> (r: Option<Event>)
        requires
            old(self).wf(),
            spec_input_wf(input),
            now_ms <= MAX_TIME_MS,
            old(self).press_start matches Some(ps) ==> ps.1 <= now_ms,
        ensures
            final(self).wf(),
            *final(self) == old(self).spec_next(input, now_ms),
            r == old(self).spec_output(input, now_ms),
    {
        match input {
            Input::Touch { x, y, phase } => {
                let p = (x, y);
                match phase {
                    TouchPhase::Started => {
                        self.scroll = Some(p);
                        self.pressed = true;
                        self.press_start = Some((p, now_ms));
                        self.speed = None;
                        self.mouse = p;
                        Some(Event::Mouse(MouseEvent { position: Some(p), state: MouseState::Pressed }))
                    },
                    TouchPhase::Moved => {
                        let r = match self.scroll {
                            Some(prev) => {
                                self.scroll = Some(p);
                                if p.0 != prev.0 || p.1 != prev.1 {
                                    Some(Event::Mouse(MouseEvent {
                                        position: Some(p),
                                        state: MouseState::Scroll(prev.0 - p.0, prev.1 - p.1),
                                    }))
                                } else {
                                    None
                                }
                            },
                            None => None,
                        };
                        self.mouse = p;
                        r
                    },
                    TouchPhase::Ended | TouchPhase::Cancelled => {
                        let state = self.finish_press(p, now_ms);
                        self.mouse = p;
                        Some(Event::Mouse(MouseEvent { position: Some(p), state }))
                    },
                }
            },
            Input::CursorMoved { x, y } => {
                if self.mouse.0 != x || self.mouse.1 != y {
                    self.mouse = (x, y);
                    Some(Event::Mouse(MouseEvent { position: Some((x, y)), state: MouseState::Moved }))
                } else {
                    None
                }
            },
            Input::MouseButton { pressed } => {
                if pressed {
                    self.pressed = true;
                    self.press_start = Some((self.mouse, now_ms));
                    self.speed = None;
                    Some(Event::Mouse(MouseEvent { position: Some(self.mouse), state: MouseState::Pressed }))
                } else {
                    let at = self.mouse;
                    let state = self.finish_press(at, now_ms);
                    Some(Event::Mouse(MouseEvent { position: Some(at), state }))
                }
            },
            Input::MouseWheel { delta, phase } => {
                match phase {
                    TouchPhase::Started => {
                        self.scroll = Some((0, 0));
                        None
                    },
                    TouchPhase::Moved => {
                        match self.scroll {
                            Some(prev) => {
                                let step: (i64, i64) = match delta {
                                    WheelDelta::Lines(x, y) => (
                                        if x > 0 { 1 } else if x < 0 { -1 } else { 0 },
                                        if y > 0 { 1 } else if y < 0 { -1 } else { 0 },
                                    ),
                                    WheelDelta::Pixels(x, y) => (
                                        if x >= 0 { x / 5 } else { -((-x) / 5) },
                                        if y >= 0 { y / 5 } else { -((-y) / 5) },
                                    ),
                                };
                                Some(Event::Mouse(MouseEvent {
                                    position: Some(self.mouse),
                                    state: MouseState::Scroll(prev.0 - step.0, prev.1 - step.1),
                                }))
                            },
                            None => None,
                        }
                    },
                    _ => None,
                }
            },
            Input::Keyboard { key, pressed } => {
                Some(Event::Keyboard(KeyboardEvent {
                    key,
                    state: if pressed { KeyboardState::Pressed } else { KeyboardState::Released },
                }))
            },
            Input::Tick => {
                if !self.pressed && self.speed.is_some() {
                    let s = self.speed.unwrap();
                    let decayed: i64 = if s >= 0 { (s * DECAY_NUM) / DECAY_DEN } else { -(((-s) * DECAY_NUM) / DECAY_DEN) };
                    let mag = if decayed >= 0 { decayed } else { -decayed };
                    if mag < MOMENTUM_CUTOFF {
                        self.speed = None;
                        None
                    } else {
                        self.speed = Some(decayed);
                        Some(Event::Mouse(MouseEvent {
                            position: Some(self.mouse),
                            state: MouseState::Scroll(0, if decayed >= 0 { decayed / SPEED_UNIT } else { -((-decayed) / SPEED_UNIT) }),
                        }))
                    }
                } else {
                    None
                }
            },
        }
    }
}

} // verus!
