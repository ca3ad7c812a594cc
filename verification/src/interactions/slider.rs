//! A slider: a track, a filled foreground and a knob, whose value follows
//! the pointer's x while dragging, clamped into the track's width.

use vstd::prelude::*;
use crate::layout::MAX_DIM;
use crate::events::{self, Event, TickEvent};

verus! {

/// The slider's geometry state, in logical pixels: the current value, the
/// track's full width, the knob's width, and the derived knob offset and
/// filled width the next frame draws.
#[derive(Clone, Copy, Debug)]
pub struct Slider {
    pub value: i64,
    pub full_width: i64,
    pub knob_width: i64,
    pub knob_offset: i64,
    pub fg_width: i64,
}

impl Slider {
    pub open spec fn wf(self) -> bool {
        &&& 0 <= self.full_width <= MAX_DIM
        &&& 0 <= self.knob_width <= MAX_DIM
        &&& 0 <= self.value <= self.full_width
        &&& 0 <= self.knob_offset <= MAX_DIM
        &&& 0 <= self.fg_width <= MAX_DIM
    }

    /// What a candidate value clamps to: into `[0, full_width]`.
    pub open spec fn spec_clamp_value(self, x: i64) -> int {
        if x < 0 {
            0int
        } else if x > self.full_width {
            self.full_width as int
        } else {
            x as int
        }
    }

    /// A fresh slider at a starting value.
    pub fn new(start: i64, full_width: i64, knob_width: i64) -> (r: Self)
        requires
            0 <= full_width <= MAX_DIM,
            0 <= knob_width <= MAX_DIM,
        ensures
            r.wf(),
            r.full_width == full_width,
            r.knob_width == knob_width,
            r.value == r.spec_clamp_value(start),
    {
        let mut s = Slider { value: 0, full_width, knob_width, knob_offset: 0, fg_width: 0 };
        s.clamp(start);
        s
    }

    /// Clamps a candidate value into the track.
    pub fn clamp(&mut self, x: i64)
        requires
            old(self).wf(),
        ensures
            *final(self) == (Slider { value: old(self).spec_clamp_value(x) as i64, ..*old(self) }),
            final(self).wf(),
    {
        self.value = if x < 0 {
            0
        } else if x > self.full_width {
            self.full_width
        } else {
            x
        };
    }

    /// Where the knob sits for the current value: centered on the value,
    /// never past the track's start.
    pub open spec fn spec_knob_offset(self) -> int {
        let half = self.knob_width as int / 2;
        if self.value - half >= 0 {
            self.value - half
        } else {
            0int
        }
    }

    /// Routes one event. Each tick rederives the knob offset and the
    /// filled width from the value; a drag start or move clamps the new x
    /// into the track and reports the value the action should see — the
    /// value before the update, as the drag callback observes it.
    pub fn on_event(&mut self, event: Event) -> (r: Option<i64>)
        requires
            old(self).wf(),
        ensures
            final(self).wf(),
            final(self).full_width == old(self).full_width,
            final(self).knob_width == old(self).knob_width,
            match event {
                Event::Tick(TickEvent) => {
                    &&& r is None
                    &&& *final(self) == (Slider {
                        knob_offset: old(self).spec_knob_offset() as i64,
                        fg_width: old(self).value,
                        ..*old(self)
                    })
                },
                Event::Slider(events::Slider::Start(x)) => {
                    &&& r == Some(old(self).value)
                    &&& final(self).value == old(self).spec_clamp_value(x)
                },
                Event::Slider(events::Slider::Moved(x)) => {
                    &&& r == Some(old(self).value)
                    &&& final(self).value == old(self).spec_clamp_value(x)
                },
                _ => r is None && *final(self) == *old(self),
            },
    {
        match event {
            Event::Tick(TickEvent) => {
                let half = self.knob_width / 2;
                self.knob_offset = if self.value - half >= 0 { self.value - half } else { 0 };
                self.fg_width = self.value;
                None
            },
            Event::Slider(events::Slider::Start(x)) => {
                let reported = self.value;
                self.clamp(x);
                Some(reported)
            },
            Event::Slider(events::Slider::Moved(x)) => {
                let reported = self.value;
                self.clamp(x);
                Some(reported)
            },
            _ => None,
        }
    }
}

} // verus!
