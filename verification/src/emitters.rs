//! Interaction wrappers that convert raw pointer and keyboard input into
//! small sets of semantic events.
//!
//! Each emitter is the per-node handler state of an interaction wrapper:
//! a transition from one incoming event to two lists — the events that
//! continue propagating past the wrapper, and the events to append to the
//! global queue. Handlers are pure state transitions over plain values;
//! the dispatcher owns the children and performs the queueing.

use vstd::prelude::*;
use crate::events::{Event, MouseEvent, MouseState, KeyboardState};
use crate::events;

verus! {

/// Relies on `uuid::Uuid::new_v4` for a freshly generated random
/// identifier, reduced to its 128-bit value. Nothing is promised of the
/// result: it is random.
#[verifier::external_body]
pub(crate) fn fresh_id() -> u128 {
    uuid::Uuid::new_v4().as_u128()
}

/// Converts mouse transitions into semantic button states. A press inside
/// the bounds presses the button; moves and scrolls hover it exactly when
/// the pointer is over it; a release restores hover on desktop when the
/// pointer is inside, and un-presses otherwise. A release after a drag
/// never counts as a press.
#[derive(Clone, Copy, Debug)]
pub struct Button;

/// The button wrapper's transition table: which events one incoming event
/// becomes.
pub open spec fn spec_button_events(event: Event, is_mobile: bool) -> Seq<Event> {
    match event {
        Event::Mouse(m) => match m.state {
            MouseState::Pressed => if m.position is Some {
                seq![Event::Button(events::Button::Pressed(true))]
            } else {
                Seq::empty()
            },
            MouseState::Moved => seq![Event::Button(events::Button::Hover(m.position is Some))],
            MouseState::Scroll(_, _) => seq![Event::Button(events::Button::Hover(m.position is Some))],
            MouseState::Released => if !is_mobile && m.position is Some {
                seq![Event::Button(events::Button::Hover(true))]
            } else {
                seq![Event::Button(events::Button::Pressed(false))]
            },
            MouseState::DragReleased => seq![Event::Button(events::Button::Pressed(false))],
        },
        _ => seq![event],
    }
}

impl Button {
    pub fn new() -> (r: Self) {
        Button
    }

    /// Maps one incoming event to the events that continue past this
    /// wrapper; a button enqueues nothing.
    pub fn on_event(&mut self, event: Event, is_mobile: bool) -> (r: (Vec<Event>, Vec<Event>))
        ensures
            r.0@ == spec_button_events(event, is_mobile),
            r.1@ == Seq::<Event>::empty(),
            *final(self) == *old(self),
    {
        let mut cont: Vec<Event> = Vec::new();
        match event {
            Event::Mouse(m) => {
                match m.state {
                    MouseState::Pressed => {
                        if m.position.is_some() {
                            cont.push(Event::Button(events::Button::Pressed(true)));
                        }
                    },
                    MouseState::Moved | MouseState::Scroll(_, _) => {
                        cont.push(Event::Button(events::Button::Hover(m.position.is_some())));
                    },
                    MouseState::Released => {
                        if !is_mobile && m.position.is_some() {
                            cont.push(Event::Button(events::Button::Hover(true)));
                        } else {
                            cont.push(Event::Button(events::Button::Pressed(false)));
                        }
                    },
                    MouseState::DragReleased => {
                        cont.push(Event::Button(events::Button::Pressed(false)));
                    },
                }
            },
            _ => {
                cont.push(event);
            },
        }
        proof {
            assert(cont@ =~= spec_button_events(event, is_mobile));
        }
        (cont, Vec::new())
    }
}

/// Lets one item of a group be active at a time. A press inside the bounds
/// enqueues a group-wide press carrying this item's and its group's
/// identifiers; on seeing such a press for its own group, the wrapper
/// reports whether it was the one pressed.
#[derive(Clone, Copy, Debug)]
pub struct Selectable {
    pub id: u128,
    pub group_id: u128,
}

/// What a selectable forwards for one incoming event.
pub open spec fn spec_selectable_continue(event: Event, id: u128, group_id: u128) -> Seq<Event> {
    match event {
        Event::Selectable(events::Selectable::Pressed(pid, pgroup)) => if pgroup == group_id {
            seq![Event::Selectable(events::Selectable::Selected(pid == id))]
        } else {
            seq![event]
        },
        _ => seq![event],
    }
}

/// What a selectable enqueues for one incoming event.
pub open spec fn spec_selectable_enqueue(event: Event, id: u128, group_id: u128) -> Seq<Event> {
    match event {
        Event::Mouse(m) => if m.state == MouseState::Pressed && m.position is Some {
            seq![Event::Selectable(events::Selectable::Pressed(id, group_id))]
        } else {
            Seq::empty()
        },
        _ => Seq::empty(),
    }
}

impl Selectable {
    /// A wrapper under a freshly generated identifier within the given
    /// group.
    pub fn new(group_id: u128) -> (r: Self)
        ensures
            r.group_id == group_id,
    {
        Selectable { id: fresh_id(), group_id }
    }

    /// A wrapper under the given identifiers.
    pub fn with_id(id: u128, group_id: u128) -> (r: Self)
        ensures
            r.id == id,
            r.group_id == group_id,
    {
        Selectable { id, group_id }
    }

    /// Maps one incoming event to the events that continue past this
    /// wrapper and the group-wide press to enqueue, if any.
    pub fn on_event(&mut self, event: Event) -> (r: (Vec<Event>, Vec<Event>))
        ensures
            r.0@ == spec_selectable_continue(event, old(self).id, old(self).group_id),
            r.1@ == spec_selectable_enqueue(event, old(self).id, old(self).group_id),
            *final(self) == *old(self),
    {
        let mut cont: Vec<Event> = Vec::new();
        let mut queue: Vec<Event> = Vec::new();
        match event {
            Event::Mouse(m) => {
                if m.position.is_some() {
                    match m.state {
                        MouseState::Pressed => {
                            queue.push(Event::Selectable(events::Selectable::Pressed(self.id, self.group_id)));
                        },
                        _ => {},
                    }
                }
                cont.push(event);
            },
            Event::Selectable(events::Selectable::Pressed(pid, pgroup)) => {
                if pgroup == self.group_id {
                    cont.push(Event::Selectable(events::Selectable::Selected(pid == self.id)));
                } else {
                    cont.push(event);
                }
            },
            _ => {
                cont.push(event);
            },
        }
        proof {
            assert(cont@ =~= spec_selectable_continue(event, self.id, self.group_id));
            assert(queue@ =~= spec_selectable_enqueue(event, self.id, self.group_id));
        }
        (cont, queue)
    }
}

/// Converts mouse input into semantic slider states: a press starts a drag
/// at the pointer's x, moves while pressed report the new x, and any
/// release stops tracking.
#[derive(Clone, Copy, Debug)]
pub struct Slider {
    pub tracking: bool,
}

/// What a slider forwards for one incoming event while `tracking`.
pub open spec fn spec_slider_continue(event: Event, tracking: bool) -> Seq<Event> {
    match event {
        Event::Mouse(m) => match m.state {
            MouseState::Pressed => match m.position {
                Some(p) => seq![Event::Slider(events::Slider::Start(p.0))],
                None => Seq::empty(),
            },
            MouseState::Released => Seq::empty(),
            MouseState::DragReleased => Seq::empty(),
            MouseState::Moved => match m.position {
                Some(p) => if tracking {
                    seq![Event::Slider(events::Slider::Moved(p.0))]
                } else {
                    Seq::empty()
                },
                None => Seq::empty(),
            },
            MouseState::Scroll(_, _) => match m.position {
                Some(p) => if tracking {
                    seq![Event::Slider(events::Slider::Moved(p.0))]
                } else {
                    Seq::empty()
                },
                None => Seq::empty(),
            },
        },
        _ => seq![event],
    }
}

/// Whether the slider tracks the pointer after one incoming event.
pub open spec fn spec_slider_tracking(event: Event, tracking: bool) -> bool {
    match event {
        Event::Mouse(m) => match m.state {
            MouseState::Pressed => if m.position is Some { true } else { tracking },
            MouseState::Released => false,
            MouseState::DragReleased => false,
            _ => tracking,
        },
        _ => tracking,
    }
}

impl Slider {
    pub fn new() -> (r: Self)
        ensures
            !r.tracking,
    {
        Slider { tracking: false }
    }

    /// Maps one incoming event to the events that continue past this
    /// wrapper, updating whether a drag is in progress.
    pub fn on_event(&mut self, event: Event) -> (r: (Vec<Event>, Vec<Event>))
        ensures
            r.0@ == spec_slider_continue(event, old(self).tracking),
            r.1@ == Seq::<Event>::empty(),
            final(self).tracking == spec_slider_tracking(event, old(self).tracking),
    {
        let mut cont: Vec<Event> = Vec::new();
        match event {
            Event::Mouse(m) => {
                match (m.state, m.position) {
                    (MouseState::Pressed, Some(p)) => {
                        self.tracking = true;
                        cont.push(Event::Slider(events::Slider::Start(p.0)));
                    },
                    (MouseState::Released, _) | (MouseState::DragReleased, _) => {
                        self.tracking = false;
                    },
                    (MouseState::Moved, Some(p)) | (MouseState::Scroll(_, _), Some(p)) => {
                        if self.tracking {
                            cont.push(Event::Slider(events::Slider::Moved(p.0)));
                        }
                    },
                    _ => {},
                }
            },
            _ => {
                cont.push(event);
            },
        }
        proof {
            assert(cont@ =~= spec_slider_continue(event, old(self).tracking));
        }
        (cont, Vec::new())
    }
}

/// Converts raw input into semantic text-input states: clicks inside focus
/// the field, clicks outside unfocus it, moves report hover, and keyboard
/// presses pass through only while focused.
#[derive(Clone, Copy, Debug)]
pub struct TextInput {
    pub focused: bool,
}

/// What a text input forwards for one incoming event while `focused`.
pub open spec fn spec_text_input_continue(event: Event, focused: bool, is_mobile: bool) -> Seq<Event> {
    match event {
        Event::Mouse(m) => match m.state {
            MouseState::Pressed => if m.position is Some {
                seq![Event::TextInput(events::TextInput::Focused(true)), event]
            } else {
                seq![event]
            },
            MouseState::Moved => seq![Event::TextInput(events::TextInput::Hover(m.position is Some)), event],
            MouseState::Scroll(_, _) => seq![Event::TextInput(events::TextInput::Hover(m.position is Some)), event],
            MouseState::Released => if !is_mobile && m.position is Some {
                seq![Event::TextInput(events::TextInput::Hover(true)), event]
            } else {
                seq![Event::TextInput(events::TextInput::Focused(false)), event]
            },
            MouseState::DragReleased => seq![Event::TextInput(events::TextInput::Focused(false)), event],
        },
        Event::Keyboard(k) => if k.state == KeyboardState::Pressed {
            if focused {
                seq![event]
            } else {
                Seq::empty()
            }
        } else {
            seq![event]
        },
        _ => seq![event],
    }
}

/// Whether the field is focused after one incoming event: a press inside
/// focuses, a press outside unfocuses.
pub open spec fn spec_text_input_focused(event: Event, focused: bool) -> bool {
    match event {
        Event::Mouse(m) => match m.state {
            MouseState::Pressed => m.position is Some,
            _ => focused,
        },
        _ => focused,
    }
}

impl TextInput {
    pub fn new() -> (r: Self)
        ensures
            !r.focused,
    {
        TextInput { focused: false }
    }

    /// Maps one incoming event to the events that continue past this
    /// wrapper, updating the focus state.
    pub fn on_event(&mut self, event: Event, is_mobile: bool) -> (r: (Vec<Event>, Vec<Event>))
        ensures
            r.0@ == spec_text_input_continue(event, old(self).focused, is_mobile),
            r.1@ == Seq::<Event>::empty(),
            final(self).focused == spec_text_input_focused(event, old(self).focused),
    {
        let mut cont: Vec<Event> = Vec::new();
        match event {
            Event::Mouse(m) => {
                match m.state {
                    MouseState::Pressed => {
                        if m.position.is_some() {
                            self.focused = true;
                            cont.push(Event::TextInput(events::TextInput::Focused(true)));
                        } else {
                            self.focused = false;
                        }
                    },
                    MouseState::Moved | MouseState::Scroll(_, _) => {
                        cont.push(Event::TextInput(events::TextInput::Hover(m.position.is_some())));
                    },
                    MouseState::Released => {
                        if !is_mobile && m.position.is_some() {
                            cont.push(Event::TextInput(events::TextInput::Hover(true)));
                        } else {
                            cont.push(Event::TextInput(events::TextInput::Focused(false)));
                        }
                    },
                    MouseState::DragReleased => {
                        cont.push(Event::TextInput(events::TextInput::Focused(false)));
                    },
                }
                cont.push(event);
            },
            Event::Keyboard(k) => {
                match k.state {
                    KeyboardState::Pressed => {
                        if self.focused {
                            cont.push(event);
                        }
                    },
                    KeyboardState::Released => {
                        cont.push(event);
                    },
                }
            },
            _ => {
                cont.push(event);
            },
        }
        proof {
            assert(cont@ =~= spec_text_input_continue(event, old(self).focused, is_mobile));
        }
        (cont, Vec::new())
    }
}

/// Swallows the press of a drag gesture: a press is remembered rather than
/// forwarded, and a release within a small vertical travel replays it as a
/// press, so that scrolling over a child does not click it.
#[derive(Clone, Copy, Debug)]
pub struct Scrollable {
    pub press: (i64, i64),
}

/// The vertical travel under which a release still counts as a click here.
pub const SCROLLABLE_CLICK_SLOP: i64 = 5;

/// What a scrollable forwards for one incoming event given the remembered
/// press position.
pub open spec fn spec_scrollable_continue(event: Event, press: (i64, i64)) -> Seq<Event> {
    match event {
        Event::Mouse(m) => match (m.state, m.position) {
            (MouseState::Pressed, Some(_)) => Seq::empty(),
            (MouseState::Released, Some(p)) => if -SCROLLABLE_CLICK_SLOP < p.1 - press.1 < SCROLLABLE_CLICK_SLOP {
                seq![Event::Mouse(MouseEvent { position: Some(p), state: MouseState::Pressed })]
            } else {
                Seq::empty()
            },
            _ => seq![event],
        },
        _ => seq![event],
    }
}

impl Scrollable {
    pub fn new() -> (r: Self)
        ensures
            r.press == (0int as i64, 0int as i64),
    {
        Scrollable { press: (0, 0) }
    }

    /// Maps one incoming event to the events that continue past this
    /// wrapper, remembering where a press started.
    pub fn on_event(&mut self, event: Event) -> (r: (Vec<Event>, Vec<Event>))
        ensures
            r.0@ == spec_scrollable_continue(event, old(self).press),
            r.1@ == Seq::<Event>::empty(),
            final(self).press == match event {
                Event::Mouse(m) => match (m.state, m.position) {
                    (MouseState::Pressed, Some(p)) => p,
                    _ => old(self).press,
                },
                _ => old(self).press,
            },
    {
        let mut cont: Vec<Event> = Vec::new();
        match event {
            Event::Mouse(m) => {
                match (m.state, m.position) {
                    (MouseState::Pressed, Some(p)) => {
                        self.press = p;
                    },
                    (MouseState::Released, Some(p)) => {
                        let dy = (p.1 as i128) - (self.press.1 as i128);
                        if -(SCROLLABLE_CLICK_SLOP as i128) < dy && dy < SCROLLABLE_CLICK_SLOP as i128 {
                            cont.push(Event::Mouse(MouseEvent { position: Some(p), state: MouseState::Pressed }));
                        }
                    },
                    _ => {
                        cont.push(event);
                    },
                }
            },
            _ => {
                cont.push(event);
            },
        }
        proof {
            assert(cont@ =~= spec_scrollable_continue(event, old(self).press));
        }
        (cont, Vec::new())
    }
}

} // verus!
