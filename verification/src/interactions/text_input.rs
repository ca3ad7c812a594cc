//! An input field: a family of visual states (default, focus, hover,
//! error) switched by semantic button events, letting keyboard input
//! through only while focused.

use vstd::prelude::*;
use crate::layouts::Stack;
use crate::containers::{Enum, spec_display_index, spec_overlay_stack};
use crate::events::{self, Event, KeyboardEvent, KeyboardState};

verus! {

/// The visual-state key a semantic button event selects, given whether the
/// field is in its error state.
pub open spec fn spec_field_state_key(b: events::Button, error: bool) -> Seq<char> {
    match b {
        events::Button::Hover(over) => if over {
            "hover"@
        } else if error {
            "error"@
        } else {
            "default"@
        },
        events::Button::Pressed(down) => if down {
            "focus"@
        } else if error {
            "error"@
        } else {
            "default"@
        },
    }
}

/// An input field over its visual states.
#[derive(Debug)]
pub struct InputField<D> {
    pub layout: Stack,
    pub states: Enum<D>,
    pub content: D,
    /// Whether the field shows its error state when idle.
    pub error: bool,
    pub focused: bool,
}

impl<D> InputField<D> {
    pub open spec fn wf(self) -> bool {
        &&& self.states.wf()
        &&& self.states.entries@.len() >= 1
    }

    /// Builds the field from its visual states and its content; the
    /// optional states may be left out.
    pub fn new(
        default: D,
        focus: D,
        hover: Option<D>,
        error: Option<D>,
        content: D,
    ) -> (r: Self)
        ensures
            r.wf(),
            !r.error,
            !r.focused,
    {
        proof {
            reveal_strlit("default");
            reveal_strlit("focus");
            reveal_strlit("hover");
            reveal_strlit("error");
        }
        let mut items: Vec<(String, D)> = Vec::new();
        items.push(("default".to_owned(), default));
        items.push(("focus".to_owned(), focus));
        match hover {
            Some(h) => items.push(("hover".to_owned(), h)),
            None => {},
        }
        match error {
            Some(e) => items.push(("error".to_owned(), e)),
            None => {},
        }
        InputField {
            layout: overlay(),
            states: Enum::new(items, "default".to_owned()),
            content,
            error: false,
            focused: false,
        }
    }

    /// Routes one event: semantic button events switch the visual state
    /// and the focus flag (pressed inside focuses, released outside
    /// unfocuses); a keyboard press asks to propagate only while focused;
    /// everything else passes through untouched.
    pub fn on_event(&mut self, event: Event) -> (propagate: bool)
        requires
            old(self).wf(),
        ensures
            final(self).wf(),
            final(self).error == old(self).error,
            match event {
                Event::Button(b) => {
                    &&& final(self).states.spec_only_showing(spec_display_index(
                        old(self).states.entries@,
                        spec_field_state_key(b, old(self).error),
                    ))
                    &&& final(self).focused == match b {
                        events::Button::Pressed(down) => down,
                        _ => old(self).focused,
                    }
                    &&& propagate == true
                },
                Event::Keyboard(k) => {
                    &&& *final(self) == *old(self)
                    &&& propagate == (k.state != KeyboardState::Pressed || old(self).focused)
                },
                _ => *final(self) == *old(self) && propagate == true,
            },
    {
        match event {
            Event::Button(b) => {
                let fallback = if self.error { "error".to_owned() } else { "default".to_owned() };
                match b {
                    events::Button::Hover(true) => {
                        self.states.display(&"hover".to_owned());
                    },
                    events::Button::Pressed(true) => {
                        self.states.display(&"focus".to_owned());
                        self.focused = true;
                    },
                    events::Button::Pressed(false) => {
                        self.focused = false;
                        self.states.display(&fallback);
                    },
                    events::Button::Hover(false) => {
                        self.states.display(&fallback);
                    },
                }
                true
            },
            Event::Keyboard(KeyboardEvent { state: KeyboardState::Pressed, key: _ }) => self.focused,
            _ => true,
        }
    }
}

/// The overlay layout the field places its states in.
fn overlay() -> (r: Stack)
    ensures
        r == spec_overlay_stack(),
{
    Stack(
        crate::layouts::Offset::Start,
        crate::layouts::Offset::Start,
        crate::layouts::Size::Fit,
        crate::layouts::Size::Fit,
        crate::layouts::Padding(0, 0, 0, 0),
    )
}

} // verus!
