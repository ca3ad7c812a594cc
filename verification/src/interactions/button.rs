//! A push button: a family of visual states (default, hover, pressed,
//! disabled) of which exactly one is displayed, switched by semantic
//! button events, firing its action on press or on release.

use vstd::prelude::*;
use crate::layouts::Stack;
use crate::containers::{Enum, spec_display_index, spec_overlay_stack};
use crate::events::{self, Event};

verus! {

/// The visual-state key a semantic button event selects.
pub open spec fn spec_button_state_key(b: events::Button) -> Seq<char> {
    match b {
        events::Button::Hover(over) => if over { "hover"@ } else { "default"@ },
        events::Button::Pressed(down) => if down { "pressed"@ } else { "default"@ },
    }
}

/// A push button over a family of visual states.
#[derive(Debug)]
pub struct Button<D> {
    pub layout: Stack,
    pub states: Enum<D>,
    /// A disabled button pins its visual state to the disabled one.
    pub is_disabled: bool,
    /// Whether the action fires on press (`true`) or on release (`false`).
    pub on_press: bool,
}

impl<D> Button<D> {
    pub open spec fn wf(self) -> bool {
        &&& self.states.wf()
        &&& self.states.entries@.len() >= 1
    }

    /// Builds the button from its visual states; the optional ones may be
    /// left out. It starts on the disabled state when disabled, else on
    /// the default state.
    pub fn new(
        default: D,
        hover: Option<D>,
        pressed: Option<D>,
        disabled: Option<D>,
        is_disabled: bool,
        on_press: bool,
    ) -> (r: Self)
        ensures
            r.wf(),
            r.is_disabled == is_disabled,
            r.on_press == on_press,
    {
        proof {
            reveal_strlit("default");
            reveal_strlit("hover");
            reveal_strlit("pressed");
            reveal_strlit("disabled");
        }
        let mut items: Vec<(String, D)> = Vec::new();
        items.push(("default".to_owned(), default));
        match hover {
            Some(h) => items.push(("hover".to_owned(), h)),
            None => {},
        }
        match pressed {
            Some(p) => items.push(("pressed".to_owned(), p)),
            None => {},
        }
        match disabled {
            Some(d) => items.push(("disabled".to_owned(), d)),
            None => {},
        }
        let start = if is_disabled { "disabled".to_owned() } else { "default".to_owned() };
        Button {
            layout: overlay(),
            states: Enum::new(items, start),
            is_disabled,
            on_press,
        }
    }

    /// Routes one event: a semantic button event switches the displayed
    /// state (a disabled button always shows its disabled state) and the
    /// result says whether the button's action fires — on the press or the
    /// release transition, as configured. Every other event is ignored.
    pub fn on_event(&mut self, event: Event) -> (fire: bool)
        requires
            old(self).wf(),
        ensures
            final(self).wf(),
            final(self).is_disabled == old(self).is_disabled,
            final(self).on_press == old(self).on_press,
            match event {
                Event::Button(b) => {
                    &&& fire == (b == events::Button::Pressed(old(self).on_press))
                    &&& final(self).states.spec_only_showing(spec_display_index(
                        old(self).states.entries@,
                        if old(self).is_disabled { "disabled"@ } else { spec_button_state_key(b) },
                    ))
                },
                _ => fire == false && *final(self) == *old(self),
            },
    {
        match event {
            Event::Button(b) => {
                let key = if self.is_disabled {
                    "disabled".to_owned()
                } else {
                    match b {
                        events::Button::Hover(true) => "hover".to_owned(),
                        events::Button::Hover(false) => "default".to_owned(),
                        events::Button::Pressed(true) => "pressed".to_owned(),
                        events::Button::Pressed(false) => "default".to_owned(),
                    }
                };
                self.states.display(&key);
                match b {
                    events::Button::Pressed(down) => down == self.on_press,
                    _ => false,
                }
            },
            _ => false,
        }
    }
}

/// The overlay layout the button places its states in.
fn overlay() -> (r: Stack)
    ensures
        r == spec_overlay_stack(),
{
    Stack(
        crate::layouts::Offset::Start,
        crate::layouts::Offset::Start,
        crate::layouts::Size::Fit,
        crate::layouts::Size::Fit,
        crate::layouts::Padding(0, 0, 0, 0),
    )
}

} // verus!
