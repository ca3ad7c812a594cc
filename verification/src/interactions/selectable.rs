//! A selectable item: one of a group may be active at a time. Pressing it
//! announces the choice group-wide; each member then shows its selected or
//! default state, and the chosen one fires its action.

use vstd::prelude::*;
use crate::layouts::Stack;
use crate::containers::{Enum, spec_display_index, spec_overlay_stack};
use crate::events::{self, Event};

verus! {

/// A group member over its default and selected visual states.
#[derive(Debug)]
pub struct Selectable<D> {
    pub layout: Stack,
    pub states: Enum<D>,
    pub id: u128,
    pub group_id: u128,
}

impl<D> Selectable<D> {
    pub open spec fn wf(self) -> bool {
        &&& self.states.wf()
        &&& self.states.entries@.len() >= 1
    }

    /// Builds the member under the given identifiers, selected or not from
    /// the start.
    pub fn with_id(default: D, selected: D, is_selected: bool, id: u128, group_id: u128) -> (r: Self)
        ensures
            r.wf(),
            r.id == id,
            r.group_id == group_id,
    {
        proof {
            reveal_strlit("default");
            reveal_strlit("selected");
        }
        let mut items: Vec<(String, D)> = Vec::new();
        items.push(("default".to_owned(), default));
        items.push(("selected".to_owned(), selected));
        let start = if is_selected { "selected".to_owned() } else { "default".to_owned() };
        Selectable {
            layout: overlay(),
            states: Enum::new(items, start),
            id,
            group_id,
        }
    }

    /// Builds the member under a freshly generated identifier within the
    /// given group.
    pub fn new(default: D, selected: D, is_selected: bool, group_id: u128) -> (r: Self)
        ensures
            r.wf(),
            r.group_id == group_id,
    {
        let id = crate::emitters::fresh_id();
        Selectable::with_id(default, selected, is_selected, id, group_id)
    }

    /// Routes one event. A press of this member announces the choice to
    /// the whole group; a group-wide announcement for this member's group
    /// switches the visual state, and the chosen member fires its action.
    pub fn on_event(&mut self, event: Event) -> (r: (bool, Vec<Event>))
        requires
            old(self).wf(),
        ensures
            final(self).wf(),
            final(self).id == old(self).id,
            final(self).group_id == old(self).group_id,
            match event {
                Event::Button(events::Button::Pressed(true)) => {
                    &&& *final(self) == *old(self)
                    &&& r.0 == false
                    &&& r.1@ == seq![Event::Selectable(events::Selectable::Pressed(
                        old(self).id,
                        old(self).group_id,
                    ))]
                },
                Event::Selectable(events::Selectable::Pressed(pid, pgroup)) => {
                    &&& r.1@ == Seq::<Event>::empty()
                    &&& pgroup == old(self).group_id ==> {
                        &&& r.0 == (pid == old(self).id)
                        &&& final(self).states.spec_only_showing(spec_display_index(
                            old(self).states.entries@,
                            if pid == old(self).id { "selected"@ } else { "default"@ },
                        ))
                    }
                    &&& pgroup != old(self).group_id ==> *final(self) == *old(self) && r.0 == false
                },
                _ => *final(self) == *old(self) && r.0 == false && r.1@ == Seq::<Event>::empty(),
            },
    {
        let mut queue: Vec<Event> = Vec::new();
        match event {
            Event::Button(events::Button::Pressed(true)) => {
                queue.push(Event::Selectable(events::Selectable::Pressed(self.id, self.group_id)));
                proof {
                    assert(queue@ =~= seq![Event::Selectable(events::Selectable::Pressed(
                        self.id,
                        self.group_id,
                    ))]);
                }
                (false, queue)
            },
            Event::Selectable(events::Selectable::Pressed(pid, pgroup)) => {
                if pgroup == self.group_id {
                    let chosen = pid == self.id;
                    let key = if chosen { "selected".to_owned() } else { "default".to_owned() };
                    self.states.display(&key);
                    (chosen, queue)
                } else {
                    (false, queue)
                }
            },
            _ => (false, queue),
        }
    }
}

/// The overlay layout the member places its states in.
fn overlay() -> (r: Stack)
    ensures
        r == spec_overlay_stack(),
{
    Stack(
        crate::layouts::Offset::Start,
        crate::layouts::Offset::Start,
        crate::layouts::Size::Fit,
        crate::layouts::Size::Fit,
        crate::layouts::Padding(0, 0, 0, 0),
    )
}

} // verus!
