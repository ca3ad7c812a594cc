//! The event model: a closed set of event kinds, each defining its own
//! `pass` behaviour — how it forwards (possibly repositioned) copies of
//! itself to a node's children given their rectangles.
//!
//! Pointer events hit-test here: the topmost child whose rectangle holds
//! the pointer claims the position; every other child still receives a copy
//! carrying no position, so hover and release-outside effects can fire.

use vstd::prelude::*;
use crate::layouts::MAX_COORD;

verus! {

/// A child's rectangle in its parent's local space: offset and size.
pub type ChildRect = ((i64, i64), (i64, i64));

/// The states a mouse (or touch) transition reports.
#[derive(Clone, Copy, Debug, PartialEq, Structural)]
pub enum MouseState {
    /// The button went down.
    Pressed,
    /// The pointer moved.
    Moved,
    /// The button came up after a short, small-displacement press: a tap.
    Released,
    /// The button came up after a long hold or a large displacement.
    DragReleased,
    /// The view scrolled; the fields are the horizontal and vertical
    /// amounts.
    Scroll(i64, i64),
}

/// The states a keyboard transition reports.
#[derive(Clone, Copy, Debug, PartialEq, Eq, Structural)]
pub enum KeyboardState {
    Pressed,
    Released,
}

/// A logical key: a named control key or a printable character.
#[derive(Clone, Copy, Debug, PartialEq, Eq, Structural)]
pub enum Key {
    Named(u32),
    Character(char),
}

/// A pointer transition. A node receives `Some(position)` only if the
/// event happened over it; otherwise the copy carries `None`.
#[derive(Clone, Copy, Debug, PartialEq)]
pub struct MouseEvent {
    pub position: Option<(i64, i64)>,
    pub state: MouseState,
}

/// A keyboard transition.
#[derive(Clone, Copy, Debug, PartialEq, Eq, Structural)]
pub struct KeyboardEvent {
    pub key: Key,
    pub state: KeyboardState,
}

/// The per-frame pulse; every node receives it.
#[derive(Clone, Copy, Debug, PartialEq, Eq, Structural)]
pub struct TickEvent;

/// Semantic button states an interaction wrapper synthesizes from pointer
/// input.
#[derive(Clone, Copy, Debug, PartialEq, Eq, Structural)]
pub enum Button {
    Pressed(bool),
    Hover(bool),
}

/// Semantic selection states: a press carrying the item's and its group's
/// identifiers, and the resulting selected flag.
#[derive(Clone, Copy, Debug, PartialEq, Eq, Structural)]
pub enum Selectable {
    Pressed(u128, u128),
    Selected(bool),
}

/// Semantic slider states: where a drag started and where it moved.
#[derive(Clone, Copy, Debug, PartialEq, Structural)]
pub enum Slider {
    Start(i64),
    Moved(i64),
}

/// Semantic text-input states.
#[derive(Clone, Copy, Debug, PartialEq, Eq, Structural)]
pub enum TextInput {
    Hover(bool),
    Focused(bool),
}

/// Asks a scroll layout to move by a delta along its axis.
#[derive(Clone, Copy, Debug, PartialEq, Structural)]
pub enum AdjustScrollEvent {
    Vertical(i64),
    Horizontal(i64),
}

/// Whether a pointer position falls strictly inside a child's rectangle.
pub open spec fn spec_contains(rect: ChildRect, p: (i64, i64)) -> bool {
    &&& p.0 > rect.0.0
    &&& p.0 < rect.0.0 + rect.1.0
    &&& p.1 > rect.0.1
    &&& p.1 < rect.0.1 + rect.1.1
}

/// The child that claims a pointer position: the one latest in the list
/// (topmost) whose rectangle holds it, or `-1` when none does.
pub open spec fn spec_claimant(rects: Seq<ChildRect>, p: (i64, i64)) -> int
    decreases rects.len(),
{
    if rects.len() == 0 {
        -1int
    } else if spec_contains(rects.last(), p) {
        rects.len() - 1
    } else {
        spec_claimant(rects.drop_last(), p)
    }
}

pub(crate) proof fn lemma_claimant_props(rects: Seq<ChildRect>, p: (i64, i64))
    ensures
        -1 <= spec_claimant(rects, p) < rects.len(),
        spec_claimant(rects, p) >= 0 ==> spec_contains(rects[spec_claimant(rects, p)], p),
        forall|i: int| spec_claimant(rects, p) < i < rects.len() ==> !spec_contains(#[trigger] rects[i], p),
    decreases rects.len(),
{
    if rects.len() > 0 && !spec_contains(rects.last(), p) {
        lemma_claimant_props(rects.drop_last(), p);
        let c = spec_claimant(rects, p);
        assert forall|i: int| c < i < rects.len() implies !spec_contains(#[trigger] rects[i], p) by {
            if i < rects.len() - 1 {
                assert(rects.drop_last()[i] == rects[i]);
            }
        }
    }
}

/// The claimant is exactly the index that contains the position while every
/// later index does not.
proof fn lemma_claimant_is(rects: Seq<ChildRect>, p: (i64, i64), c: int)
    requires
        0 <= c < rects.len(),
        spec_contains(rects[c], p),
        forall|i: int| c < i < rects.len() ==> !spec_contains(#[trigger] rects[i], p),
    ensures
        spec_claimant(rects, p) == c,
    decreases rects.len(),
{
    if c < rects.len() - 1 {
        assert(!spec_contains(rects.last(), p));
        assert(rects.drop_last()[c] == rects[c]);
        assert(forall|i: int| c < i < rects.drop_last().len()
            ==> !spec_contains(#[trigger] rects.drop_last()[i], p));
        lemma_claimant_is(rects.drop_last(), p, c);
    }
}

/// All rectangles lie within the coordinate range the arithmetic accepts.
pub open spec fn all_rects_wf(rects: Seq<ChildRect>) -> bool {
    forall|i: int| 0 <= i < rects.len() ==> {
        &&& -MAX_COORD <= (#[trigger] rects[i]).0.0 <= MAX_COORD
        &&& -MAX_COORD <= rects[i].0.1 <= MAX_COORD
        &&& -MAX_COORD <= rects[i].1.0 <= MAX_COORD
        &&& -MAX_COORD <= rects[i].1.1 <= MAX_COORD
    }
}

impl MouseEvent {
    /// Hit-tests the children in reverse order, so the child drawn last
    /// (topmost) claims the position. Exactly the claiming child receives
    /// the position translated into its own space; every other child
    /// receives a copy with no position. Without a position, every child
    /// receives a positionless copy.
    pub fn pass(self, children: &Vec<ChildRect>) -> (r: Vec<Option<MouseEvent>>)
        requires
            all_rects_wf(children@),
            self.position is Some ==> -MAX_COORD <= self.position.unwrap().0 <= MAX_COORD
                && -MAX_COORD <= self.position.unwrap().1 <= MAX_COORD,
        ensures
            r.len() == children.len(),
            forall|i: int| 0 <= i < r.len() ==> (#[trigger] r[i] matches Some(m) && m.state == self.state),
            self.position is None ==> forall|i: int| 0 <= i < r.len()
                ==> ((#[trigger] r[i]) matches Some(m) && m.position is None),
            self.position is Some ==> forall|i: int|
                0 <= i < r.len() && i != spec_claimant(children@, self.position.unwrap())
                    ==> ((#[trigger] r[i]) matches Some(m) && m.position is None),
            self.position is Some && spec_claimant(children@, self.position.unwrap()) >= 0
                ==> (r[spec_claimant(children@, self.position.unwrap())] matches Some(m)
                    && m.position == Some((
                        (self.position.unwrap().0 - children@[spec_claimant(children@, self.position.unwrap())].0.0) as i64,
                        (self.position.unwrap().1 - children@[spec_claimant(children@, self.position.unwrap())].0.1) as i64,
                    ))),
    {
        let n = children.len();
        // Find the topmost child containing the position, if any.
        let mut claimant: Option<usize> = None;
        match self.position {
            None => {},
            Some(p) => {
                let mut k: usize = n;
                while k > 0 && claimant.is_none()
                    invariant
                        0 <= k <= n,
                        n == children@.len(),
                        all_rects_wf(children@),
                        -MAX_COORD <= p.0 <= MAX_COORD,
                        -MAX_COORD <= p.1 <= MAX_COORD,
                        match claimant {
                            None => forall|i: int| k <= i < n
                                ==> !spec_contains(#[trigger] children@[i], p),
                            Some(c) => (c as int) < n
                                && spec_claimant(children@, p) == c as int,
                        },
                    decreases k,
                {
                    k = k - 1;
                    let rect = children[k];
                    if p.0 > rect.0.0 && p.0 < rect.0.0 + rect.1.0
                        && p.1 > rect.0.1 && p.1 < rect.0.1 + rect.1.1 {
                        claimant = Some(k);
                        proof {
                            lemma_claimant_is(children@, p, k as int);
                        }
                    }
                }
                proof {
                    if claimant is None {
                        lemma_claimant_props(children@, p);
                        assert(spec_claimant(children@, p) == -1);
                    }
                }
            },
        }

        let mut r: Vec<Option<MouseEvent>> = Vec::new();
        let mut i: usize = 0;
        while i < n
            invariant
                0 <= i <= n,
                n == children@.len(),
                all_rects_wf(children@),
                self.position is Some ==> -MAX_COORD <= self.position.unwrap().0 <= MAX_COORD
                    && -MAX_COORD <= self.position.unwrap().1 <= MAX_COORD,
                self.position is None ==> claimant is None,
                self.position is Some ==> match claimant {
                    None => spec_claimant(children@, self.position.unwrap()) == -1,
                    Some(c) => spec_claimant(children@, self.position.unwrap()) == c as int && (c as int) < n,
                },
                r@.len() == i,
                forall|j: int| 0 <= j < i ==> (#[trigger] r@[j] matches Some(m) && m.state == self.state),
                forall|j: int| 0 <= j < i && (claimant is None || j != claimant.unwrap() as int)
                    ==> ((#[trigger] r@[j]) matches Some(m) && m.position is None),
                claimant is Some && (claimant.unwrap() as int) < i
                    ==> (r@[claimant.unwrap() as int] matches Some(m) && m.position == Some((
                        (self.position.unwrap().0 - children@[claimant.unwrap() as int].0.0) as i64,
                        (self.position.unwrap().1 - children@[claimant.unwrap() as int].0.1) as i64,
                    ))),
            decreases n - i,
        {
            let position = match (claimant, self.position) {
                (Some(c), Some(p)) if c == i => {
                    let rect = children[i];
                    Some((p.0 - rect.0.0, p.1 - rect.0.1))
                },
                _ => None,
            };
            r.push(Some(MouseEvent { position, state: self.state }));
            i = i + 1;
        }
        r
    }
}

/// One event value of the closed set the pipeline routes.
#[derive(Clone, Copy, Debug, PartialEq)]
pub enum Event {
    Mouse(MouseEvent),
    Keyboard(KeyboardEvent),
    Tick(TickEvent),
    Button(Button),
    Selectable(Selectable),
    Slider(Slider),
    TextInput(TextInput),
    AdjustScroll(AdjustScrollEvent),
}

impl Event {
    /// Whether an event copy is forwarded to every child unchanged: all
    /// non-pointer events broadcast.
    pub open spec fn spec_broadcasts(self) -> bool {
        !(self is Mouse)
    }

    /// Decides, per child, whether and how to forward this event: pointer
    /// events hit-test and translate their position; every other kind is
    /// broadcast to every child unchanged.
    pub fn pass(self, children: &Vec<ChildRect>) -> (r: Vec<Option<Event>>)
        requires
            all_rects_wf(children@),
            self matches Event::Mouse(m) ==> (m.position is Some
                ==> -MAX_COORD <= m.position.unwrap().0 <= MAX_COORD
                    && -MAX_COORD <= m.position.unwrap().1 <= MAX_COORD),
        ensures
            r.len() == children.len(),
            self.spec_broadcasts() ==> forall|i: int| 0 <= i < r.len() ==> #[trigger] r[i] == Some(self),
            self matches Event::Mouse(m) ==> {
                &&& forall|i: int| 0 <= i < r.len()
                    ==> (#[trigger] r[i] matches Some(e) && e matches Event::Mouse(c) && c.state == m.state)
                &&& m.position is None ==> forall|i: int| 0 <= i < r.len()
                    ==> ((#[trigger] r[i]) matches Some(e) && e matches Event::Mouse(c) && c.position is None)
                &&& m.position is Some ==> forall|i: int|
                    0 <= i < r.len() && i != spec_claimant(children@, m.position.unwrap())
                        ==> ((#[trigger] r[i]) matches Some(e) && e matches Event::Mouse(me)
                            && me.position is None)
                &&& (m.position is Some && spec_claimant(children@, m.position.unwrap()) >= 0
                    ==> (r[spec_claimant(children@, m.position.unwrap())] matches Some(e)
                        && e matches Event::Mouse(me)
                        && me.position == Some((
                            (m.position.unwrap().0 - children@[spec_claimant(children@, m.position.unwrap())].0.0) as i64,
                            (m.position.unwrap().1 - children@[spec_claimant(children@, m.position.unwrap())].0.1) as i64,
                        ))))
            },
    {
        match self {
            Event::Mouse(m) => {
                let passed = m.pass(children);
                let mut r: Vec<Option<Event>> = Vec::new();
                let mut i: usize = 0;
                while i < passed.len()
                    invariant
                        0 <= i <= passed@.len(),
                        passed@.len() == children@.len(),
                        r@.len() == i,
                        forall|j: int| 0 <= j < i ==> #[trigger] r@[j] == match passed@[j] {
                            Some(me) => Some(Event::Mouse(me)),
                            None => None::<Event>,
                        },
                    decreases passed@.len() - i,
                {
                    r.push(match passed[i] {
                        Some(me) => Some(Event::Mouse(me)),
                        None => None,
                    });
                    i = i + 1;
                }
                proof {
                    if m.position is Some {
                        lemma_claimant_props(children@, m.position.unwrap());
                    }
                }
                r
            },
            _ => {
                let mut r: Vec<Option<Event>> = Vec::new();
                let mut i: usize = 0;
                while i < children.len()
                    invariant
                        0 <= i <= children@.len(),
                        r@.len() == i,
                        forall|j: int| 0 <= j < i ==> #[trigger] r@[j] == Some(self),
                    decreases children@.len() - i,
                {
                    r.push(Some(self));
                    i = i + 1;
                }
                r
            },
        }
    }
}

} // verus!
