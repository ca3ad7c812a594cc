//! Single-active-child and pass-through containers: a layout paired with a
//! drawable, an optionally shown drawable, a two-way toggle, and a keyed
//! family of drawables showing exactly one member at a time.

use vstd::prelude::*;
use crate::layouts::Stack;

verus! {

/// A container pairing a layout with a drawable element.
#[derive(Debug)]
pub struct Bin<L, D>(pub L, pub D);

impl<L, D> Bin<L, D> {
    pub fn new(layout: L, drawable: D) -> (r: Self)
        ensures
            r.0 == layout,
            r.1 == drawable,
    {
        Bin(layout, drawable)
    }
}

/// A container that optionally displays its item: the item sits in exactly
/// one of two slots, and only the first is drawn.
#[derive(Debug)]
pub struct Opt<D> {
    pub layout: Stack,
    pub shown: Option<D>,
    pub hidden: Option<D>,
}

impl<D> Opt<D> {
    /// The item sits in exactly one slot.
    pub open spec fn wf(self) -> bool {
        (self.shown is Some) <==> (self.hidden is None)
    }

    /// Whether the item is currently displayed.
    pub open spec fn spec_is_showing(self) -> bool {
        self.shown is Some
    }

    /// The item, whichever slot holds it.
    pub open spec fn spec_item(self) -> D
        recommends
            self.wf(),
    {
        if self.shown is Some {
            self.shown.unwrap()
        } else {
            self.hidden.unwrap()
        }
    }

    /// Wraps an item, shown or hidden from the start.
    pub fn new(item: D, display: bool) -> (r: Self)
        ensures
            r.wf(),
            r.spec_is_showing() == display,
            r.spec_item() == item,
            r.layout == spec_overlay_stack(),
    {
        if display {
            Opt { layout: container_stack(), shown: Some(item), hidden: None }
        } else {
            Opt { layout: container_stack(), shown: None, hidden: Some(item) }
        }
    }

    /// Shows or hides the item by moving it between the slots; the item
    /// itself is kept.
    pub fn display(&mut self, display: bool)
        requires
            old(self).wf(),
        ensures
            final(self).wf(),
            final(self).spec_is_showing() == display,
            final(self).spec_item() == old(self).spec_item(),
            final(self).layout == old(self).layout,
    {
        if display {
            if self.shown.is_none() {
                self.shown = self.hidden.take();
            }
        } else {
            if self.hidden.is_none() {
                self.hidden = self.shown.take();
            }
        }
    }

    /// Whether the item is currently displayed.
    pub fn is_showing(&self) -> (r: bool)
        ensures
            r == self.spec_is_showing(),
    {
        self.shown.is_some()
    }

    /// A reference to the item, whichever slot holds it.
    pub fn inner(&self) -> (r: &D)
        requires
            self.wf(),
        ensures
            *r == self.spec_item(),
    {
        match &self.shown {
            Some(item) => item,
            None => match &self.hidden {
                Some(item) => item,
                None => unreached(),
            },
        }
    }
}

/// The overlay layout the containers place their children in: everything
/// at the start, fitted to the children, without padding.
pub open spec fn spec_overlay_stack() -> Stack {
    Stack(
        crate::layouts::Offset::Start,
        crate::layouts::Offset::Start,
        crate::layouts::Size::Fit,
        crate::layouts::Size::Fit,
        crate::layouts::Padding(0int as i64, 0int as i64, 0int as i64, 0int as i64),
    )
}

/// The overlay layout the containers place their children in.
fn container_stack() -> (r: Stack)
    ensures
        r == spec_overlay_stack(),
        r.wf(),
{
    Stack(
        crate::layouts::Offset::Start,
        crate::layouts::Offset::Start,
        crate::layouts::Size::Fit,
        crate::layouts::Size::Fit,
        crate::layouts::Padding(0, 0, 0, 0),
    )
}

/// A container that holds two drawables and displays exactly one of them.
#[derive(Debug)]
pub struct EitherOr<L, R> {
    pub layout: Stack,
    pub left: Opt<L>,
    pub right: Opt<R>,
}

impl<L, R> EitherOr<L, R> {
    /// Exactly one side is displayed.
    pub open spec fn wf(self) -> bool {
        &&& self.left.wf()
        &&& self.right.wf()
        &&& self.left.spec_is_showing() == !self.right.spec_is_showing()
    }

    /// Pairs two drawables, displaying the left one first.
    pub fn new(left: L, right: R) -> (r: Self)
        ensures
            r.wf(),
            r.left.spec_is_showing(),
            r.left.spec_item() == left,
            r.right.spec_item() == right,
    {
        EitherOr {
            layout: container_stack(),
            left: Opt::new(left, true),
            right: Opt::new(right, false),
        }
    }

    /// Displays the left side if asked, the right side otherwise; both
    /// items are kept.
    pub fn display_left(&mut self, display_left: bool)
        requires
            old(self).wf(),
        ensures
            final(self).wf(),
            final(self).left.spec_is_showing() == display_left,
            final(self).right.spec_is_showing() == !display_left,
            final(self).left.spec_item() == old(self).left.spec_item(),
            final(self).right.spec_item() == old(self).right.spec_item(),
            final(self).layout == old(self).layout,
    {
        self.left.display(display_left);
        self.right.display(!display_left);
    }

    /// A reference to the left item.
    pub fn left(&self) -> (r: &L)
        requires
            self.wf(),
        ensures
            *r == self.left.spec_item(),
    {
        self.left.inner()
    }

    /// A reference to the right item.
    pub fn right(&self) -> (r: &R)
        requires
            self.wf(),
        ensures
            *r == self.right.spec_item(),
    {
        self.right.inner()
    }
}

/// A container that holds drawables under string keys and displays exactly
/// one at a time; switching moves items between slots rather than
/// rebuilding them.
#[derive(Debug)]
pub struct Enum<D> {
    pub layout: Stack,
    pub entries: Vec<(String, Opt<D>)>,
    pub current: String,
}

/// The keys of the entries, as sequences of characters.
pub open spec fn spec_keys<D>(entries: Seq<(String, Opt<D>)>) -> Seq<Seq<char>> {
    entries.map_values(|e: (String, Opt<D>)| e.0@)
}

/// The first entry whose key matches, or `-1` when none does.
pub open spec fn spec_find_key<D>(entries: Seq<(String, Opt<D>)>, name: Seq<char>) -> int
    decreases entries.len(),
{
    if entries.len() == 0 {
        -1int
    } else if entries[0].0@ == name {
        0int
    } else {
        let rest = spec_find_key(entries.subrange(1, entries.len() as int), name);
        if rest == -1 {
            -1int
        } else {
            rest + 1
        }
    }
}

/// The index of the entry a display request lands on: the first entry
/// whose key matches, or the first entry when the key is unknown.
pub open spec fn spec_display_index<D>(entries: Seq<(String, Opt<D>)>, name: Seq<char>) -> int {
    if spec_find_key(entries, name) >= 0 {
        spec_find_key(entries, name)
    } else {
        0int
    }
}

proof fn lemma_find_key_at<D>(entries: Seq<(String, Opt<D>)>, name: Seq<char>, i: int)
    requires
        0 <= i < entries.len(),
        entries[i].0@ == name,
        forall|j: int| 0 <= j < i ==> (#[trigger] entries[j]).0@ != name,
    ensures
        spec_find_key(entries, name) == i,
    decreases entries.len(),
{
    if i > 0 {
        let rest = entries.subrange(1, entries.len() as int);
        assert(forall|j: int| 0 <= j < i - 1 ==> (#[trigger] rest[j]).0@ != name);
        assert(rest[i - 1].0@ == name);
        lemma_find_key_at(rest, name, i - 1);
    }
}

proof fn lemma_find_key_none<D>(entries: Seq<(String, Opt<D>)>, name: Seq<char>)
    requires
        forall|j: int| 0 <= j < entries.len() ==> (#[trigger] entries[j]).0@ != name,
    ensures
        spec_find_key(entries, name) == -1,
    decreases entries.len(),
{
    if entries.len() > 0 {
        let rest = entries.subrange(1, entries.len() as int);
        assert(forall|j: int| 0 <= j < rest.len() ==> (#[trigger] rest[j]).0@ != name);
        lemma_find_key_none(rest, name);
    }
}

impl<D> Enum<D> {
    /// Every entry holds its item in exactly one slot. Keys need not be
    /// distinct: a display request lands on the first match.
    pub open spec fn wf(self) -> bool {
        forall|i: int| 0 <= i < self.entries.len() ==> (#[trigger] self.entries[i]).1.wf()
    }

    /// Exactly the entry at `idx` is showing.
    pub open spec fn spec_only_showing(self, idx: int) -> bool {
        forall|i: int| 0 <= i < self.entries.len()
            ==> ((#[trigger] self.entries[i]).1.spec_is_showing() <==> i == idx)
    }

    /// Builds the family from keyed items; the item under `start` (or none,
    /// if the key is unknown) is visible from the start.
    pub fn new(items: Vec<(String, D)>, start: String) -> (r: Self)
        ensures
            r.wf(),
            r.entries.len() == items.len(),
            forall|i: int| 0 <= i < items.len()
                ==> (#[trigger] r.entries[i]).0@ == items[i].0@
                    && r.entries[i].1.spec_item() == items[i].1,
            forall|i: int| 0 <= i < items.len()
                ==> ((#[trigger] r.entries[i]).1.spec_is_showing() <==> items[i].0@ == start@),
            r.current@ == start@,
    {
        let ghost items0 = items@;
        let mut items = items;
        let mut entries: Vec<(String, Opt<D>)> = Vec::new();
        let ghost n = items0.len();
        while items.len() > 0
            invariant
                items@.len() + entries@.len() == n,
                items0.len() == n,
                forall|i: int| 0 <= i < items@.len() ==> #[trigger] items@[i] == items0[entries@.len() + i],
                forall|i: int| 0 <= i < entries@.len()
                    ==> (#[trigger] entries@[i]).0@ == items0[i].0@
                        && entries@[i].1.wf()
                        && entries@[i].1.spec_item() == items0[i].1
                        && (entries@[i].1.spec_is_showing() <==> items0[i].0@ == start@),
            decreases items@.len(),
        {
            let (name, item) = items.remove(0);
            let showing = name.eq(&start);
            entries.push((name, Opt::new(item, showing)));
        }
        Enum { layout: container_stack(), entries, current: start }
    }

    /// Displays only the item under the given name, hiding all others. An
    /// unknown name falls back to the first entry rather than failing.
    pub fn display(&mut self, name: &String)
        requires
            old(self).wf(),
            old(self).entries.len() >= 1,
        ensures
            final(self).wf(),
            final(self).entries.len() == old(self).entries.len(),
            final(self).layout == old(self).layout,
            forall|i: int| 0 <= i < final(self).entries.len()
                ==> (#[trigger] final(self).entries[i]).0@ == old(self).entries[i].0@
                    && final(self).entries[i].1.spec_item() == old(self).entries[i].1.spec_item(),
            final(self).spec_only_showing(spec_display_index(old(self).entries@, name@)),
            final(self).current@
                == old(self).entries[spec_display_index(old(self).entries@, name@)].0@,
    {
        let ghost entries0 = self.entries@;
        // Find the entry the request lands on.
        let mut key_idx: usize = 0;
        let mut found: bool = false;
        let mut i: usize = 0;
        while i < self.entries.len()
            invariant
                0 <= i <= self.entries@.len(),
                self == old(self),
                old(self).wf(),
                !found ==> forall|j: int| 0 <= j < i ==> (#[trigger] self.entries@[j]).0@ != name@,
                found ==> key_idx < i && self.entries@[key_idx as int].0@ == name@,
                found ==> forall|j: int| 0 <= j < key_idx ==> (#[trigger] self.entries@[j]).0@ != name@,
                !found ==> key_idx == 0,
            decreases self.entries@.len() - i,
        {
            if !found {
                let matches_name = self.entries[i].0.eq(name);
                if matches_name {
                    key_idx = i;
                    found = true;
                }
            }
            i = i + 1;
        }
        proof {
            if found {
                lemma_find_key_at(entries0, name@, key_idx as int);
                assert(spec_display_index(entries0, name@) == key_idx as int);
            } else {
                lemma_find_key_none(entries0, name@);
                assert(spec_display_index(entries0, name@) == 0);
            }
        }

        self.current = self.entries[key_idx].0.clone();

        // Move every entry into the right slot.
        let ghost before = self.entries@;
        let mut rebuilt: Vec<(String, Opt<D>)> = Vec::new();
        let mut k: usize = 0;
        while self.entries.len() > 0
            invariant
                before.len() <= usize::MAX,
                rebuilt@.len() + self.entries@.len() == before.len(),
                k == rebuilt@.len(),
                self.layout == old(self).layout,
                self.current@ == before[key_idx as int].0@,
                forall|j: int| 0 <= j < self.entries@.len()
                    ==> #[trigger] self.entries@[j] == before[rebuilt@.len() + j],
                forall|j: int| 0 <= j < before.len() ==> (#[trigger] before[j]).1.wf(),
                (key_idx as int) < before.len(),
                forall|j: int| 0 <= j < rebuilt@.len()
                    ==> (#[trigger] rebuilt@[j]).0@ == before[j].0@
                        && rebuilt@[j].1.wf()
                        && rebuilt@[j].1.spec_item() == before[j].1.spec_item()
                        && (rebuilt@[j].1.spec_is_showing() <==> j == key_idx as int),
            decreases self.entries@.len(),
        {
            let (key, mut opt) = self.entries.remove(0);
            opt.display(k == key_idx);
            rebuilt.push((key, opt));
            k = k + 1;
        }
        self.entries = rebuilt;
    }

    /// The key of the entry currently displayed.
    pub fn current(&self) -> (r: String)
        ensures
            r@ == self.current@,
    {
        self.current.clone()
    }
}

} // verus!
