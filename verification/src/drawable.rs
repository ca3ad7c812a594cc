//! The drawable tree and its per-tick protocol.
//!
//! A node is either a leaf that answers a size request directly, or a
//! container that delegates to a layout strategy and recurses into its
//! children. One tick runs three passes: measure (post-order size
//! aggregation), build (top-down distribution of the allotted space into
//! one area per child), and a flatten of the built tree into absolutely
//! positioned leaf rectangles for the renderer. Event dispatch walks the
//! built geometry: each node's handler maps the incoming event to the
//! events that continue, and the event's own `pass` decides per child
//! whether and how a copy descends.
//!
//! The passes consume the node and hand it back updated: the tree owns its
//! cross-frame layout and handler state, and a pass is a plain value
//! transformation on it.

use vstd::prelude::*;
use crate::layout::{Area, SizeRequest, MAX_DIM};
use crate::layouts::{Stack, Row, Column, Wrap, Scroll, MAX_CHILDREN, all_requests_wf};
use crate::events::{Event, MouseEvent, ChildRect, all_rects_wf, spec_claimant, lemma_claimant_props};
use crate::emitters;

verus! {

/// The layout strategy a container delegates to.
#[derive(Debug)]
pub enum LayoutKind {
    Stack(Stack),
    Row(Row),
    Column(Column),
    Wrap(Wrap),
    Scroll(Scroll),
}

impl LayoutKind {
    pub open spec fn wf(self) -> bool {
        match self {
            LayoutKind::Stack(l) => l.wf(),
            LayoutKind::Row(l) => l.wf(),
            LayoutKind::Column(l) => l.wf(),
            LayoutKind::Wrap(l) => l.wf(),
            LayoutKind::Scroll(l) => l.wf(),
        }
    }

    /// The request this layout reports for the given children requests.
    pub open spec fn spec_request_size(self, children: Seq<SizeRequest>) -> SizeRequest {
        match self {
            LayoutKind::Stack(l) => l.spec_request_size(children),
            LayoutKind::Row(l) => l.spec_request_size(children),
            LayoutKind::Column(l) => l.spec_request_size(children),
            LayoutKind::Wrap(l) => l.spec_request_size(children),
            LayoutKind::Scroll(l) => l.spec_request_size(children),
        }
    }
}

/// The interaction handler a node runs incoming events through.
#[derive(Debug)]
pub enum Handler {
    /// Forward every event unchanged.
    Passive,
    Button(emitters::Button),
    Selectable(emitters::Selectable),
    Slider(emitters::Slider),
    TextInput(emitters::TextInput),
    Scrollable(emitters::Scrollable),
}

/// The handler state after one event: each emitter's own transition.
pub open spec fn spec_handler_next(h: Handler, event: Event) -> Handler {
    match h {
        Handler::Slider(sl) => Handler::Slider(emitters::Slider {
            tracking: emitters::spec_slider_tracking(event, sl.tracking),
        }),
        Handler::TextInput(t) => Handler::TextInput(emitters::TextInput {
            focused: emitters::spec_text_input_focused(event, t.focused),
        }),
        Handler::Scrollable(sc) => Handler::Scrollable(emitters::Scrollable {
            press: match event {
                Event::Mouse(m) => match (m.state, m.position) {
                    (crate::events::MouseState::Pressed, Some(p)) => p,
                    _ => sc.press,
                },
                _ => sc.press,
            },
        }),
        _ => h,
    }
}

/// The events a handler lets continue past its node.
pub open spec fn spec_handler_continue(h: Handler, event: Event, is_mobile: bool) -> Seq<Event> {
    match h {
        Handler::Passive => seq![event],
        Handler::Button(_) => emitters::spec_button_events(event, is_mobile),
        Handler::Selectable(se) => emitters::spec_selectable_continue(event, se.id, se.group_id),
        Handler::Slider(sl) => emitters::spec_slider_continue(event, sl.tracking),
        Handler::TextInput(t) => emitters::spec_text_input_continue(event, t.focused, is_mobile),
        Handler::Scrollable(sc) => emitters::spec_scrollable_continue(event, sc.press),
    }
}

/// The events a handler asks to append to the global queue.
pub open spec fn spec_handler_enqueue(h: Handler, event: Event) -> Seq<Event> {
    match h {
        Handler::Selectable(se) => emitters::spec_selectable_enqueue(event, se.id, se.group_id),
        _ => Seq::empty(),
    }
}

impl Handler {
    /// Runs one event through the handler: the events that continue past
    /// this node, and the events to append to the global queue. Each arm
    /// relays its emitter's own transition table.
    pub fn handle(&mut self, event: Event, is_mobile: bool) -> (r: (Vec<Event>, Vec<Event>))
        ensures
            *final(self) == spec_handler_next(*old(self), event),
            r.0@ == spec_handler_continue(*old(self), event, is_mobile),
            r.1@ == spec_handler_enqueue(*old(self), event),
    {
        match self {
            Handler::Passive => {
                let mut cont: Vec<Event> = Vec::new();
                cont.push(event);
                proof {
                    assert(cont@ =~= seq![event]);
                }
                (cont, Vec::new())
            },
            Handler::Button(h) => h.on_event(event, is_mobile),
            Handler::Selectable(h) => h.on_event(event),
            Handler::Slider(h) => h.on_event(event),
            Handler::TextInput(h) => h.on_event(event, is_mobile),
            Handler::Scrollable(h) => h.on_event(event),
        }
    }
}

/// One node of the drawable tree.
#[derive(Debug)]
pub enum Node {
    /// A leaf primitive: an opaque item handle and the request its content
    /// answers.
    Leaf { item: u64, request: SizeRequest },
    /// A composite: a layout, a handler, and the owned children.
    Container { layout: LayoutKind, handler: Handler, children: Vec<Node> },
}

/// The resolved geometry of one node after a build pass: its allotted
/// size and, per child, the child's area and its own resolved subtree.
#[derive(Debug)]
pub struct SizedNode {
    pub size: (i64, i64),
    pub children: Vec<(Area, SizedNode)>,
}

/// The well-formedness of a tree: layouts well formed, leaf requests well
/// formed, child counts within the supported number, and at least one
/// child wherever the layout demands one (a row's request sums over a
/// non-empty list).
pub open spec fn node_wf(n: Node) -> bool
    decreases n,
{
    match n {
        Node::Leaf { item: _, request } => request.wf(),
        Node::Container { layout, handler: _, children } => {
            &&& layout.wf()
            &&& children.len() <= MAX_CHILDREN
            &&& (layout is Row ==> children.len() >= 1)
            &&& nodes_wf(children@)
        },
    }
}

pub open spec fn nodes_wf(s: Seq<Node>) -> bool
    decreases s,
{
    if s.len() == 0 {
        true
    } else {
        nodes_wf(s.drop_last()) && node_wf(s.last())
    }
}

/// Every element of a well-formed list is well formed.
proof fn lemma_nodes_wf_index(s: Seq<Node>, i: int)
    requires
        nodes_wf(s),
        0 <= i < s.len(),
    ensures
        node_wf(s[i]),
    decreases s,
{
    if i < s.len() - 1 {
        lemma_nodes_wf_index(s.drop_last(), i);
    }
}

/// A pointwise well-formed list is well formed.
proof fn lemma_nodes_wf_build(s: Seq<Node>)
    requires
        forall|i: int| 0 <= i < s.len() ==> node_wf(#[trigger] s[i]),
    ensures
        nodes_wf(s),
    decreases s,
{
    if s.len() > 0 {
        assert(forall|i: int| 0 <= i < s.drop_last().len()
            ==> node_wf(#[trigger] s.drop_last()[i]));
        lemma_nodes_wf_build(s.drop_last());
    }
}

/// The measured request of a node: leaves answer their own, containers
/// fold their children's measures through their layout.
pub open spec fn spec_measure(n: Node) -> SizeRequest
    decreases n,
{
    match n {
        Node::Leaf { item: _, request } => request,
        Node::Container { layout, handler: _, children } => layout.spec_request_size(
            spec_measures(children@),
        ),
    }
}

/// The measures of a list of nodes, in order.
pub open spec fn spec_measures(s: Seq<Node>) -> Seq<SizeRequest>
    decreases s,
{
    if s.len() == 0 {
        Seq::empty()
    } else {
        spec_measures(s.drop_last()).push(spec_measure(s.last()))
    }
}

proof fn lemma_spec_measures_len(s: Seq<Node>)
    ensures
        spec_measures(s).len() == s.len(),
    decreases s,
{
    if s.len() > 0 {
        lemma_spec_measures_len(s.drop_last());
    }
}

proof fn lemma_spec_measures_index(s: Seq<Node>, i: int)
    requires
        0 <= i < s.len(),
    ensures
        spec_measures(s).len() == s.len(),
        spec_measures(s)[i] == spec_measure(s[i]),
    decreases s,
{
    lemma_spec_measures_len(s);
    if i < s.len() - 1 {
        lemma_spec_measures_index(s.drop_last(), i);
    }
}

/// Two trees with the same shape: the same leaves and the same child
/// counts; only handler and layout state may differ.
pub open spec fn same_skeleton(a: Node, b: Node) -> bool
    decreases a,
{
    match (a, b) {
        (Node::Leaf { item: ia, request: ra }, Node::Leaf { item: ib, request: rb }) => ia == ib
            && ra == rb,
        (
            Node::Container { layout: _, handler: _, children: ca },
            Node::Container { layout: _, handler: _, children: cb },
        ) => {
            &&& ca.len() == cb.len()
            &&& forall|i: int| 0 <= i < ca.len() ==> same_skeleton(#[trigger] ca@[i], cb@[i])
        },
        _ => false,
    }
}

/// A resolved geometry that mirrors a tree: one sized subtree per child.
pub open spec fn sized_matches(n: Node, s: SizedNode) -> bool
    decreases n,
{
    match n {
        Node::Leaf { .. } => s.children.len() == 0,
        Node::Container { layout: _, handler: _, children } => {
            &&& s.children.len() == children.len()
            &&& forall|i: int| 0 <= i < children.len()
                ==> sized_matches(#[trigger] children@[i], s.children@[i].1)
        },
    }
}

/// Every area one layout's build pass produces for the given size and
/// children requests, in closed form, kind by kind.
pub open spec fn spec_arrange_areas(
    l: LayoutKind,
    size: (i64, i64),
    reqs: Seq<SizeRequest>,
) -> Seq<Area> {
    match l {
        LayoutKind::Stack(st) => Seq::new(reqs.len(), |i: int| st.spec_area(size, reqs[i])),
        LayoutKind::Row(rw) => crate::layouts::spec_row_areas(rw, size, reqs),
        LayoutKind::Column(cl) => crate::layouts::spec_col_areas(cl, size, reqs),
        LayoutKind::Wrap(w) => w.spec_build(reqs, size.0),
        LayoutKind::Scroll(sc) => Seq::new(reqs.len(), |i: int| sc.spec_area(size, reqs, reqs[i])),
    }
}

/// A resolved geometry that is exactly the arrangement of a tree at a
/// size: each container's child areas are the ones its layout's build
/// produces from the children's measured requests, and each child subtree
/// is in turn the arrangement at its own (range-clamped) allotted size.
/// The tree here is the one the build pass started from: cross-frame
/// layout state advances during the pass, and the areas come from the
/// state it began with.
pub open spec fn arranged(n0: Node, s: SizedNode, size: (i64, i64)) -> bool
    decreases n0,
{
    &&& s.size == size
    &&& match n0 {
        Node::Leaf { .. } => s.children@.len() == 0,
        Node::Container { layout, handler: _, children } => {
            let areas = spec_arrange_areas(layout, size, spec_measures(children@));
            &&& s.children@.len() == children@.len()
            &&& forall|i: int| 0 <= i < children@.len()
                ==> (#[trigger] s.children@[i]).0 == areas[i]
            &&& forall|i: int| 0 <= i < children@.len() ==> arranged(
                #[trigger] children@[i],
                s.children@[i].1,
                spec_clamp_size(areas[i].size),
            )
        },
    }
}

/// Runs one layout's build pass: the areas it distributes, and the layout
/// back (a wrap records the width it saw, a scroll clamps its value).
fn build_areas(l: LayoutKind, size: (i64, i64), reqs: &Vec<SizeRequest>) -> (r: (Vec<Area>, LayoutKind))
    requires
        l.wf(),
        all_requests_wf(reqs@),
        reqs.len() <= MAX_CHILDREN,
        l is Row ==> reqs.len() >= 1,
        -MAX_DIM * 16 <= size.0 <= MAX_DIM * 16,
        -MAX_DIM * 16 <= size.1 <= MAX_DIM * 16,
    ensures
        r.0@ == spec_arrange_areas(l, size, reqs@),
        r.0@.len() == reqs@.len(),
        r.1.wf(),
        r.1 is Row <==> l is Row,
{
    match l {
        LayoutKind::Stack(st) => {
            let a = st.build(size, reqs);
            proof {
                assert(a@ =~= spec_arrange_areas(l, size, reqs@));
            }
            (a, LayoutKind::Stack(st))
        },
        LayoutKind::Row(rw) => {
            let a = rw.build(size, reqs);
            (a, LayoutKind::Row(rw))
        },
        LayoutKind::Column(cl) => {
            let a = cl.build(size, reqs);
            (a, LayoutKind::Column(cl))
        },
        LayoutKind::Wrap(mut w) => {
            let a = w.build(size, reqs);
            (a, LayoutKind::Wrap(w))
        },
        LayoutKind::Scroll(mut sc) => {
            let a = sc.build(size, reqs);
            proof {
                assert(a@ =~= spec_arrange_areas(l, size, reqs@));
            }
            (a, LayoutKind::Scroll(sc))
        },
    }
}

impl Node {
    /// The measure pass: post-order aggregation of size requests. Each
    /// container collects its children's requests and folds them through
    /// its own layout.
    #[verifier::loop_isolation(false)]
    pub fn request_size(&self) -> (r: SizeRequest)
        requires
            node_wf(*self),
        ensures
            r == spec_measure(*self),
            r.wf(),
        decreases *self,
    {
        match self {
            Node::Leaf { item: _, request } => *request,
            Node::Container { layout, handler: _, children } => {
                let mut reqs: Vec<SizeRequest> = Vec::new();
                let mut i: usize = 0;
                while i < children.len()
                    invariant
                        0 <= i <= children@.len(),
                        reqs@.len() == i,
                        forall|j: int| 0 <= j < i ==> #[trigger] reqs@[j] == spec_measure(children@[j])
                            && reqs@[j].wf(),
                    decreases children@.len() - i,
                {
                    proof {
                        lemma_nodes_wf_index(children@, i as int);
                    }
                    let r = children[i].request_size();
                    reqs.push(r);
                    i = i + 1;
                }
                proof {
                    assert forall|j: int| 0 <= j < children@.len() implies
                        #[trigger] spec_measures(children@)[j] == reqs@[j] by {
                        lemma_spec_measures_index(children@, j);
                    }
                    lemma_spec_measures_len(children@);
                    assert(reqs@ =~= spec_measures(children@));
                }
                match layout {
                    LayoutKind::Stack(l) => l.request_size(&reqs),
                    LayoutKind::Row(l) => l.request_size(&reqs),
                    LayoutKind::Column(l) => l.request_size(&reqs),
                    LayoutKind::Wrap(l) => l.request_size(&reqs),
                    LayoutKind::Scroll(l) => l.request_size(&reqs),
                }
            },
        }
    }

    /// Whether the tree is well formed, decided at run time so unverified
    /// callers can test it before entering the verified passes.
    #[verifier::loop_isolation(false)]
    pub fn check_wf(&self) -> (r: bool)
        ensures
            r == node_wf(*self),
        decreases *self,
    {
        match self {
            Node::Leaf { item: _, request } => {
                request.min_width >= 0 && request.min_width <= request.max_width
                    && request.max_width <= MAX_DIM && request.min_height >= 0
                    && request.min_height <= request.max_height && request.max_height <= MAX_DIM
            },
            Node::Container { layout, handler: _, children } => {
                let layout_ok = match layout {
                    LayoutKind::Stack(l) => check_stack_wf(l),
                    LayoutKind::Row(l) => 0 <= l.0 && l.0 <= MAX_DIM && check_offset_wf(&l.1)
                        && check_size_wf(&l.2) && check_padding_wf(&l.3),
                    LayoutKind::Column(l) => 0 <= l.0 && l.0 <= MAX_DIM && check_offset_wf(&l.1)
                        && check_size_wf(&l.2) && check_padding_wf(&l.3),
                    LayoutKind::Wrap(l) => 0 <= l.0 && l.0 <= MAX_DIM && 0 <= l.1 && l.1 <= MAX_DIM
                        && check_offset_wf(&l.2) && check_offset_wf(&l.3) && check_padding_wf(&l.4)
                        && -MAX_DIM * 16 <= l.5 && l.5 <= MAX_DIM * 16,
                    LayoutKind::Scroll(l) => check_offset_wf(&l.offset_x) && check_offset_wf(&l.offset_y)
                        && check_size_wf(&l.size_x) && check_size_wf(&l.size_y)
                        && check_padding_wf(&l.padding)
                        && -crate::layouts::MAX_SCROLL <= l.adjustment
                        && l.adjustment <= crate::layouts::MAX_SCROLL,
                };
                if !layout_ok {
                    return false;
                }
                if children.len() > MAX_CHILDREN {
                    return false;
                }
                if matches!(layout, LayoutKind::Row(_)) && children.len() < 1 {
                    return false;
                }
                let mut i: usize = 0;
                let mut ok = true;
                while i < children.len()
                    invariant
                        0 <= i <= children@.len(),
                        ok == nodes_wf(children@.take(i as int)),
                    decreases children@.len() - i,
                {
                    proof {
                        assert(children@.take(i + 1 as int).drop_last() =~= children@.take(i as int));
                    }
                    if ok {
                        ok = children[i].check_wf();
                    }
                    i = i + 1;
                }
                proof {
                    assert(children@.take(children@.len() as int) =~= children@);
                }
                ok
            },
        }
    }

    /// The arrange pass: given the size the parent allotted, asks the
    /// layout for each child's area and recurses with the child's allotted
    /// size. Cross-frame layout state (a wrap's width cache, a scroll's
    /// clamped value) is carried in the returned tree. The resolved
    /// geometry mirrors the tree: one sized subtree per child.
    #[verifier::loop_isolation(false)]
    #[verifier::rlimit(100)]
    pub fn build(self, size: (i64, i64)) -> (r: (Node, SizedNode))
        requires
            node_wf(self),
            -MAX_DIM * 16 <= size.0 <= MAX_DIM * 16,
            -MAX_DIM * 16 <= size.1 <= MAX_DIM * 16,
        ensures
            node_wf(r.0),
            same_skeleton(self, r.0),
            r.1.size == size,
            sized_matches(r.0, r.1),
            arranged(self, r.1, size),
        decreases self,
    {
        match self {
            Node::Leaf { item, request } => (
                Node::Leaf { item, request },
                SizedNode { size, children: Vec::new() },
            ),
            Node::Container { layout, handler, mut children } => {
                let ghost me = Node::Container { layout, handler, children };
                let ghost layout0 = layout;
                let ghost cs0 = children@;
                let mut reqs: Vec<SizeRequest> = Vec::new();
                let mut i: usize = 0;
                while i < children.len()
                    invariant
                        0 <= i <= children@.len(),
                        children@ == cs0,
                        reqs@.len() == i,
                        forall|j: int| 0 <= j < i ==> (#[trigger] reqs@[j]).wf(),
                        forall|j: int| 0 <= j < i ==> #[trigger] reqs@[j] == spec_measure(cs0[j]),
                    decreases children@.len() - i,
                {
                    proof {
                        lemma_nodes_wf_index(children@, i as int);
                    }
                    let r = children[i].request_size();
                    reqs.push(r);
                    i = i + 1;
                }
                proof {
                    assert forall|j: int| 0 <= j < cs0.len() implies
                        #[trigger] spec_measures(cs0)[j] == reqs@[j] by {
                        lemma_spec_measures_index(cs0, j);
                    }
                    lemma_spec_measures_len(cs0);
                    assert(reqs@ =~= spec_measures(cs0));
                }

                let (areas, layout): (Vec<Area>, LayoutKind) = build_areas(layout, size, &reqs);

                let mut rebuilt: Vec<Node> = Vec::new();
                let mut sized: Vec<(Area, SizedNode)> = Vec::new();
                let mut k: usize = 0;
                while children.len() > 0
                    invariant
                        cs0.len() <= MAX_CHILDREN,
                        nodes_wf(cs0),
                        rebuilt@.len() + children@.len() == cs0.len(),
                        k == rebuilt@.len(),
                        areas@.len() == cs0.len(),
                        areas@ == spec_arrange_areas(layout0, size, spec_measures(cs0)),
                        sized@.len() == k,
                        forall|j: int| 0 <= j < children@.len()
                            ==> #[trigger] children@[j] == cs0[k + j],
                        forall|j: int| 0 <= j < k
                            ==> node_wf(#[trigger] rebuilt@[j])
                                && same_skeleton(cs0[j], rebuilt@[j])
                                && sized_matches(rebuilt@[j], sized@[j].1)
                                && sized@[j].0 == areas@[j],
                        forall|j: int| 0 <= j < k ==> arranged(
                            #[trigger] cs0[j],
                            sized@[j].1,
                            spec_clamp_size(areas@[j].size),
                        ),
                    decreases children@.len(),
                {
                    let child = children.remove(0);
                    proof {
                        assert(child == cs0[k as int]);
                        lemma_nodes_wf_index(cs0, k as int);
                    }
                    let area = areas[k];
                    let child_size = clamp_size(area.size);
                    let (child, sub) = child.build(child_size);
                    rebuilt.push(child);
                    sized.push((area, sub));
                    k = k + 1;
                }
                proof {
                    lemma_nodes_wf_build(rebuilt@);
                }
                let out_node = Node::Container { layout, handler, children: rebuilt };
                let out_sized = SizedNode { size, children: sized };
                proof {
                    let ghost spec_areas = spec_arrange_areas(layout0, size, spec_measures(cs0));
                    assert forall|i: int| 0 <= i < cs0.len() implies
                        (#[trigger] out_sized.children@[i]).0 == spec_areas[i] by {
                        assert(out_sized.children@[i] == sized@[i]);
                        assert(same_skeleton(cs0[i], rebuilt@[i]));
                    }
                    assert forall|i: int| 0 <= i < cs0.len() implies arranged(
                        #[trigger] cs0[i],
                        out_sized.children@[i].1,
                        spec_clamp_size(spec_areas[i].size),
                    ) by {
                        assert(out_sized.children@[i] == sized@[i]);
                    }
                    assert(arranged(me, out_sized, size));
                }
                (out_node, out_sized)
            },
        }
    }
}

fn check_offset_wf(o: &crate::layouts::Offset) -> (r: bool)
    ensures
        r == o.wf(),
{
    match o {
        crate::layouts::Offset::Static(v) => -MAX_DIM * 16 <= *v && *v <= MAX_DIM * 16,
        _ => true,
    }
}

fn check_size_wf(s: &crate::layouts::Size) -> (r: bool)
    ensures
        r == s.wf(),
{
    match s {
        crate::layouts::Size::Static(v) => 0 <= *v && *v <= MAX_DIM,
        _ => true,
    }
}

fn check_padding_wf(p: &crate::layouts::Padding) -> (r: bool)
    ensures
        r == p.wf(),
{
    0 <= p.0 && p.0 <= MAX_DIM && 0 <= p.1 && p.1 <= MAX_DIM && 0 <= p.2 && p.2 <= MAX_DIM
        && 0 <= p.3 && p.3 <= MAX_DIM
}

fn check_stack_wf(l: &Stack) -> (r: bool)
    ensures
        r == l.wf(),
{
    check_offset_wf(&l.0) && check_offset_wf(&l.1) && check_size_wf(&l.2) && check_size_wf(&l.3)
        && check_padding_wf(&l.4)
}

/// An allotted size clamped into the coordinate range a build pass
/// accepts.
pub open spec fn spec_clamp_size(size: (i64, i64)) -> (i64, i64) {
    (
        if size.0 > MAX_DIM * 16 {
            (MAX_DIM * 16) as i64
        } else if size.0 < -MAX_DIM * 16 {
            (-MAX_DIM * 16) as i64
        } else {
            size.0
        },
        if size.1 > MAX_DIM * 16 {
            (MAX_DIM * 16) as i64
        } else if size.1 < -MAX_DIM * 16 {
            (-MAX_DIM * 16) as i64
        } else {
            size.1
        },
    )
}

/// Clamps an allotted size into the coordinate range a build pass accepts.
fn clamp_size(size: (i64, i64)) -> (r: (i64, i64))
    ensures
        r == spec_clamp_size(size),
        -MAX_DIM * 16 <= r.0 <= MAX_DIM * 16,
        -MAX_DIM * 16 <= r.1 <= MAX_DIM * 16,
{
    let w = if size.0 > MAX_DIM * 16 {
        MAX_DIM * 16
    } else if size.0 < -MAX_DIM * 16 {
        -MAX_DIM * 16
    } else {
        size.0
    };
    let h = if size.1 > MAX_DIM * 16 {
        MAX_DIM * 16
    } else if size.1 < -MAX_DIM * 16 {
        -MAX_DIM * 16
    } else {
        size.1
    };
    (w, h)
}

/// Shape equality is transitive.
proof fn lemma_skeleton_trans(a: Node, b: Node, c: Node)
    requires
        same_skeleton(a, b),
        same_skeleton(b, c),
    ensures
        same_skeleton(a, c),
    decreases a,
{
    match (a, b, c) {
        (
            Node::Container { layout: _, handler: _, children: ca },
            Node::Container { layout: _, handler: _, children: cb },
            Node::Container { layout: _, handler: _, children: cc },
        ) => {
            assert forall|i: int| 0 <= i < ca@.len() implies
                same_skeleton(#[trigger] ca@[i], cc@[i]) by {
                lemma_skeleton_trans(ca@[i], cb@[i], cc@[i]);
            }
        },
        _ => {},
    }
}

/// Shape equality is reflexive.
proof fn lemma_skeleton_refl(a: Node)
    ensures
        same_skeleton(a, a),
    decreases a,
{
    match a {
        Node::Container { layout: _, handler: _, children } => {
            assert forall|i: int| 0 <= i < children@.len() implies
                same_skeleton(#[trigger] children@[i], children@[i]) by {
                lemma_skeleton_refl(children@[i]);
            }
        },
        _ => {},
    }
}

/// A geometry that matches one tree matches every tree of the same shape.
proof fn lemma_sized_matches_skeleton(a: Node, b: Node, s: SizedNode)
    requires
        same_skeleton(a, b),
        sized_matches(a, s),
    ensures
        sized_matches(b, s),
    decreases a,
{
    match (a, b) {
        (
            Node::Container { layout: _, handler: _, children: ca },
            Node::Container { layout: _, handler: _, children: cb },
        ) => {
            assert forall|i: int| 0 <= i < cb@.len() implies
                sized_matches(#[trigger] cb@[i], s.children@[i].1) by {
                lemma_sized_matches_skeleton(ca@[i], cb@[i], s.children@[i].1);
            }
        },
        _ => {},
    }
}

/// One coordinate clamped into the range the hit-test arithmetic accepts.
pub open spec fn spec_clamp_coord(x: i64) -> i64 {
    if x > crate::layouts::MAX_COORD {
        crate::layouts::MAX_COORD
    } else if x < -crate::layouts::MAX_COORD {
        (-crate::layouts::MAX_COORD) as i64
    } else {
        x
    }
}

/// Clamps one coordinate into the range the hit-test arithmetic accepts.
fn clamp_coord(x: i64) -> (r: i64)
    ensures
        r == spec_clamp_coord(x),
        -crate::layouts::MAX_COORD <= r <= crate::layouts::MAX_COORD,
{
    if x > crate::layouts::MAX_COORD {
        crate::layouts::MAX_COORD
    } else if x < -crate::layouts::MAX_COORD {
        -crate::layouts::MAX_COORD
    } else {
        x
    }
}

/// A pointer position, if the event carries one, within the hit-test
/// range.
pub open spec fn spec_pos_in_range(e: Event) -> bool {
    match e {
        Event::Mouse(m) => match m.position {
            Some(p) => {
                &&& -crate::layouts::MAX_COORD <= p.0 <= crate::layouts::MAX_COORD
                &&& -crate::layouts::MAX_COORD <= p.1 <= crate::layouts::MAX_COORD
            },
            None => true,
        },
        _ => true,
    }
}

/// A pointer event with its position clamped into the hit-test range; any
/// other event stands as it is.
pub open spec fn spec_clamp_event(e: Event) -> Event {
    match e {
        Event::Mouse(m) => Event::Mouse(MouseEvent {
            position: match m.position {
                Some(p) => Some((spec_clamp_coord(p.0), spec_clamp_coord(p.1))),
                None => None,
            },
            state: m.state,
        }),
        _ => e,
    }
}

/// Clamps a pointer event's position into the hit-test range; any other
/// event is handed back as it is.
fn clamp_event(event: Event) -> (r: Event)
    ensures
        r == spec_clamp_event(event),
        spec_pos_in_range(r),
{
    match event {
        Event::Mouse(m) => Event::Mouse(MouseEvent {
            position: match m.position {
                Some(p) => Some((clamp_coord(p.0), clamp_coord(p.1))),
                None => None,
            },
            state: m.state,
        }),
        _ => event,
    }
}

/// The children's rectangles of a built node, clamped into the hit-test
/// range.
pub open spec fn spec_rect_list(s: SizedNode) -> Seq<ChildRect> {
    Seq::new(s.children@.len(), |k: int| (
        (spec_clamp_coord(s.children@[k].0.offset.0), spec_clamp_coord(s.children@[k].0.offset.1)),
        (spec_clamp_coord(s.children@[k].0.size.0), spec_clamp_coord(s.children@[k].0.size.1)),
    ))
}

/// The children's rectangles of a built node, clamped into the hit-test
/// range.
fn rect_list(sized: &SizedNode) -> (r: Vec<ChildRect>)
    ensures
        r@ == spec_rect_list(*sized),
        r@.len() == sized.children@.len(),
        all_rects_wf(r@),
{
    let mut r: Vec<ChildRect> = Vec::new();
    let mut i: usize = 0;
    while i < sized.children.len()
        invariant
            0 <= i <= sized.children@.len(),
            r@.len() == i,
            all_rects_wf(r@),
            forall|j: int| 0 <= j < i ==> #[trigger] r@[j] == spec_rect_list(*sized)[j],
        decreases sized.children@.len() - i,
    {
        let area = sized.children[i].0;
        let rect = (
            (clamp_coord(area.offset.0), clamp_coord(area.offset.1)),
            (clamp_coord(area.size.0), clamp_coord(area.size.1)),
        );
        let ghost r0 = r@;
        r.push(rect);
        proof {
            assert forall|j: int| 0 <= j < r@.len() implies {
                &&& -crate::layouts::MAX_COORD <= (#[trigger] r@[j]).0.0 <= crate::layouts::MAX_COORD
                &&& -crate::layouts::MAX_COORD <= r@[j].0.1 <= crate::layouts::MAX_COORD
                &&& -crate::layouts::MAX_COORD <= r@[j].1.0 <= crate::layouts::MAX_COORD
                &&& -crate::layouts::MAX_COORD <= r@[j].1.1 <= crate::layouts::MAX_COORD
            } by {
                if j < r@.len() - 1 {
                    assert(r@[j] == r0[j]);
                }
            }
        }
        i = i + 1;
    }
    proof {
        assert(r@ =~= spec_rect_list(*sized));
    }
    r
}

/// What one pass decision hands child `k` for an already-clamped event:
/// non-pointer events broadcast unchanged; a pointer event reaches every
/// child, but only the claimant's copy carries the translated position.
pub open spec fn spec_pass_at(e: Event, rects: Seq<ChildRect>, k: int) -> Option<Event> {
    match e {
        Event::Mouse(m) => match m.position {
            None => Some(Event::Mouse(MouseEvent { position: None, state: m.state })),
            Some(p) => if k == spec_claimant(rects, p) {
                Some(Event::Mouse(MouseEvent {
                    position: Some((
                        (p.0 - rects[k].0.0) as i64,
                        (p.1 - rects[k].0.1) as i64,
                    )),
                    state: m.state,
                }))
            } else {
                Some(Event::Mouse(MouseEvent { position: None, state: m.state }))
            },
        },
        _ => Some(e),
    }
}

/// The handler state after a whole batch of events, in order.
pub open spec fn spec_handler_fold(h: Handler, events: Seq<Event>) -> Handler
    decreases events.len(),
{
    if events.len() == 0 {
        h
    } else {
        spec_handler_fold(spec_handler_next(h, events[0]), events.subrange(1, events.len() as int))
    }
}

/// Everything a handler lets continue for a whole batch, in order.
pub open spec fn spec_conts(h: Handler, events: Seq<Event>, is_mobile: bool) -> Seq<Event>
    decreases events.len(),
{
    if events.len() == 0 {
        Seq::empty()
    } else {
        spec_handler_continue(h, events[0], is_mobile) + spec_conts(
            spec_handler_next(h, events[0]),
            events.subrange(1, events.len() as int),
            is_mobile,
        )
    }
}

/// Everything a handler enqueues for a whole batch, in order.
pub open spec fn spec_enqs(h: Handler, events: Seq<Event>) -> Seq<Event>
    decreases events.len(),
{
    if events.len() == 0 {
        Seq::empty()
    } else {
        spec_handler_enqueue(h, events[0]) + spec_enqs(
            spec_handler_next(h, events[0]),
            events.subrange(1, events.len() as int),
        )
    }
}

/// The batch child `k` receives: per continuing event (clamped), the pass
/// decision's copy, clamped again, kept in order; `None` decisions drop
/// out.
pub open spec fn spec_forwards(conts: Seq<Event>, rects: Seq<ChildRect>, k: int) -> Seq<Event>
    decreases conts.len(),
{
    if conts.len() == 0 {
        Seq::empty()
    } else {
        spec_forwards(conts.drop_last(), rects, k) + (
            match spec_pass_at(spec_clamp_event(conts.last()), rects, k) {
                Some(f) => seq![spec_clamp_event(f)],
                None => Seq::<Event>::empty(),
            }
        )
    }
}

/// The children's outboxes, concatenated in child order.
pub open spec fn spec_flatten_outs(outs: Seq<Seq<Event>>) -> Seq<Event>
    decreases outs.len(),
{
    if outs.len() == 0 {
        Seq::empty()
    } else {
        spec_flatten_outs(outs.drop_last()) + outs.last()
    }
}

/// What delivering a batch of events to a node means: a leaf is untouched
/// and emits nothing; a container folds its handler over the batch, lets
/// the pass decisions distribute every continuing event over the built
/// geometry, and delivers each child its forwarded batch in turn. The
/// outbox is the handler's own enqueues followed by the children's, in
/// order.
pub open spec fn spec_dispatch(
    n0: Node,
    s: SizedNode,
    events: Seq<Event>,
    is_mobile: bool,
    n1: Node,
    out: Seq<Event>,
) -> bool
    decreases n0,
{
    match n0 {
        Node::Leaf { .. } => n1 == n0 && out == Seq::<Event>::empty(),
        Node::Container { layout: l0, handler: h0, children: c0 } => match n1 {
            Node::Container { layout: l1, handler: h1, children: c1 } => {
                &&& l1 == l0
                &&& h1 == spec_handler_fold(h0, events)
                &&& c1@.len() == c0@.len()
                &&& exists|outs: Seq<Seq<Event>>| {
                    &&& #[trigger] outs.len() == c0@.len()
                    &&& (forall|k: int| 0 <= k < c0@.len() ==> spec_dispatch(
                        #[trigger] c0@[k],
                        s.children@[k].1,
                        spec_forwards(spec_conts(h0, events, is_mobile), spec_rect_list(s), k),
                        is_mobile,
                        c1@[k],
                        outs[k],
                    ))
                    &&& out == spec_enqs(h0, events) + spec_flatten_outs(outs)
                }
            },
            _ => false,
        },
    }
}

/// Packaging the container case: a result with the folded handler and a
/// child-by-child decomposition delivers the batch.
proof fn lemma_dispatch_intro(
    me: Node,
    s: SizedNode,
    events: Seq<Event>,
    is_mobile: bool,
    result: Node,
    out: Seq<Event>,
    outs: Seq<Seq<Event>>,
)
    requires
        ({
            &&& me matches Node::Container { layout: l0, handler: h0, children: c0 }
            &&& result matches Node::Container { layout: l1, handler: h1, children: c1 }
            &&& l1 == l0
            &&& h1 == spec_handler_fold(h0, events)
            &&& c1@.len() == c0@.len()
            &&& outs.len() == c0@.len()
            &&& (forall|k: int| 0 <= k < c0@.len() ==> spec_dispatch(
                #[trigger] c0@[k],
                s.children@[k].1,
                spec_forwards(spec_conts(h0, events, is_mobile), spec_rect_list(s), k),
                is_mobile,
                c1@[k],
                outs[k],
            ))
            &&& out == spec_enqs(h0, events) + spec_flatten_outs(outs)
        }),
    ensures
        spec_dispatch(me, s, events, is_mobile, result, out),
{
    match (me, result) {
        (
            Node::Container { layout: l0, handler: h0, children: c0 },
            Node::Container { layout: l1, handler: h1, children: c1 },
        ) => {
            assert(outs.len() == c0@.len());
        },
        _ => {
            assert(false);
        },
    }
}

impl Node {
    /// Delivers one event to this node: the handler runs first, and each
    /// event it lets continue is hit-tested against the built geometry, so
    /// that per child a possibly repositioned copy descends — re-evaluated
    /// at every level of the tree. The events every handler in the subtree
    /// asked to enqueue come back as the outbox: a node's own enqueues
    /// first, then each child subtree's, in order.
    pub fn event(self, sized: &SizedNode, event: Event, is_mobile: bool) -> (r: (Node, Vec<Event>))
        requires
            node_wf(self),
            sized_matches(self, *sized),
        ensures
            node_wf(r.0),
            same_skeleton(self, r.0),
            sized_matches(r.0, *sized),
            spec_dispatch(self, *sized, seq![event], is_mobile, r.0, r.1@),
    {
        let mut events: Vec<Event> = Vec::new();
        events.push(event);
        proof {
            assert(events@ =~= seq![event]);
        }
        self.event_list(sized, events, is_mobile)
    }

    /// Delivers a batch of events to this node in order, as
    /// [`spec_dispatch`] describes.
    #[verifier::loop_isolation(false)]
    #[verifier::rlimit(100)]
    fn event_list(self, sized: &SizedNode, events: Vec<Event>, is_mobile: bool) -> (r: (Node, Vec<Event>))
        requires
            node_wf(self),
            sized_matches(self, *sized),
        ensures
            node_wf(r.0),
            same_skeleton(self, r.0),
            sized_matches(r.0, *sized),
            spec_dispatch(self, *sized, events@, is_mobile, r.0, r.1@),
        decreases self,
    {
        proof {
            lemma_skeleton_refl(self);
        }
        match self {
            Node::Leaf { item, request } => (Node::Leaf { item, request }, Vec::new()),
            Node::Container { layout, mut handler, mut children } => {
                let ghost me = Node::Container { layout, handler, children };
                let ghost cs0 = children@;
                let ghost h0 = handler;

                // Fold the handler over the batch, collecting what
                // continues and what is enqueued.
                let mut conts: Vec<Event> = Vec::new();
                let mut outbox: Vec<Event> = Vec::new();
                proof {
                    assert(events@.subrange(0, events@.len() as int) =~= events@);
                    assert(Seq::<Event>::empty() + spec_conts(h0, events@, is_mobile)
                        =~= spec_conts(h0, events@, is_mobile));
                    assert(Seq::<Event>::empty() + spec_enqs(h0, events@)
                        =~= spec_enqs(h0, events@));
                }
                let mut i: usize = 0;
                while i < events.len()
                    invariant
                        0 <= i <= events@.len(),
                        spec_handler_fold(handler, events@.subrange(i as int, events@.len() as int))
                            == spec_handler_fold(h0, events@),
                        conts@ + spec_conts(handler, events@.subrange(i as int, events@.len() as int), is_mobile)
                            == spec_conts(h0, events@, is_mobile),
                        outbox@ + spec_enqs(handler, events@.subrange(i as int, events@.len() as int))
                            == spec_enqs(h0, events@),
                    decreases events@.len() - i,
                {
                    let ghost rest = events@.subrange(i as int, events@.len() as int);
                    let ghost h0_step = handler;
                    proof {
                        assert(rest[0] == events@[i as int]);
                        assert(rest.subrange(1, rest.len() as int)
                            =~= events@.subrange(i + 1 as int, events@.len() as int));
                    }
                    let (c, q) = handler.handle(events[i], is_mobile);
                    let ghost conts_before = conts@;
                    let mut j: usize = 0;
                    while j < c.len()
                        invariant
                            0 <= j <= c@.len(),
                            conts@ == conts_before + c@.take(j as int),
                        decreases c@.len() - j,
                    {
                        proof {
                            assert(c@.take(j + 1 as int)
                                =~= c@.take(j as int).push(c@[j as int]));
                        }
                        conts.push(c[j]);
                        j = j + 1;
                    }
                    let ghost outbox_before = outbox@;
                    let mut j: usize = 0;
                    while j < q.len()
                        invariant
                            0 <= j <= q@.len(),
                            outbox@ == outbox_before + q@.take(j as int),
                        decreases q@.len() - j,
                    {
                        proof {
                            assert(q@.take(j + 1 as int)
                                =~= q@.take(j as int).push(q@[j as int]));
                        }
                        outbox.push(q[j]);
                        j = j + 1;
                    }
                    proof {
                        assert(c@.take(c@.len() as int) =~= c@);
                        assert(q@.take(q@.len() as int) =~= q@);
                        assert(conts@ =~= conts_before + c@);
                        assert(outbox@ =~= outbox_before + q@);
                        assert((conts_before + c@) + spec_conts(
                            spec_handler_next(h0_step, events@[i as int]),
                            events@.subrange(i + 1 as int, events@.len() as int),
                            is_mobile,
                        ) =~= conts_before + (c@ + spec_conts(
                            spec_handler_next(h0_step, events@[i as int]),
                            events@.subrange(i + 1 as int, events@.len() as int),
                            is_mobile,
                        )));
                        assert((outbox_before + q@) + spec_enqs(
                            spec_handler_next(h0_step, events@[i as int]),
                            events@.subrange(i + 1 as int, events@.len() as int),
                        ) =~= outbox_before + (q@ + spec_enqs(
                            spec_handler_next(h0_step, events@[i as int]),
                            events@.subrange(i + 1 as int, events@.len() as int),
                        )));
                    }
                    i = i + 1;
                }
                proof {
                    assert(events@.subrange(events@.len() as int, events@.len() as int)
                        =~= Seq::<Event>::empty());
                    assert(conts@ + Seq::<Event>::empty() =~= conts@);
                    assert(outbox@ + Seq::<Event>::empty() =~= outbox@);
                }
                let ghost conts_all = conts@;
                let ghost enq_all = outbox@;

                let rects = rect_list(sized);

                // Per continuing event, whether and how a copy descends to
                // each child.
                let mut passes: Vec<Vec<Option<Event>>> = Vec::new();
                let mut e: usize = 0;
                while e < conts.len()
                    invariant
                        0 <= e <= conts@.len(),
                        passes@.len() == e,
                        forall|j: int, kk: int| 0 <= j < e && 0 <= kk < cs0.len()
                            ==> (#[trigger] passes@[j]@[kk]) == spec_pass_at(
                                spec_clamp_event(conts@[j]),
                                rects@,
                                kk,
                            ),
                        forall|j: int| 0 <= j < e ==> (#[trigger] passes@[j])@.len() == cs0.len(),
                    decreases conts@.len() - e,
                {
                    let ev = clamp_event(conts[e]);
                    let passed = ev.pass(&rects);
                    proof {
                        assert forall|kk: int| 0 <= kk < cs0.len() implies
                            #[trigger] passed@[kk] == spec_pass_at(ev, rects@, kk) by {
                            match ev {
                                Event::Mouse(m) => {
                                    match m.position {
                                        Some(p) => {
                                            lemma_claimant_props(rects@, p);
                                        },
                                        None => {},
                                    }
                                },
                                _ => {},
                            }
                        }
                    }
                    passes.push(passed);
                    e = e + 1;
                }

                // Deliver each child its forwarded batch.
                let mut rebuilt: Vec<Node> = Vec::new();
                let ghost mut outs: Seq<Seq<Event>> = Seq::empty();
                let mut k: usize = 0;
                while children.len() > 0
                    invariant
                        rebuilt@.len() + children@.len() == cs0.len(),
                        k == rebuilt@.len(),
                        nodes_wf(cs0),
                        sized.children@.len() == cs0.len(),
                        forall|j: int| 0 <= j < cs0.len()
                            ==> sized_matches(#[trigger] cs0[j], sized.children@[j].1),
                        forall|j: int| 0 <= j < children@.len()
                            ==> #[trigger] children@[j] == cs0[k + j],
                        passes@.len() == conts_all.len(),
                        forall|j: int, kk: int| 0 <= j < conts_all.len() && 0 <= kk < cs0.len()
                            ==> (#[trigger] passes@[j]@[kk]) == spec_pass_at(
                                spec_clamp_event(conts_all[j]),
                                rects@,
                                kk,
                            ),
                        forall|j: int| 0 <= j < passes@.len()
                            ==> (#[trigger] passes@[j])@.len() == cs0.len(),
                        rects@ == spec_rect_list(*sized),
                        forall|j: int| 0 <= j < k
                            ==> node_wf(#[trigger] rebuilt@[j])
                                && same_skeleton(cs0[j], rebuilt@[j]),
                        outs.len() == k,
                        forall|j: int| 0 <= j < k ==> spec_dispatch(
                            #[trigger] cs0[j],
                            sized.children@[j].1,
                            spec_forwards(conts_all, rects@, j),
                            is_mobile,
                            rebuilt@[j],
                            outs[j],
                        ),
                        outbox@ == enq_all + spec_flatten_outs(outs),
                    decreases children@.len(),
                {
                    let child = children.remove(0);
                    proof {
                        assert(child == cs0[k as int]);
                        lemma_nodes_wf_index(cs0, k as int);
                    }

                    // The batch the pass decisions forward to this child.
                    let mut forwarded: Vec<Event> = Vec::new();
                    let mut e: usize = 0;
                    while e < passes.len()
                        invariant
                            0 <= e <= passes@.len(),
                            (k as int) < cs0.len(),
                            passes@.len() == conts_all.len(),
                            forall|j: int, kk: int| 0 <= j < conts_all.len() && 0 <= kk < cs0.len()
                                ==> (#[trigger] passes@[j]@[kk]) == spec_pass_at(
                                    spec_clamp_event(conts_all[j]),
                                    rects@,
                                    kk,
                                ),
                            forall|j: int| 0 <= j < passes@.len()
                                ==> (#[trigger] passes@[j])@.len() == cs0.len(),
                            forwarded@ == spec_forwards(conts_all.take(e as int), rects@, k as int),
                        decreases passes@.len() - e,
                    {
                        proof {
                            assert(conts_all.take(e + 1 as int).drop_last()
                                =~= conts_all.take(e as int));
                            assert(conts_all.take(e + 1 as int).last() == conts_all[e as int]);
                        }
                        match &passes[e][k] {
                            Some(ce) => {
                                forwarded.push(clamp_event(*ce));
                            },
                            None => {},
                        }
                        e = e + 1;
                    }
                    proof {
                        assert(conts_all.take(conts_all.len() as int) =~= conts_all);
                    }

                    let (child2, out2) = child.event_list(&sized.children[k].1, forwarded, is_mobile);
                    let ghost rebuilt_before = rebuilt@;
                    let ghost outs_before = outs;
                    rebuilt.push(child2);

                    let ghost outbox_before = outbox@;
                    let mut o: usize = 0;
                    while o < out2.len()
                        invariant
                            0 <= o <= out2@.len(),
                            outbox@ == outbox_before + out2@.take(o as int),
                        decreases out2@.len() - o,
                    {
                        proof {
                            assert(out2@.take(o + 1 as int)
                                =~= out2@.take(o as int).push(out2@[o as int]));
                        }
                        outbox.push(out2[o]);
                        o = o + 1;
                    }
                    proof {
                        assert(out2@.take(out2@.len() as int) =~= out2@);
                        outs = outs.push(out2@);
                        assert(outs.drop_last() =~= outs_before);
                        assert(outs.last() == out2@);
                        assert(rebuilt@.last() == child2);
                        assert(spec_dispatch(
                            cs0[k as int],
                            sized.children@[k as int].1,
                            spec_forwards(conts_all, rects@, k as int),
                            is_mobile,
                            child2,
                            out2@,
                        ));
                        assert forall|j: int| 0 <= j < k + 1 implies spec_dispatch(
                            #[trigger] cs0[j],
                            sized.children@[j].1,
                            spec_forwards(conts_all, rects@, j),
                            is_mobile,
                            rebuilt@[j],
                            outs[j],
                        ) by {
                            if j < k {
                                assert(rebuilt@[j] == rebuilt_before[j]);
                                assert(outs[j] == outs_before[j]);
                            }
                        }
                        assert(spec_flatten_outs(outs)
                            == spec_flatten_outs(outs_before) + out2@);
                        assert(outbox@ =~= enq_all + spec_flatten_outs(outs));
                    }
                    k = k + 1;
                }
                proof {
                    lemma_nodes_wf_build(rebuilt@);
                }
                let result = Node::Container { layout, handler, children: rebuilt };
                proof {
                    assert(same_skeleton(me, result));
                    lemma_sized_matches_skeleton(me, result, *sized);
                    assert(conts_all == spec_conts(h0, events@, is_mobile));
                    assert(enq_all == spec_enqs(h0, events@));
                    assert(handler == spec_handler_fold(h0, events@));
                    assert(rebuilt@.len() == cs0.len());
                    assert(outbox@ == spec_enqs(h0, events@) + spec_flatten_outs(outs));
                    lemma_dispatch_intro(me, *sized, events@, is_mobile, result, outbox@, outs);
                }
                (result, outbox)
            },
        }
    }
}

/// The root-level hit-test rectangle: the whole window.
pub open spec fn spec_window(s: SizedNode) -> Seq<ChildRect> {
    seq![(
        (0int as i64, 0int as i64),
        (spec_clamp_coord(s.size.0), spec_clamp_coord(s.size.1)),
    )]
}

/// One drain step: the front event is clamped and hit-tested against the
/// window; a copy that reaches the root is delivered through the tree and
/// everything enqueued goes to the back of the queue, while a copy that
/// misses leaves the tree alone.
pub open spec fn spec_drain_step(
    r0: Node,
    s: SizedNode,
    q0: Seq<Event>,
    is_mobile: bool,
    r1: Node,
    q1: Seq<Event>,
) -> bool {
    &&& q0.len() > 0
    &&& match spec_pass_at(spec_clamp_event(q0[0]), spec_window(s), 0) {
        None => r1 == r0 && q1 == q0.subrange(1, q0.len() as int),
        Some(f) => exists|out: Seq<Event>| {
            &&& #[trigger] out.len() >= 0
            &&& spec_dispatch(r0, s, seq![spec_clamp_event(f)], is_mobile, r1, out)
            &&& q1 == q0.subrange(1, q0.len() as int) + out
        },
    }
}

/// A drain of `used` steps: the chain of tree and queue states a drain
/// passes through, each consecutive pair one [`spec_drain_step`].
pub open spec fn spec_drain_trace(
    root0: Node,
    s: SizedNode,
    queue0: Seq<Event>,
    is_mobile: bool,
    roots: Seq<Node>,
    queues: Seq<Seq<Event>>,
    used: int,
) -> bool {
    &&& 0 <= used
    &&& roots.len() == used + 1
    &&& queues.len() == used + 1
    &&& roots[0] == root0
    &&& queues[0] == queue0
    &&& forall|t: int| 0 <= t < used ==> #[trigger] spec_drain_step(
        roots[t],
        s,
        queues[t],
        is_mobile,
        roots[t + 1],
        queues[t + 1],
    )
}

/// Drains a FIFO event queue against a built tree, one event at a time:
/// the event is hit-tested against the root rectangle, delivered through
/// the tree, and everything the handlers enqueued is appended to the queue
/// before the next event is popped. At most `fuel` events are processed,
/// so a handler chain that feeds itself cannot spin forever; the queue
/// comes back empty unless the fuel ran out. A generous fuel renders the
/// usual "queue fully drained each tick" discipline: termination demands
/// some bound, and a well-behaved handler set never reaches it.
#[verifier::loop_isolation(false)]
#[verifier::rlimit(100)]
pub fn drain(root: Node, sized: &SizedNode, queue: Vec<Event>, is_mobile: bool, fuel: u64) -> (r: (Node, Vec<Event>, u64))
    requires
        node_wf(root),
        sized_matches(root, *sized),
    ensures
        node_wf(r.0),
        same_skeleton(root, r.0),
        r.2 <= fuel,
        r.1@.len() == 0 || r.2 == fuel,
        exists|roots: Seq<Node>, queues: Seq<Seq<Event>>| {
            &&& #[trigger] spec_drain_trace(root, *sized, queue@, is_mobile, roots, queues, r.2 as int)
            &&& roots[r.2 as int] == r.0
            &&& queues[r.2 as int] == r.1@
        },
{
    let ghost root0 = root;
    let ghost queue0 = queue@;
    let mut root = root;
    let mut queue = queue;
    let mut used: u64 = 0;
    let ghost mut roots: Seq<Node> = seq![root0];
    let ghost mut queues: Seq<Seq<Event>> = seq![queue0];
    proof {
        lemma_skeleton_refl(root0);
        assert(spec_drain_trace(root0, *sized, queue0, is_mobile, roots, queues, 0));
    }
    while queue.len() > 0 && used < fuel
        invariant
            node_wf(root),
            same_skeleton(root0, root),
            sized_matches(root, *sized),
            used <= fuel,
            roots.len() == used + 1,
            queues.len() == used + 1,
            roots[used as int] == root,
            queues[used as int] == queue@,
            spec_drain_trace(root0, *sized, queue0, is_mobile, roots, queues, used as int),
        decreases fuel - used,
    {
        let ghost step_root = root;
        let ghost step_queue = queue@;
        let ev = queue.remove(0);
        let ev = clamp_event(ev);
        let mut window: Vec<ChildRect> = Vec::new();
        window.push((
            (0, 0),
            (clamp_coord(sized.size.0), clamp_coord(sized.size.1)),
        ));
        proof {
            assert(window@ =~= spec_window(*sized));
        }
        let passed = ev.pass(&window);
        proof {
            assert forall|kk: int| 0 <= kk < 1 implies
                #[trigger] passed@[kk] == spec_pass_at(ev, window@, kk) by {
                match ev {
                    Event::Mouse(m) => {
                        match m.position {
                            Some(p) => {
                                lemma_claimant_props(window@, p);
                            },
                            None => {},
                        }
                    },
                    _ => {},
                }
            }
            assert(passed@[0] == spec_pass_at(spec_clamp_event(step_queue[0]), spec_window(*sized), 0));
        }
        match &passed[0] {
            Some(ev) => {
                let ev = clamp_event(*ev);
                let ghost before = root;
                let (root2, out) = root.event(sized, ev, is_mobile);
                proof {
                    lemma_skeleton_trans(root0, before, root2);
                }
                root = root2;
                let ghost queue_mid = queue@;
                let mut o: usize = 0;
                while o < out.len()
                    invariant
                        0 <= o <= out@.len(),
                        queue@ == queue_mid + out@.take(o as int),
                    decreases out@.len() - o,
                {
                    proof {
                        assert(out@.take(o + 1 as int)
                            =~= out@.take(o as int).push(out@[o as int]));
                    }
                    queue.push(out[o]);
                    o = o + 1;
                }
                proof {
                    assert(out@.take(out@.len() as int) =~= out@);
                    assert(queue@ =~= step_queue.subrange(1, step_queue.len() as int) + out@);
                    assert(out@.len() >= 0);
                    assert(spec_dispatch(
                        step_root,
                        *sized,
                        seq![ev],
                        is_mobile,
                        root,
                        out@,
                    ));
                    assert(spec_drain_step(step_root, *sized, step_queue, is_mobile, root, queue@));
                }
            },
            None => {
                proof {
                    assert(queue@ =~= step_queue.subrange(1, step_queue.len() as int));
                    assert(spec_drain_step(step_root, *sized, step_queue, is_mobile, root, queue@));
                }
            },
        }
        proof {
            let ghost roots_before = roots;
            let ghost queues_before = queues;
            roots = roots.push(root);
            queues = queues.push(queue@);
            assert forall|t: int| 0 <= t < used + 1 implies #[trigger] spec_drain_step(
                roots[t],
                *sized,
                queues[t],
                is_mobile,
                roots[t + 1],
                queues[t + 1],
            ) by {
                if t < used {
                    assert(roots[t] == roots_before[t]);
                    assert(roots[t + 1] == roots_before[t + 1]);
                    assert(queues[t] == queues_before[t]);
                    assert(queues[t + 1] == queues_before[t + 1]);
                } else {
                    assert(roots[t] == step_root);
                    assert(queues[t] == step_queue);
                    assert(roots[t + 1] == root);
                    assert(queues[t + 1] == queue@);
                }
            }
        }
        used = used + 1;
    }
    proof {
        assert(spec_drain_trace(root0, *sized, queue0, is_mobile, roots, queues, used as int));
        assert(roots[used as int] == root);
        assert(queues[used as int] == queue@);
    }
    (root, queue, used)
}

/// Saturating addition, used when accumulating absolute offsets down the
/// tree: coordinates far outside any screen stay at the range edge.
fn sat_add(a: i64, b: i64) -> (r: i64)
    ensures
        r == spec_sat_add(a, b),
{
    let wide = (a as i128) + (b as i128);
    if wide > i64::MAX as i128 {
        i64::MAX
    } else if wide < i64::MIN as i128 {
        i64::MIN
    } else {
        wide as i64
    }
}

pub open spec fn spec_sat_add(a: i64, b: i64) -> i64 {
    if a + b > i64::MAX {
        i64::MAX
    } else if a + b < i64::MIN {
        i64::MIN
    } else {
        (a + b) as i64
    }
}

/// Saturating subtraction, for the extent of a rectangle overlap.
fn sat_sub(a: i64, b: i64) -> (r: i64)
    ensures
        r == spec_sat_sub(a, b),
{
    let wide = (a as i128) - (b as i128);
    if wide > i64::MAX as i128 {
        i64::MAX
    } else if wide < i64::MIN as i128 {
        i64::MIN
    } else {
        wide as i64
    }
}

pub open spec fn spec_sat_sub(a: i64, b: i64) -> i64 {
    if a - b > i64::MAX {
        i64::MAX
    } else if a - b < i64::MIN {
        i64::MIN
    } else {
        (a - b) as i64
    }
}

/// The overlap of two rectangles, with saturating coordinate arithmetic;
/// an empty overlap has a non-positive width or height.
pub open spec fn spec_intersect(a: ChildRect, b: ChildRect) -> ChildRect {
    let x0 = if a.0.0 >= b.0.0 { a.0.0 } else { b.0.0 };
    let y0 = if a.0.1 >= b.0.1 { a.0.1 } else { b.0.1 };
    let ax1 = spec_sat_add(a.0.0, a.1.0);
    let bx1 = spec_sat_add(b.0.0, b.1.0);
    let ay1 = spec_sat_add(a.0.1, a.1.1);
    let by1 = spec_sat_add(b.0.1, b.1.1);
    let x1 = if ax1 <= bx1 { ax1 } else { bx1 };
    let y1 = if ay1 <= by1 { ay1 } else { by1 };
    ((x0, y0), (spec_sat_sub(x1, x0), spec_sat_sub(y1, y0)))
}

/// Whether a rectangle has any visible extent.
pub open spec fn spec_visible(r: ChildRect) -> bool {
    r.1.0 > 0 && r.1.1 > 0
}

fn intersect(a: ChildRect, b: ChildRect) -> (r: ChildRect)
    ensures
        r == spec_intersect(a, b),
{
    let x0 = if a.0.0 >= b.0.0 { a.0.0 } else { b.0.0 };
    let y0 = if a.0.1 >= b.0.1 { a.0.1 } else { b.0.1 };
    let ax1 = sat_add(a.0.0, a.1.0);
    let bx1 = sat_add(b.0.0, b.1.0);
    let ay1 = sat_add(a.0.1, a.1.1);
    let by1 = sat_add(b.0.1, b.1.1);
    let x1 = if ax1 <= bx1 { ax1 } else { bx1 };
    let y1 = if ay1 <= by1 { ay1 } else { by1 };
    ((x0, y0), (sat_sub(x1, x0), sat_sub(y1, y0)))
}

/// The flat draw list of a built tree: one absolutely positioned rectangle
/// per visible leaf, carrying the leaf's item handle, in drawing
/// (pre-)order. Each level narrows the accumulated visible rectangle by
/// its own area; a leaf with no visible extent is culled.
pub open spec fn spec_flatten(n: Node, s: SizedNode, origin: (i64, i64), clip: ChildRect) -> Seq<(u64, ChildRect)>
    decreases n,
{
    match n {
        Node::Leaf { item, request: _ } => if spec_visible(spec_intersect(clip, (origin, s.size))) {
            seq![(item, (origin, s.size))]
        } else {
            Seq::empty()
        },
        Node::Container { layout: _, handler: _, children } => spec_flatten_list(
            children@,
            s.children@,
            origin,
            clip,
        ),
    }
}

pub open spec fn spec_flatten_list(
    cs: Seq<Node>,
    ss: Seq<(Area, SizedNode)>,
    origin: (i64, i64),
    clip: ChildRect,
) -> Seq<(u64, ChildRect)>
    decreases cs,
{
    if cs.len() == 0 || cs.len() != ss.len() {
        Seq::empty()
    } else {
        let last = ss.last();
        let sub_origin = (
            spec_sat_add(origin.0, last.0.offset.0),
            spec_sat_add(origin.1, last.0.offset.1),
        );
        spec_flatten_list(cs.drop_last(), ss.drop_last(), origin, clip) + spec_flatten(
            cs.last(),
            last.1,
            sub_origin,
            spec_intersect(clip, (sub_origin, last.1.size)),
        )
    }
}

proof fn lemma_flatten_list_take(
    cs: Seq<Node>,
    ss: Seq<(Area, SizedNode)>,
    origin: (i64, i64),
    clip: ChildRect,
    k: int,
)
    requires
        cs.len() == ss.len(),
        0 <= k < cs.len(),
    ensures
        spec_flatten_list(cs.take(k + 1), ss.take(k + 1), origin, clip) == spec_flatten_list(
            cs.take(k),
            ss.take(k),
            origin,
            clip,
        ) + spec_flatten(
            cs[k],
            ss[k].1,
            (spec_sat_add(origin.0, ss[k].0.offset.0), spec_sat_add(origin.1, ss[k].0.offset.1)),
            spec_intersect(clip, (
                (spec_sat_add(origin.0, ss[k].0.offset.0), spec_sat_add(origin.1, ss[k].0.offset.1)),
                ss[k].1.size,
            )),
        ),
{
    assert(cs.take(k + 1).drop_last() =~= cs.take(k));
    assert(ss.take(k + 1).drop_last() =~= ss.take(k));
    assert(cs.take(k + 1).last() == cs[k]);
    assert(ss.take(k + 1).last() == ss[k]);
}

/// Flattens a built tree into the renderer's list: each visible leaf's
/// item handle with its absolute rectangle, children in order after their
/// parents' translation, culled against the accumulated visible rectangle.
#[verifier::loop_isolation(false)]
pub fn flatten(node: &Node, sized: &SizedNode, origin: (i64, i64), clip: ChildRect) -> (r: Vec<(u64, ChildRect)>)
    requires
        sized_matches(*node, *sized),
    ensures
        r@ == spec_flatten(*node, *sized, origin, clip),
    decreases *node,
{
    match node {
        Node::Leaf { item, request: _ } => {
            let mut r: Vec<(u64, ChildRect)> = Vec::new();
            let visible = intersect(clip, (origin, sized.size));
            if visible.1.0 > 0 && visible.1.1 > 0 {
                r.push((*item, (origin, sized.size)));
            }
            proof {
                assert(r@ =~= spec_flatten(*node, *sized, origin, clip));
            }
            r
        },
        Node::Container { layout: _, handler: _, children } => {
            let mut r: Vec<(u64, ChildRect)> = Vec::new();
            let mut k: usize = 0;
            while k < children.len()
                invariant
                    0 <= k <= children@.len(),
                    sized.children@.len() == children@.len(),
                    forall|j: int| 0 <= j < children@.len()
                        ==> sized_matches(#[trigger] children@[j], sized.children@[j].1),
                    r@ == spec_flatten_list(children@.take(k as int), sized.children@.take(k as int), origin, clip),
                decreases children@.len() - k,
            {
                let area = sized.children[k].0;
                let sub_origin = (sat_add(origin.0, area.offset.0), sat_add(origin.1, area.offset.1));
                let sub_clip = intersect(clip, (sub_origin, sized.children[k].1.size));
                let sub = flatten(&children[k], &sized.children[k].1, sub_origin, sub_clip);
                let mut o: usize = 0;
                let ghost r0 = r@;
                while o < sub.len()
                    invariant
                        0 <= o <= sub@.len(),
                        r@ == r0 + sub@.take(o as int),
                    decreases sub@.len() - o,
                {
                    proof {
                        assert(sub@.take(o + 1 as int) =~= sub@.take(o as int).push(sub@[o as int]));
                    }
                    r.push(sub[o]);
                    o = o + 1;
                }
                proof {
                    assert(sub@.take(sub@.len() as int) =~= sub@);
                    lemma_flatten_list_take(children@, sized.children@, origin, clip, k as int);
                }
                k = k + 1;
            }
            proof {
                assert(children@.take(children@.len() as int) =~= children@);
                assert(sized.children@.take(sized.children@.len() as int) =~= sized.children@);
            }
            r
        },
    }
}

/// One whole tick of the engine: drain the pending events against the
/// previous frame's geometry (when there is one), then measure and build
/// this frame's, and flatten it into the renderer's list. Within the tick,
/// event draining completes before the measure pass begins, and measuring
/// precedes arranging precedes drawing.
pub fn frame(
    root: Node,
    prev: &Option<SizedNode>,
    queue: Vec<Event>,
    screen: (i64, i64),
    is_mobile: bool,
    fuel: u64,
) -> (r: (Node, SizedNode, Vec<(u64, ChildRect)>, Vec<Event>))
    requires
        node_wf(root),
        prev matches Some(s) ==> sized_matches(root, *s),
        -MAX_DIM * 16 <= screen.0 <= MAX_DIM * 16,
        -MAX_DIM * 16 <= screen.1 <= MAX_DIM * 16,
    ensures
        node_wf(r.0),
        same_skeleton(root, r.0),
        sized_matches(r.0, r.1),
        r.1.size == screen,
        r.2@ == spec_flatten(r.0, r.1, (0int as i64, 0int as i64), (
            (0int as i64, 0int as i64),
            screen,
        )),
        prev is None ==> r.3 == queue && arranged(root, r.1, screen),
        prev matches Some(s) ==> exists|
            used: int,
            roots: Seq<Node>,
            queues: Seq<Seq<Event>>,
        | {
            &&& #[trigger] spec_drain_trace(root, *s, queue@, is_mobile, roots, queues, used)
            &&& queues[used] == r.3@
            &&& used <= fuel
            &&& (r.3@.len() == 0 || used == fuel)
            &&& same_skeleton(roots[used], r.0)
            &&& arranged(roots[used], r.1, screen)
        },
{
    let ghost root0 = root;
    let mut root = root;
    let mut leftover = queue;
    let ghost mut drained_used: u64 = 0;
    match prev {
        Some(sized) => {
            let q = leftover;
            let (r, q, used) = drain(root, sized, q, is_mobile, fuel);
            root = r;
            leftover = q;
            proof {
                drained_used = used;
            }
        },
        None => {},
    }
    proof {
        lemma_skeleton_refl(root0);
    }
    let ghost drained = root;
    let _request = root.request_size();
    let (root, sized) = root.build(screen);
    proof {
        lemma_skeleton_trans(root0, drained, root);
        if prev is Some {
            let s = prev.unwrap();
            let (roots, queues): (Seq<Node>, Seq<Seq<Event>>) = choose|
                roots: Seq<Node>,
                queues: Seq<Seq<Event>>,
            | {
                &&& #[trigger] spec_drain_trace(root0, s, queue@, is_mobile, roots, queues, drained_used as int)
                &&& roots[drained_used as int] == drained
                &&& queues[drained_used as int] == leftover@
            };
            assert(spec_drain_trace(root0, s, queue@, is_mobile, roots, queues, drained_used as int));
            assert(same_skeleton(drained, root));
        }
    }
    let list = flatten(&root, &sized, (0, 0), ((0, 0), screen));
    (root, sized, list, leftover)
}

} // verus!
