use pelican_ui::layout::{SizeRequest, Area, DefaultStack, MAX_DIM};
use pelican_ui::layouts::{Offset, Size, Padding, Row, Column, Stack, Wrap, Scroll, UniformExpand, ScrollAnchor, ScrollDirection};
use pelican_ui::events::{Event, MouseEvent, MouseState, Key, KeyboardState};
use pelican_ui::input::{Input, InputTranslator, TouchPhase, WheelDelta};

#[test]
fn size_request_orders_bounds() {
    let r = SizeRequest::new(10, 20, 30, 40);
    assert!(r.min_width() <= r.max_width());
    assert!(r.min_height() <= r.max_height());
    assert_eq!(r.min_width(), 10);
    assert_eq!(r.max_height(), 40);
    let f = SizeRequest::fixed((7, 9));
    assert_eq!(f.min_width(), 7);
    assert_eq!(f.max_width(), 7);
    let fill = SizeRequest::fill();
    assert_eq!(fill.min_width(), 0);
    assert_eq!(fill.max_width(), MAX_DIM);
}

#[test]
fn size_request_clamp_is_idempotent() {
    let r = SizeRequest::new(10, 10, 50, 50);
    for candidate in [(-5, 200), (25, 25), (500, 0), (10, 50)] {
        let once = r.get(candidate);
        let twice = r.get(once);
        assert_eq!(once, twice);
    }
    assert_eq!(r.get((-5, 200)), (10, 50));
}

#[test]
fn size_request_add_and_max() {
    let r = SizeRequest::new(10, 10, 20, 20).add(5, 7);
    assert_eq!(r.min_width(), 15);
    assert_eq!(r.max_width(), 25);
    assert_eq!(r.min_height(), 17);
    assert_eq!(r.max_height(), 27);
    let a = SizeRequest::new(10, 1, 30, 3);
    let b = SizeRequest::new(20, 0, 25, 9);
    let m = a.max(&b);
    assert_eq!(m.min_width(), 20);
    assert_eq!(m.max_width(), 30);
    assert_eq!(m.min_height(), 1);
    assert_eq!(m.max_height(), 9);
    // Growing an unbounded bound saturates instead of overflowing.
    let f = SizeRequest::fill().add_width(100);
    assert_eq!(f.max_width(), MAX_DIM);
}

#[test]
fn uniform_expand_caps_at_child_maximum() {
    // One child can widen up to 100, the other is fixed. The surplus past
    // the first child's own maximum stays unused.
    let widths = UniformExpand::get(&vec![(50, 100), (50, 50)], 180, 10);
    assert_eq!(widths, vec![100, 50]);
}

#[test]
fn uniform_expand_unbounded_child_absorbs_surplus() {
    // With an unbounded first child the whole surplus goes to it:
    // 180 - 50 - 50 - 10 spacing leaves 70, so it ends at 120.
    let widths = UniformExpand::get(&vec![(50, MAX_DIM), (50, 50)], 180, 10);
    assert_eq!(widths, vec![120, 50]);
}

#[test]
fn uniform_expand_empty_input_yields_single_zero() {
    let widths = UniformExpand::get(&vec![], 100, 5);
    assert_eq!(widths, vec![0]);
}

#[test]
fn uniform_expand_is_fair_to_equal_children() {
    for avail in [100, 137, 200, 351, 1000] {
        let widths = UniformExpand::get(&vec![(20, 500), (20, 500), (30, 30)], avail, 5);
        assert_eq!(widths[0], widths[1]);
    }
}

#[test]
fn uniform_expand_conserves_when_nothing_can_grow() {
    let widths = UniformExpand::get(&vec![(40, 40), (60, 60)], 500, 0);
    assert_eq!(widths, vec![40, 60]);
}

#[test]
fn uniform_expand_tiers_fill_lockstep() {
    // The smaller child first catches up to the tier of the larger one,
    // then both grow together.
    let widths = UniformExpand::get(&vec![(10, 100), (30, 100)], 60, 0);
    assert_eq!(widths, vec![30, 30]);
    let widths = UniformExpand::get(&vec![(10, 100), (30, 100)], 100, 0);
    assert_eq!(widths, vec![50, 50]);
}

#[test]
fn row_end_to_end_scenario() {
    // Spacing 10, children (min,max) widths [(50,unbounded),(50,50)],
    // available width 180: the expandable child takes the 70 surplus.
    let row = Row::new(10, Offset::Start, Size::Fit, Padding(0, 0, 0, 0));
    let children = vec![
        SizeRequest::new(50, 10, MAX_DIM, 10),
        SizeRequest::new(50, 10, 50, 10),
    ];
    let areas = row.build((180, 10), &children);
    assert_eq!(areas.len(), 2);
    assert_eq!(areas[0].size.0, 120);
    assert_eq!(areas[1].size.0, 50);
    assert_eq!(areas[0].offset.0, 0);
    assert_eq!(areas[1].offset.0, 130);
}

#[test]
fn row_request_size_sums_widths_with_spacing() {
    let row = Row::new(10, Offset::Start, Size::Fit, Padding(2, 3, 4, 5));
    let children = vec![
        SizeRequest::new(50, 10, 100, 20),
        SizeRequest::new(50, 15, 50, 15),
    ];
    let r = row.request_size(&children);
    // widths: 50+50 plus one spacing gap plus left+right padding
    assert_eq!(r.min_width(), 50 + 50 + 10 + 2 + 4);
    assert_eq!(r.max_width(), 100 + 50 + 10 + 2 + 4);
    // heights: Fit takes the per-bound maximum, plus top+bottom padding
    assert_eq!(r.min_height(), 15 + 3 + 5);
    assert_eq!(r.max_height(), 20 + 3 + 5);
}

#[test]
fn column_mirrors_row_on_the_other_axis() {
    let col = Column::new(6, Offset::Start, Size::Fit, Padding(0, 0, 0, 0));
    let children = vec![
        SizeRequest::new(10, 30, 10, 30),
        SizeRequest::new(10, 20, 10, 60),
    ];
    let r = col.request_size(&children);
    assert_eq!(r.min_height(), 30 + 20 + 6);
    assert_eq!(r.max_height(), 30 + 60 + 6);
    let areas = col.build((10, 100), &children);
    assert_eq!(areas[0].offset.1, 0);
    assert_eq!(areas[1].offset.1, 36);
    // An empty column asks for nothing.
    let empty = col.request_size(&vec![]);
    assert_eq!(empty.min_width(), 0);
    assert_eq!(empty.max_height(), 0);
}

#[test]
fn column_transposes_row_on_concrete_children() {
    let spacing = 4;
    let col = Column::new(spacing, Offset::Center, Size::Fit, Padding(0, 0, 0, 0));
    let row = Row::new(spacing, Offset::Center, Size::Fit, Padding(0, 0, 0, 0));
    let kids = vec![
        SizeRequest::new(10, 20, 10, 80),
        SizeRequest::new(12, 20, 12, 20),
    ];
    let kids_t = vec![
        SizeRequest::new(20, 10, 80, 10),
        SizeRequest::new(20, 12, 20, 12),
    ];
    let col_areas = col.build((30, 100), &kids);
    let row_areas = row.build((100, 30), &kids_t);
    assert_eq!(col_areas.len(), row_areas.len());
    for (c, r) in col_areas.iter().zip(row_areas.iter()) {
        assert_eq!(c.offset, (r.offset.1, r.offset.0));
        assert_eq!(c.size, (r.size.1, r.size.0));
    }
}

#[test]
fn uniform_expand_is_order_independent() {
    // The same extents permuted yield the permuted widths.
    let a = UniformExpand::get(&vec![(10, 100), (30, 30), (20, 200)], 120, 0);
    let b = UniformExpand::get(&vec![(20, 200), (10, 100), (30, 30)], 120, 0);
    assert_eq!(a[0], b[1]);
    assert_eq!(a[1], b[2]);
    assert_eq!(a[2], b[0]);
}

#[test]
fn stack_centers_children() {
    let stack = Stack(Offset::Center, Offset::Center, Size::Fit, Size::Fit, Padding(0, 0, 0, 0));
    let child = SizeRequest::fixed((20, 10));
    let areas = stack.build((100, 60), &vec![child]);
    assert_eq!(areas.len(), 1);
    assert_eq!(areas[0].offset, (40, 25));
    assert_eq!(areas[0].size, (20, 10));
}

#[test]
fn stack_end_and_static_offsets() {
    let stack = Stack(Offset::End, Offset::Static(7), Size::Fit, Size::Fit, Padding(0, 0, 0, 0));
    let areas = stack.build((100, 60), &vec![SizeRequest::fixed((20, 10))]);
    assert_eq!(areas[0].offset, (80, 7));
}

#[test]
fn default_stack_overlays_children() {
    let layout = DefaultStack;
    let children = vec![SizeRequest::new(10, 10, 40, 40), SizeRequest::new(20, 5, 30, 30)];
    let r = layout.request_size(&children);
    assert_eq!(r.min_width(), 20);
    assert_eq!(r.max_width(), 40);
    let areas = layout.build((25, 25), &children);
    assert_eq!(areas[0].offset, (0, 0));
    assert_eq!(areas[0].size, (25, 25));
    assert_eq!(areas[1].size, (25, 25));
}

#[test]
fn wrap_breaks_lines_and_centers_them() {
    let mut wrap = Wrap::new(0, 0);
    let children = vec![
        SizeRequest::fixed((40, 10)),
        SizeRequest::fixed((40, 10)),
        SizeRequest::fixed((40, 10)),
    ];
    let areas = wrap.build((100, 50), &children);
    assert_eq!(areas.len(), 3);
    // First line holds two items centered in the 20 px slack.
    assert_eq!(areas[0], Area { offset: (10, 0), size: (40, 10) });
    assert_eq!(areas[1], Area { offset: (50, 0), size: (40, 10) });
    // The third wraps to a second line.
    assert_eq!(areas[2], Area { offset: (30, 10), size: (40, 10) });
    // The build pass recorded the width for the next measuring pass.
    assert_eq!(wrap.5, 100);
    let r = wrap.request_size(&children);
    assert_eq!(r.min_width(), 80);
    assert_eq!(r.min_height(), 20);
}

#[test]
fn wrap_honors_spacing_between_items() {
    let mut wrap = Wrap::start(5, 3);
    let children = vec![
        SizeRequest::fixed((40, 10)),
        SizeRequest::fixed((40, 10)),
        SizeRequest::fixed((40, 10)),
    ];
    let areas = wrap.build((100, 50), &children);
    // Two items fit per line: 40 + 5 + 40 = 85 advances to 90 with the
    // trailing gap; a third would pass 100.
    assert_eq!(areas[0], Area { offset: (0, 0), size: (40, 10) });
    assert_eq!(areas[1], Area { offset: (45, 0), size: (40, 10) });
    assert_eq!(areas[2], Area { offset: (0, 13), size: (40, 10) });
}

#[test]
fn scroll_clamps_into_content_range() {
    let mut scroll = Scroll::vertical(Offset::Start, Offset::Start, Size::Fit, Size::Fit, Padding(0, 0, 0, 0));
    let children = vec![SizeRequest::new(10, 300, 10, 300)];
    scroll.set_scroll(1000);
    let areas = scroll.build((10, 100), &children);
    // The content extends 200 past the viewport, so the value clamps there.
    assert_eq!(scroll.adjustment, 200);
    assert_eq!(areas[0].offset.1, -200);
    // A negative value clamps to zero.
    scroll.set_scroll(-50);
    let areas = scroll.build((10, 100), &children);
    assert_eq!(scroll.adjustment, 0);
    assert_eq!(areas[0].offset.1, 0);
}

#[test]
fn scroll_end_anchor_pins_content_bottom() {
    let mut scroll = Scroll::new(
        Offset::Start,
        Offset::Start,
        Size::Fit,
        Size::Fit,
        Padding(0, 0, 0, 0),
        ScrollAnchor::End,
        ScrollDirection::Vertical,
    );
    let children = vec![SizeRequest::new(10, 300, 10, 300)];
    let areas = scroll.build((10, 100), &children);
    assert_eq!(areas[0].offset.1, 100 - 300);
}

#[test]
fn scroll_adjust_respects_anchor() {
    let mut scroll = Scroll::default();
    scroll.adjust_scroll(30);
    assert_eq!(scroll.adjustment, 30);
    scroll.adjust_scroll(-10);
    assert_eq!(scroll.adjustment, 20);
}

#[test]
fn hit_test_topmost_claims_position() {
    // Two overlapping rectangles; the pointer falls inside both. Only the
    // later (topmost) sibling's copy carries the position.
    let rects = vec![((0, 0), (10, 10)), ((0, 0), (10, 10))];
    let ev = MouseEvent { position: Some((5, 5)), state: MouseState::Pressed };
    let passed = ev.pass(&rects);
    assert_eq!(passed.len(), 2);
    assert_eq!(passed[0].unwrap().position, None);
    assert_eq!(passed[1].unwrap().position, Some((5, 5)));
}

#[test]
fn hit_test_translates_into_child_space() {
    let rects = vec![((10, 20), (30, 30))];
    let ev = MouseEvent { position: Some((15, 25)), state: MouseState::Moved };
    let passed = ev.pass(&rects);
    assert_eq!(passed[0].unwrap().position, Some((5, 5)));
}

#[test]
fn hit_test_missing_everything_drops_position() {
    let rects = vec![((0, 0), (10, 10)), ((50, 50), (10, 10))];
    let ev = MouseEvent { position: Some((30, 30)), state: MouseState::Released };
    let passed = ev.pass(&rects);
    assert_eq!(passed[0].unwrap().position, None);
    assert_eq!(passed[1].unwrap().position, None);
}

#[test]
fn non_pointer_events_broadcast() {
    let rects = vec![((0, 0), (10, 10)), ((50, 50), (10, 10))];
    let ev = Event::Keyboard(pelican_ui::events::KeyboardEvent {
        key: Key::Character('a'),
        state: KeyboardState::Pressed,
    });
    let passed = ev.pass(&rects);
    assert_eq!(passed.len(), 2);
    assert_eq!(passed[0], Some(ev));
    assert_eq!(passed[1], Some(ev));
}

#[test]
fn tap_classification_short_and_small() {
    // displacement 5 px and hold 100 ms: a tap.
    let mut t = InputTranslator::new();
    assert_eq!(
        t.on_input(Input::Touch { x: 0, y: 0, phase: TouchPhase::Started }, 0),
        Some(Event::Mouse(MouseEvent { position: Some((0, 0)), state: MouseState::Pressed })),
    );
    let r = t.on_input(Input::Touch { x: 5, y: 0, phase: TouchPhase::Ended }, 100);
    assert_eq!(
        r,
        Some(Event::Mouse(MouseEvent { position: Some((5, 0)), state: MouseState::Released })),
    );
}

#[test]
fn drag_classification_large_displacement() {
    // displacement 40 px: a drag release, whatever the hold.
    let mut t = InputTranslator::new();
    t.on_input(Input::Touch { x: 0, y: 0, phase: TouchPhase::Started }, 0);
    let r = t.on_input(Input::Touch { x: 40, y: 0, phase: TouchPhase::Ended }, 100);
    assert_eq!(
        r,
        Some(Event::Mouse(MouseEvent { position: Some((40, 0)), state: MouseState::DragReleased })),
    );
}

#[test]
fn drag_classification_long_hold() {
    // hold 900 ms: a drag release, however small the displacement.
    let mut t = InputTranslator::new();
    t.on_input(Input::MouseButton { pressed: true }, 0);
    let r = t.on_input(Input::MouseButton { pressed: false }, 900);
    assert_eq!(
        r,
        Some(Event::Mouse(MouseEvent { position: Some((0, 0)), state: MouseState::DragReleased })),
    );
}

#[test]
fn touch_drag_emits_scroll_deltas() {
    let mut t = InputTranslator::new();
    t.on_input(Input::Touch { x: 10, y: 10, phase: TouchPhase::Started }, 0);
    let r = t.on_input(Input::Touch { x: 13, y: 18, phase: TouchPhase::Moved }, 16);
    assert_eq!(
        r,
        Some(Event::Mouse(MouseEvent { position: Some((13, 18)), state: MouseState::Scroll(-3, -8) })),
    );
    // A sample with no travel emits nothing.
    let r = t.on_input(Input::Touch { x: 13, y: 18, phase: TouchPhase::Moved }, 32);
    assert_eq!(r, None);
}

#[test]
fn cursor_moves_deduplicate() {
    let mut t = InputTranslator::new();
    let r = t.on_input(Input::CursorMoved { x: 4, y: 4 }, 0);
    assert!(r.is_some());
    let r = t.on_input(Input::CursorMoved { x: 4, y: 4 }, 16);
    assert_eq!(r, None);
}

#[test]
fn wheel_normalizes_lines_into_scroll() {
    let mut t = InputTranslator::new();
    assert_eq!(t.on_input(Input::MouseWheel { delta: WheelDelta::Lines(0, 3), phase: TouchPhase::Started }, 0), None);
    let r = t.on_input(Input::MouseWheel { delta: WheelDelta::Lines(0, 3), phase: TouchPhase::Moved }, 16);
    assert_eq!(
        r,
        Some(Event::Mouse(MouseEvent { position: Some((0, 0)), state: MouseState::Scroll(0, -1) })),
    );
}

#[test]
fn wheel_damps_pixel_deltas_to_a_fifth() {
    let mut t = InputTranslator::new();
    t.on_input(Input::MouseWheel { delta: WheelDelta::Pixels(0, 0), phase: TouchPhase::Started }, 0);
    let r = t.on_input(Input::MouseWheel { delta: WheelDelta::Pixels(25, -10), phase: TouchPhase::Moved }, 16);
    assert_eq!(
        r,
        Some(Event::Mouse(MouseEvent { position: Some((0, 0)), state: MouseState::Scroll(-5, 2) })),
    );
}

#[test]
fn momentum_decays_to_rest() {
    let mut t = InputTranslator::new();
    // A fast vertical drag arms the momentum on release.
    t.on_input(Input::Touch { x: 0, y: 0, phase: TouchPhase::Started }, 0);
    t.on_input(Input::Touch { x: 0, y: 200, phase: TouchPhase::Ended }, 100);
    assert!(t.speed.is_some());
    let armed = t.speed.unwrap();
    assert!(armed != 0);
    // Each tick decays the speed by 92/100 until the cutoff disarms it.
    let mut ticks = 0u64;
    let mut emitted = 0u64;
    while t.speed.is_some() {
        ticks += 1;
        assert!(ticks <= armed.unsigned_abs() + 1, "decay must terminate");
        if t.on_input(Input::Tick, 200 + ticks).is_some() {
            emitted += 1;
        }
    }
    assert!(emitted > 0);
    // Once disarmed, ticks emit nothing further.
    assert_eq!(t.on_input(Input::Tick, 10_000), None);
}

#[test]
fn momentum_decay_factor_is_applied() {
    let mut t = InputTranslator::new();
    t.on_input(Input::Touch { x: 0, y: 0, phase: TouchPhase::Started }, 0);
    t.on_input(Input::Touch { x: 0, y: 200, phase: TouchPhase::Ended }, 100);
    let armed = t.speed.unwrap();
    t.on_input(Input::Tick, 200);
    let after = t.speed.unwrap();
    assert_eq!(after, (armed * 92) / 100);
}

#[test]
fn press_cancels_momentum() {
    let mut t = InputTranslator::new();
    t.on_input(Input::Touch { x: 0, y: 0, phase: TouchPhase::Started }, 0);
    t.on_input(Input::Touch { x: 0, y: 200, phase: TouchPhase::Ended }, 100);
    assert!(t.speed.is_some());
    t.on_input(Input::Touch { x: 0, y: 0, phase: TouchPhase::Started }, 300);
    assert_eq!(t.speed, None);
}

#[test]
fn offset_and_size_policies() {
    assert_eq!(Offset::Start.get(100, 20), 0);
    assert_eq!(Offset::Center.get(100, 20), 40);
    assert_eq!(Offset::End.get(100, 20), 80);
    assert_eq!(Offset::Static(12).get(100, 20), 12);
    assert_eq!(Offset::Center.get(10, 20), -5);
    assert_eq!(Offset::Start.size(), Some(0));
    assert_eq!(Offset::Center.size(), None);
    assert_eq!(Offset::Static(9).size(), Some(9));

    let items = vec![(10, 40), (20, 30)];
    assert_eq!(Size::Fit.get(&items), (20, 40));
    assert_eq!(Size::Fill.get(&items), (20, MAX_DIM));
    assert_eq!(Size::Static(25).get(&items), (25, 25));
    assert_eq!(Size::add(&items), (30, 70));
}

#[test]
fn padding_adjusts_all_three_ways() {
    let p = Padding::new(8);
    assert_eq!(p.adjust_size((100, 50)), (84, 34));
    assert_eq!(p.adjust_offset((3, 4)), (11, 12));
    let r = p.adjust_request(SizeRequest::new(10, 10, 20, 20));
    assert_eq!(r.min_width(), 26);
    assert_eq!(r.max_height(), 36);
}
