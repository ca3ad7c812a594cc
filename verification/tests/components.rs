use pelican_ui::layout::SizeRequest;
use pelican_ui::layouts::{Offset, Size, Padding, Stack, Row};
use pelican_ui::events::{self, Event, MouseEvent, MouseState, KeyboardEvent, KeyboardState, Key};
use pelican_ui::emitters;
use pelican_ui::containers::{Opt, EitherOr, Enum, Bin};
use pelican_ui::drawable::{Node, LayoutKind, Handler, drain, flatten, frame};
use pelican_ui::interactions::button::Button;
use pelican_ui::interactions::selectable::Selectable;
use pelican_ui::interactions::slider::Slider;
use pelican_ui::interactions::text_input::InputField;
use pelican_ui::theme::colors::{Color, ColorResources, ButtonColorSet};
use pelican_ui::theme::icons::IconResources;
use pelican_ui::theme::brand::Illustrations;
use pelican_ui::theme::fonts::{Fonts, FontSize, FontResources};
use pelican_ui::theme::layout::LayoutResources;
use pelican_ui::resources::Image;

fn inside(state: MouseState) -> Event {
    Event::Mouse(MouseEvent { position: Some((1, 1)), state })
}

fn outside(state: MouseState) -> Event {
    Event::Mouse(MouseEvent { position: None, state })
}

#[test]
fn opt_toggles_without_losing_its_item() {
    let mut o = Opt::new(41u32, true);
    assert!(o.is_showing());
    assert_eq!(*o.inner(), 41);
    o.display(false);
    assert!(!o.is_showing());
    assert_eq!(*o.inner(), 41);
    o.display(false);
    assert!(!o.is_showing());
    o.display(true);
    assert!(o.is_showing());
    assert_eq!(*o.inner(), 41);
}

#[test]
fn either_or_shows_exactly_one_side() {
    let mut e = EitherOr::new("left", "right");
    assert!(e.left.is_showing());
    assert!(!e.right.is_showing());
    e.display_left(false);
    assert!(!e.left.is_showing());
    assert!(e.right.is_showing());
    assert_eq!(*e.left(), "left");
    assert_eq!(*e.right(), "right");
}

#[test]
fn enum_displays_exactly_one_child() {
    let items = vec![
        ("first".to_owned(), 1u32),
        ("second".to_owned(), 2u32),
        ("third".to_owned(), 3u32),
    ];
    let mut e = Enum::new(items, "first".to_owned());
    assert_eq!(e.current(), "first");
    e.display(&"second".to_owned());
    assert_eq!(e.current(), "second");
    let showing: Vec<bool> = e.entries.iter().map(|(_, o)| o.is_showing()).collect();
    assert_eq!(showing, vec![false, true, false]);
}

#[test]
fn enum_unknown_key_falls_back_to_first() {
    let items = vec![("a".to_owned(), 1u32), ("b".to_owned(), 2u32)];
    let mut e = Enum::new(items, "a".to_owned());
    e.display(&"missing".to_owned());
    assert_eq!(e.current(), "a");
    let showing: Vec<bool> = e.entries.iter().map(|(_, o)| o.is_showing()).collect();
    assert_eq!(showing, vec![true, false]);
}

#[test]
fn enum_duplicate_key_first_entry_wins() {
    let items = vec![("x".to_owned(), 1u32), ("x".to_owned(), 2u32)];
    let mut e = Enum::new(items, "none".to_owned());
    e.display(&"x".to_owned());
    let showing: Vec<bool> = e.entries.iter().map(|(_, o)| o.is_showing()).collect();
    assert_eq!(showing, vec![true, false]);
}

#[test]
fn bin_pairs_layout_and_item() {
    let b = Bin::new(Stack::center(), 5u8);
    assert_eq!(b.1, 5);
}

#[test]
fn button_emitter_semantics() {
    let mut b = emitters::Button::new();
    let (cont, queue) = b.on_event(inside(MouseState::Pressed), false);
    assert_eq!(cont, vec![Event::Button(events::Button::Pressed(true))]);
    assert!(queue.is_empty());
    let (cont, _) = b.on_event(outside(MouseState::Moved), false);
    assert_eq!(cont, vec![Event::Button(events::Button::Hover(false))]);
    // On desktop a release inside restores hover; on mobile it un-presses.
    let (cont, _) = b.on_event(inside(MouseState::Released), false);
    assert_eq!(cont, vec![Event::Button(events::Button::Hover(true))]);
    let (cont, _) = b.on_event(inside(MouseState::Released), true);
    assert_eq!(cont, vec![Event::Button(events::Button::Pressed(false))]);
    // A release after a drag never counts as a press.
    let (cont, _) = b.on_event(inside(MouseState::DragReleased), false);
    assert_eq!(cont, vec![Event::Button(events::Button::Pressed(false))]);
}

#[test]
fn selectable_emitter_announces_and_answers() {
    let mut s = emitters::Selectable::with_id(7, 99);
    let (cont, queue) = s.on_event(inside(MouseState::Pressed));
    assert_eq!(queue, vec![Event::Selectable(events::Selectable::Pressed(7, 99))]);
    assert_eq!(cont, vec![inside(MouseState::Pressed)]);
    let (cont, _) = s.on_event(Event::Selectable(events::Selectable::Pressed(7, 99)));
    assert_eq!(cont, vec![Event::Selectable(events::Selectable::Selected(true))]);
    let (cont, _) = s.on_event(Event::Selectable(events::Selectable::Pressed(8, 99)));
    assert_eq!(cont, vec![Event::Selectable(events::Selectable::Selected(false))]);
    // Another group's announcement passes through untouched.
    let other = Event::Selectable(events::Selectable::Pressed(8, 42));
    let (cont, _) = s.on_event(other);
    assert_eq!(cont, vec![other]);
}

#[test]
fn slider_emitter_tracks_between_press_and_release() {
    let mut s = emitters::Slider::new();
    let (cont, _) = s.on_event(Event::Mouse(MouseEvent { position: Some((30, 0)), state: MouseState::Pressed }));
    assert_eq!(cont, vec![Event::Slider(events::Slider::Start(30))]);
    assert!(s.tracking);
    let (cont, _) = s.on_event(Event::Mouse(MouseEvent { position: Some((45, 0)), state: MouseState::Moved }));
    assert_eq!(cont, vec![Event::Slider(events::Slider::Moved(45))]);
    let (cont, _) = s.on_event(outside(MouseState::Released));
    assert!(cont.is_empty());
    assert!(!s.tracking);
    // Moves while not tracking emit nothing.
    let (cont, _) = s.on_event(Event::Mouse(MouseEvent { position: Some((50, 0)), state: MouseState::Moved }));
    assert!(cont.is_empty());
}

#[test]
fn text_input_emitter_focus_gates_keys() {
    let mut t = emitters::TextInput::new();
    let key = Event::Keyboard(KeyboardEvent { key: Key::Character('x'), state: KeyboardState::Pressed });
    let (cont, _) = t.on_event(key, false);
    assert!(cont.is_empty());
    let (cont, _) = t.on_event(inside(MouseState::Pressed), false);
    assert_eq!(cont[0], Event::TextInput(events::TextInput::Focused(true)));
    assert!(t.focused);
    let (cont, _) = t.on_event(key, false);
    assert_eq!(cont, vec![key]);
    let (_, _) = t.on_event(outside(MouseState::Pressed), false);
    assert!(!t.focused);
}

#[test]
fn scrollable_emitter_swallows_drag_clicks() {
    let mut s = emitters::Scrollable::new();
    let (cont, _) = s.on_event(Event::Mouse(MouseEvent { position: Some((0, 10)), state: MouseState::Pressed }));
    assert!(cont.is_empty());
    // A release close to the press replays it as a click.
    let (cont, _) = s.on_event(Event::Mouse(MouseEvent { position: Some((0, 12)), state: MouseState::Released }));
    assert_eq!(cont, vec![Event::Mouse(MouseEvent { position: Some((0, 12)), state: MouseState::Pressed })]);
    // A release far from the press is swallowed.
    let (_, _) = s.on_event(Event::Mouse(MouseEvent { position: Some((0, 12)), state: MouseState::Pressed }));
    let (cont, _) = s.on_event(Event::Mouse(MouseEvent { position: Some((0, 60)), state: MouseState::Released }));
    assert!(cont.is_empty());
}

#[test]
fn button_component_switches_states_and_fires() {
    let mut b = Button::new(1u8, Some(2u8), Some(3u8), Some(4u8), false, true);
    let fire = b.on_event(Event::Button(events::Button::Hover(true)));
    assert!(!fire);
    assert_eq!(b.states.current(), "hover");
    let showing: Vec<bool> = b.states.entries.iter().map(|(_, o)| o.is_showing()).collect();
    assert_eq!(showing, vec![false, true, false, false]);
    let fire = b.on_event(Event::Button(events::Button::Pressed(true)));
    assert!(fire);
    let showing: Vec<bool> = b.states.entries.iter().map(|(_, o)| o.is_showing()).collect();
    assert_eq!(showing, vec![false, false, true, false]);
}

#[test]
fn disabled_button_component_pins_disabled_state() {
    let mut b = Button::new(1u8, Some(2u8), Some(3u8), Some(4u8), true, false);
    b.on_event(Event::Button(events::Button::Hover(true)));
    let showing: Vec<bool> = b.states.entries.iter().map(|(_, o)| o.is_showing()).collect();
    assert_eq!(showing, vec![false, false, false, true]);
}

#[test]
fn selectable_component_follows_group_choice() {
    let mut s = Selectable::with_id(0u8, 1u8, false, 5, 77);
    let (fire, queue) = s.on_event(Event::Button(events::Button::Pressed(true)));
    assert!(!fire);
    assert_eq!(queue, vec![Event::Selectable(events::Selectable::Pressed(5, 77))]);
    let (fire, _) = s.on_event(Event::Selectable(events::Selectable::Pressed(5, 77)));
    assert!(fire);
    let showing: Vec<bool> = s.states.entries.iter().map(|(_, o)| o.is_showing()).collect();
    assert_eq!(showing, vec![false, true]);
    let (fire, _) = s.on_event(Event::Selectable(events::Selectable::Pressed(9, 77)));
    assert!(!fire);
    let showing: Vec<bool> = s.states.entries.iter().map(|(_, o)| o.is_showing()).collect();
    assert_eq!(showing, vec![true, false]);
}

#[test]
fn slider_component_clamps_and_derives_geometry() {
    let mut s = Slider::new(30, 100, 10);
    assert_eq!(s.value, 30);
    let reported = s.on_event(Event::Slider(events::Slider::Moved(250)));
    assert_eq!(reported, Some(30));
    assert_eq!(s.value, 100);
    let reported = s.on_event(Event::Slider(events::Slider::Start(-4)));
    assert_eq!(reported, Some(100));
    assert_eq!(s.value, 0);
    s.clamp(42);
    s.on_event(Event::Tick(pelican_ui::events::TickEvent));
    assert_eq!(s.knob_offset, 37);
    assert_eq!(s.fg_width, 42);
}

#[test]
fn input_field_focus_and_error_states() {
    let mut f = InputField::new(0u8, 1u8, Some(2u8), Some(3u8), 9u8);
    assert!(f.on_event(Event::Button(events::Button::Pressed(true))));
    assert!(f.focused);
    let key = Event::Keyboard(KeyboardEvent { key: Key::Character('x'), state: KeyboardState::Pressed });
    assert!(f.on_event(key));
    f.error = true;
    f.on_event(Event::Button(events::Button::Pressed(false)));
    assert!(!f.focused);
    assert_eq!(f.states.current(), "error");
    assert!(!f.on_event(key));
}

#[test]
fn selectable_generates_fresh_identifiers() {
    let s = Selectable::new(0u8, 1u8, false, 123);
    assert_eq!(s.group_id, 123);
    let t = emitters::Selectable::new(55);
    assert_eq!(t.group_id, 55);
}

#[test]
fn tree_measures_and_builds() {
    let root = Node::Container {
        layout: LayoutKind::Row(Row::new(10, Offset::Start, Size::Fit, Padding(0, 0, 0, 0))),
        handler: Handler::Passive,
        children: vec![
            Node::Leaf { item: 1, request: SizeRequest::new(50, 10, 100, 10) },
            Node::Leaf { item: 2, request: SizeRequest::new(50, 10, 50, 10) },
        ],
    };
    let measured = root.request_size();
    assert_eq!(measured.min_width(), 110);
    assert_eq!(measured.max_width(), 160);
    let (root, sized) = root.build((180, 10));
    assert_eq!(sized.size, (180, 10));
    assert_eq!(sized.children.len(), 2);
    assert_eq!(sized.children[0].0.size.0, 100);
    assert_eq!(sized.children[1].0.size.0, 50);
    // The draw list carries each leaf with its absolute rectangle.
    let list = flatten(&root, &sized, (0, 0), ((0, 0), (180, 10)));
    assert_eq!(list.len(), 2);
    assert_eq!(list[0].0, 1);
    assert_eq!(list[0].1 .0, (0, 0));
    assert_eq!(list[1].1 .0, (110, 0));
}

#[test]
fn tree_flatten_translates_nested_offsets() {
    let inner = Node::Container {
        layout: LayoutKind::Stack(Stack(Offset::Static(5), Offset::Static(6), Size::Fit, Size::Fit, Padding(0, 0, 0, 0))),
        handler: Handler::Passive,
        children: vec![Node::Leaf { item: 9, request: SizeRequest::fixed((10, 10)) }],
    };
    let root = Node::Container {
        layout: LayoutKind::Stack(Stack(Offset::Static(100), Offset::Static(0), Size::Fit, Size::Fit, Padding(0, 0, 0, 0))),
        handler: Handler::Passive,
        children: vec![inner],
    };
    let (root, sized) = root.build((200, 50));
    let list = flatten(&root, &sized, (0, 0), ((0, 0), (200, 50)));
    assert_eq!(list.len(), 1);
    assert_eq!(list[0].1 .0, (105, 6));
    // A leaf scrolled out of the visible rectangle is culled.
    let clipped = flatten(&root, &sized, (0, 0), ((0, 0), (100, 50)));
    assert!(clipped.is_empty());
}

#[test]
fn dispatch_runs_handlers_and_feeds_queue() {
    // A selectable handler announces a press into the queue; the drain
    // processes the announcement in the same sweep.
    let root = Node::Container {
        layout: LayoutKind::Stack(Stack::start()),
        handler: Handler::Selectable(emitters::Selectable::with_id(3, 4)),
        children: vec![Node::Leaf { item: 1, request: SizeRequest::fixed((10, 10)) }],
    };
    let (root, sized) = root.build((10, 10));
    let queue = vec![Event::Mouse(MouseEvent { position: Some((5, 5)), state: MouseState::Pressed })];
    let (_root, leftover, used) = drain(root, &sized, queue, false, 100);
    assert!(leftover.is_empty());
    assert_eq!(used, 2);
}

#[test]
fn tree_allows_empty_overlay_containers() {
    let root = Node::Container {
        layout: LayoutKind::Stack(Stack::start()),
        handler: Handler::Passive,
        children: vec![],
    };
    assert!(root.check_wf());
    let (root, sized) = root.build((50, 50));
    assert!(sized.children.is_empty());
    assert!(flatten(&root, &sized, (0, 0), ((0, 0), (50, 50))).is_empty());
}

#[test]
fn dispatch_fuel_bounds_the_drain() {
    let root = Node::Container {
        layout: LayoutKind::Stack(Stack::start()),
        handler: Handler::Passive,
        children: vec![Node::Leaf { item: 1, request: SizeRequest::fixed((10, 10)) }],
    };
    let (root, sized) = root.build((10, 10));
    let queue = vec![
        Event::Tick(pelican_ui::events::TickEvent),
        Event::Tick(pelican_ui::events::TickEvent),
        Event::Tick(pelican_ui::events::TickEvent),
    ];
    let (_root, leftover, used) = drain(root, &sized, queue, false, 2);
    assert_eq!(used, 2);
    assert_eq!(leftover.len(), 1);
}

#[test]
fn frame_runs_the_whole_tick() {
    let root = Node::Container {
        layout: LayoutKind::Stack(Stack::start()),
        handler: Handler::Button(emitters::Button::new()),
        children: vec![Node::Leaf { item: 7, request: SizeRequest::fixed((10, 10)) }],
    };
    // The first frame has no geometry yet: events wait, the tree builds.
    let press = Event::Mouse(MouseEvent { position: Some((5, 5)), state: MouseState::Pressed });
    let (root, sized, list, leftover) = frame(root, &None, vec![press], (100, 100), false, 64);
    assert_eq!(leftover, vec![press]);
    assert_eq!(list.len(), 1);
    assert_eq!(list[0].0, 7);
    // The second frame drains against the first frame's geometry.
    let (_root, _sized, list, leftover) = frame(root, &Some(sized), leftover, (100, 100), false, 64);
    assert!(leftover.is_empty());
    assert_eq!(list.len(), 1);
}

#[test]
fn color_hex_parsing_is_exact() {
    let c = Color::from_hex("#10ff0a", 200);
    assert_eq!((c.r, c.g, c.b, c.a), (16, 255, 10, 200));
    let c = Color::from_hex("#DDDDDD", 255);
    assert_eq!((c.r, c.g, c.b), (221, 221, 221));
    // A malformed string parses as black with the given alpha.
    let c = Color::from_hex("nonsense", 9);
    assert_eq!((c.r, c.g, c.b, c.a), (0, 0, 0, 9));
    let c = Color::from_hex("#zzzzzz", 9);
    assert_eq!((c.r, c.g, c.b, c.a), (0, 0, 0, 9));
}

#[test]
fn color_darken_and_contrast() {
    let c = Color { r: 255, g: 100, b: 0, a: 255 };
    let d = Color::darken(c, 85);
    assert_eq!((d.r, d.g, d.b, d.a), (216, 85, 0, 255));
    assert!(Color::is_high_contrast(Color::black()));
    assert!(!Color::is_high_contrast(Color::white()));
    // A dark brand color picks the dark theme.
    let dark = ColorResources::from(Color::black());
    assert_eq!(dark.background.primary, Color::black());
    let light = ColorResources::from(Color::white());
    assert_eq!(light.background.primary, Color::white());
}

#[test]
fn button_color_set_derives_from_brand() {
    let brand = Color { r: 2, g: 240, b: 204, a: 255 };
    let set = ButtonColorSet::primary(brand);
    assert_eq!(set.default.background, brand);
    // This brand color is bright, so the label is black.
    assert_eq!(set.default.label, Color::black());
    assert_eq!(set.hover.background, Color::darken(brand, 85));
    assert_eq!(set.pressed.background, Color::darken(brand, 80));
}

#[test]
fn icons_fall_back_to_placeholder() {
    let mut icons = IconResources::new();
    icons.insert("pelican_ui".to_owned(), Image(1));
    icons.insert("search".to_owned(), Image(2));
    assert_eq!(icons.get(&"search".to_owned()), Image(2));
    assert_eq!(icons.get(&"missing".to_owned()), Image(1));
    // A later insertion shadows an earlier one.
    icons.insert("search".to_owned(), Image(3));
    assert_eq!(icons.get(&"search".to_owned()), Image(3));
    assert_eq!(icons.all().len(), 3);
}

#[test]
fn illustrations_insert_get_remove() {
    let mut table = Illustrations::new();
    assert_eq!(table.get(&"fish".to_owned()), None);
    table.insert("fish".to_owned(), Image(7));
    table.insert("bird".to_owned(), Image(8));
    assert_eq!(table.get(&"fish".to_owned()), Some(Image(7)));
    table.remove(&"fish".to_owned());
    assert_eq!(table.get(&"fish".to_owned()), None);
    assert_eq!(table.get(&"bird".to_owned()), Some(Image(8)));
}

#[test]
fn theme_defaults_are_pinned() {
    let sizes = FontSize::default();
    assert_eq!(sizes.title, 72);
    assert_eq!(sizes.xs, 12);
    let layout = LayoutResources::default();
    assert_eq!(layout.content_max, 375);
    assert_eq!(layout.content_padding, 24);
    let fonts = Fonts::new(
        pelican_ui::resources::Font(1),
        pelican_ui::resources::Font(2),
        pelican_ui::resources::Font(3),
        pelican_ui::resources::Font(4),
        pelican_ui::resources::Font(5),
    );
    assert_eq!(fonts.heading, pelican_ui::resources::Font(1));
    let resources = FontResources::new(fonts, sizes);
    assert_eq!(resources.size.title, 72);
}
