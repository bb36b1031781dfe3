use gemini::action::click::{Click, MouseButton};
use gemini::action::cursor::CursorMove;
use gemini::action::hover::Hover;
use gemini::action::zoom::{Zoom, ZoomLevel};
use gemini::action::{Action, Effect};
use gemini::scalar::Scalar;
use gemini::ui::color::{blue, green, red, ColorMode, ColorState};
use gemini::ui::dispatch::apply_actions;
use gemini::ui::dom::{Paint, DOM};
use gemini::ui::event::{ElementState, Event, PointerButton, ScrollDelta, WindowSize};
use gemini::ui::layout::{FlexLayout, Layout, Point};
use gemini::ui::route::{find, index_among, locate, replace_base, Found};
use gemini::ui::sync::{Signal, Trigger, WidgetCallback};
use gemini::ui::uid::{free_uid, is_taken};
use gemini::ui::widget::button::Button;
use gemini::ui::widget::canvas::Canvas;
use gemini::ui::widget::container::Container;
use gemini::ui::widget::label::Label;
use gemini::ui::widget::{BaseWidget, Widget, WidgetNode};

fn px(v: f64) -> Scalar {
    Scalar::from_raw((v * 65536.0) as i64)
}

fn rect(x: f64, y: f64, w: f64, h: f64) -> Layout {
    Layout { x: px(x), y: px(y), w: px(w), h: px(h) }
}

fn at(x: f64, y: f64) -> Point {
    Point::new(px(x), px(y))
}

fn moved(x: f64, y: f64) -> Event {
    Event::CursorMoved { position: at(x, y) }
}

fn press(button: PointerButton) -> Event {
    Event::MouseInput { button, state: ElementState::Pressed }
}

fn button(x: f64, y: f64, w: f64, h: f64) -> Button {
    Button::new().set_x(px(x)).set_y(px(y)).set_width(px(w)).set_height(px(h))
}

fn uid_of(node: &WidgetNode) -> usize {
    node.trigger().expect("a widget in the tree has its trigger").uid
}

fn children_of(node: &WidgetNode) -> &Vec<WidgetNode> {
    match node {
        WidgetNode::Container(c) => &c.children,
        _ => panic!("not a container"),
    }
}

fn sends(effect: &Effect) -> Option<usize> {
    match effect {
        Effect::Send(Signal::Update(uid)) => Some(*uid),
        _ => None,
    }
}

fn calls(effect: &Effect) -> Option<(usize, usize)> {
    match effect {
        Effect::Invoke(trigger, callback) => Some((trigger.uid, *callback)),
        _ => None,
    }
}

#[test]
fn a_new_dom_is_empty() {
    let dom = DOM::new(640, 512);
    assert!(dom.nodes().is_empty());
    assert_eq!(dom.cursor_position(), at(0.0, 0.0));
    assert_eq!(dom.window(), WindowSize { width: 640, height: 512 });
}

#[test]
fn every_widget_that_is_added_gets_a_trigger() {
    let mut inner = Container::new();
    inner.add_widget(Label::new().into_node());
    let mut root = Container::new();
    root.add_widget(button(0.0, 0.0, 1.0, 1.0).into_node());
    root.add_widget(inner.into_node());
    root.add_widget(Canvas::new().set_grid_range((3, 2), px(1.0), red()).into_node());
    let mut dom = DOM::new(640, 512);
    let started = dom.add_widget(root.into_node());
    assert!(started.is_empty());
    assert_eq!(dom.nodes().len(), 1);
    let root = &dom.nodes()[0];
    let mut uids = vec![uid_of(root)];
    for child in children_of(root) {
        uids.push(uid_of(child));
    }
    uids.push(uid_of(&children_of(&children_of(root)[1])[0]));
    match &children_of(root)[2] {
        WidgetNode::Canvas(c) => {
            let grid = c.grid.as_ref().unwrap();
            assert_eq!(grid.cells.len(), 2);
            for row in &grid.cells {
                assert_eq!(row.len(), 3);
                for cell in row {
                    uids.push(cell.trigger.expect("a cell in the tree has its trigger").uid);
                }
            }
        },
        _ => panic!("the third child is the canvas"),
    }
    assert_eq!(uids.len(), 11);
    for (i, a) in uids.iter().enumerate() {
        for b in &uids[i + 1..] {
            assert_ne!(a, b);
        }
    }
}

fn all_ids(node: &WidgetNode, into: &mut Vec<usize>) {
    into.push(uid_of(node));
    match node {
        WidgetNode::Container(c) => {
            for child in &c.children {
                all_ids(child, into);
            }
        },
        WidgetNode::Canvas(c) => {
            if let Some(grid) = &c.grid {
                for row in &grid.cells {
                    for cell in row {
                        into.push(cell.trigger.expect("a cell in the tree has its trigger").uid);
                    }
                }
            }
        },
        _ => {},
    }
}

#[test]
fn no_two_widgets_go_by_the_same_id() {
    let mut dom = DOM::new(640, 512);
    for _ in 0..6 {
        let mut root = Container::new();
        for _ in 0..5 {
            let mut inner = Container::new();
            inner.add_widget(Label::new().into_node());
            inner.add_widget(Canvas::new().set_grid(3, px(1.0), red()).into_node());
            root.add_widget(inner.into_node());
        }
        dom.add_widget(root.into_node());
    }
    dom.run(&Event::RedrawRequested);
    dom.run(&moved(1.0, 1.0));
    let mut ids = Vec::new();
    for node in dom.nodes() {
        all_ids(node, &mut ids);
    }
    assert_eq!(ids.len(), 6 * (1 + 5 * (1 + 1 + 1 + 9)));
    let mut sorted = ids.clone();
    sorted.sort();
    sorted.dedup();
    assert_eq!(sorted.len(), ids.len());
}

#[test]
fn a_drawn_id_that_is_taken_gives_way_to_the_least_free_one() {
    let taken = vec![7, 0, 1, 3, usize::MAX];
    assert!(is_taken(&taken, 7));
    assert!(is_taken(&taken, usize::MAX));
    assert!(!is_taken(&taken, 2));
    assert!(!is_taken(&Vec::new(), 0));
    assert_eq!(free_uid(9, &taken), 9);
    assert_eq!(free_uid(2, &taken), 2);
    assert_eq!(free_uid(7, &taken), 2);
    assert_eq!(free_uid(0, &taken), 2);
    assert_eq!(free_uid(usize::MAX, &taken), 2);
    assert_eq!(free_uid(5, &Vec::new()), 5);
    assert_eq!(free_uid(0, &vec![0]), 1);
    assert_eq!(free_uid(1, &vec![1]), 0);
    assert_eq!(free_uid(2, &vec![2, 1, 0]), 3);
}

#[test]
fn adding_keeps_what_was_there_and_what_the_widget_held() {
    let mut dom = DOM::new(640, 512);
    dom.add_widget(button(1.0, 2.0, 3.0, 4.0).set_id("first").into_node());
    let first = uid_of(&dom.nodes()[0]);
    dom.add_widget(
        button(5.0, 6.0, 7.0, 8.0)
            .set_id("second")
            .on_action(Action::Hover(Hover::new(red())))
            .into_node(),
    );
    assert_eq!(dom.nodes().len(), 2);
    assert_eq!(uid_of(&dom.nodes()[0]), first);
    assert_eq!(dom.nodes()[0].base().id, "first");
    assert_eq!(dom.nodes()[0].base().layout, rect(1.0, 2.0, 3.0, 4.0));
    assert_eq!(dom.nodes()[1].base().id, "second");
    assert_eq!(dom.nodes()[1].base().layout, rect(5.0, 6.0, 7.0, 8.0));
    match &dom.nodes()[1] {
        WidgetNode::Button(b) => assert_eq!(b.actions.len(), 1),
        _ => panic!("a button stays a button"),
    }
}

#[test]
fn producers_are_started_once_each_with_the_trigger_of_their_widget() {
    let mut inner = Container::new().connect(3);
    inner.add_widget(Label::new().connect(4).into_node());
    inner.add_widget(Label::new().into_node());
    let mut root = Container::new().connect(1);
    root.add_widget(button(0.0, 0.0, 1.0, 1.0).connect(2).into_node());
    root.add_widget(inner.into_node());
    root.add_widget(Label::new().connect(5).into_node());
    let mut dom = DOM::new(640, 512);
    let started = dom.add_widget(root.into_node());
    let root = &dom.nodes()[0];
    let kids = children_of(root);
    let expected = vec![
        (1, Trigger::new(uid_of(root))),
        (2, Trigger::new(uid_of(&kids[0]))),
        (3, Trigger::new(uid_of(&kids[1]))),
        (4, Trigger::new(uid_of(&children_of(&kids[1])[0]))),
        (5, Trigger::new(uid_of(&kids[2]))),
    ];
    assert_eq!(started, expected);
}

#[test]
fn a_cursor_movement_is_remembered_and_offered_to_the_actions() {
    let mut dom = DOM::new(640, 512);
    dom.add_widget(
        button(10.0, 10.0, 20.0, 20.0)
            .set_color(red())
            .on_action(Action::Hover(Hover::new(blue())))
            .into_node(),
    );
    let uid = uid_of(&dom.nodes()[0]);
    let reaction = dom.run(&moved(15.0, 15.0));
    assert!(reaction.paint.is_none());
    assert_eq!(reaction.effects.len(), 1);
    assert_eq!(sends(&reaction.effects[0]), Some(uid));
    assert_eq!(dom.cursor_position(), at(15.0, 15.0));
    assert!(dom.nodes()[0].base().state.hovered);
    assert_eq!(dom.nodes()[0].base().style.color.mode, ColorMode::Overlay(blue()));
    let reaction = dom.run(&moved(16.0, 15.0));
    assert!(reaction.effects.is_empty());
    let reaction = dom.run(&moved(160.0, 15.0));
    assert_eq!(reaction.effects.len(), 1);
    assert_eq!(dom.nodes()[0].base().style.color, ColorState::new(red()));
    assert_eq!(dom.cursor_position(), at(160.0, 15.0));
}

#[test]
fn every_action_sees_every_event_in_the_order_of_the_tree() {
    let click = Click::new().on(MouseButton::LeftButton, 30);
    let mut root = Container::new()
        .set_width(px(100.0))
        .set_height(px(100.0))
        .on_action(Action::Hover(Hover::new(blue())))
        .on_action(Action::CursorMove(CursorMove::new(10)));
    root.add_widget(
        button(0.0, 0.0, 50.0, 50.0)
            .on_action(Action::Hover(Hover::new(green())))
            .on_action(Action::Click(click))
            .into_node(),
    );
    root.add_widget(
        button(0.0, 0.0, 50.0, 50.0).on_action(Action::CursorMove(CursorMove::new(20))).into_node(),
    );
    let mut dom = DOM::new(640, 512);
    dom.add_widget(root.into_node());
    dom.add_widget(
        button(0.0, 0.0, 50.0, 50.0).on_action(Action::CursorMove(CursorMove::new(40))).into_node(),
    );
    let root_uid = uid_of(&dom.nodes()[0]);
    let first = uid_of(&children_of(&dom.nodes()[0])[0]);
    let second = uid_of(&children_of(&dom.nodes()[0])[1]);
    let other = uid_of(&dom.nodes()[1]);

    let reaction = dom.run(&moved(5.0, 5.0));
    assert_eq!(reaction.effects.len(), 5);
    assert_eq!(sends(&reaction.effects[0]), Some(root_uid));
    assert_eq!(calls(&reaction.effects[1]), Some((root_uid, 10)));
    assert_eq!(sends(&reaction.effects[2]), Some(first));
    assert_eq!(calls(&reaction.effects[3]), Some((second, 20)));
    assert_eq!(calls(&reaction.effects[4]), Some((other, 40)));

    let reaction = dom.run(&press(PointerButton::Left));
    assert_eq!(reaction.effects.len(), 1);
    assert_eq!(calls(&reaction.effects[0]), Some((first, 30)));
    let reaction = dom.run(&press(PointerButton::Right));
    assert!(reaction.effects.is_empty());
    assert_eq!(dom.cursor_position(), at(5.0, 5.0));
}

#[test]
fn cells_of_a_canvas_see_events_row_by_row() {
    let click = Click::new().on(MouseButton::LeftButton, 9);
    let canvas = Canvas::new()
        .set_width(px(40.0))
        .set_height(px(40.0))
        .set_grid(2, px(0.0), red())
        .set_cells_actions(vec![Action::Click(click)]);
    let mut dom = DOM::new(640, 512);
    dom.add_widget(canvas.into_node());
    dom.run(&Event::RedrawRequested);
    // the point where all four cells meet is on the edge of each
    dom.run(&moved(20.0, 20.0));
    let reaction = dom.run(&press(PointerButton::Left));
    let grid = match &dom.nodes()[0] {
        WidgetNode::Canvas(c) => c.grid.as_ref().unwrap(),
        _ => panic!("a canvas stays a canvas"),
    };
    let expected: Vec<Option<(usize, usize)>> = vec![
        Some((grid.cells[0][0].trigger.unwrap().uid, 9)),
        Some((grid.cells[0][1].trigger.unwrap().uid, 9)),
        Some((grid.cells[1][0].trigger.unwrap().uid, 9)),
        Some((grid.cells[1][1].trigger.unwrap().uid, 9)),
    ];
    assert_eq!(reaction.effects.iter().map(calls).collect::<Vec<_>>(), expected);
    dom.run(&moved(5.0, 5.0));
    let reaction = dom.run(&press(PointerButton::Left));
    let grid = match &dom.nodes()[0] {
        WidgetNode::Canvas(c) => c.grid.as_ref().unwrap(),
        _ => panic!("a canvas stays a canvas"),
    };
    assert_eq!(reaction.effects.len(), 1);
    assert_eq!(calls(&reaction.effects[0]), Some((grid.cells[0][0].trigger.unwrap().uid, 9)));
    assert_eq!(grid.cells[0][0].base.id, "0,0");
}

#[test]
fn the_wheel_zooms_with_the_size_of_the_window() {
    let mut dom = DOM::new(640, 512);
    dom.add_widget(
        Canvas::new()
            .set_width(px(512.0))
            .set_height(px(512.0))
            .on_action(Action::ZoomInOut(Zoom::new_with_bounds(ZoomLevel::Zoom16x, 2)))
            .into_node(),
    );
    let wheel = Event::MouseWheel { delta: ScrollDelta::Line(px(0.0), px(1.0)) };
    let reaction = dom.run(&wheel);
    assert!(reaction.paint.is_none());
    assert_eq!(reaction.effects.len(), 1);
    assert!(matches!(reaction.effects[0], Effect::Redraw));
    // the height may not pass that of the window
    assert_eq!(dom.nodes()[0].base().layout, rect(0.0, 0.0, 528.0, 512.0));
}

#[test]
fn a_scrollable_container_shifts_its_children() {
    let mut root = Container::new()
        .set_x(px(100.0))
        .set_y(px(50.0))
        .set_width(px(200.0))
        .set_height(px(100.0))
        .on_scroll();
    root.add_widget(button(0.0, 0.0, 400.0, 20.0).into_node());
    let mut dom = DOM::new(640, 512);
    dom.add_widget(root.into_node());
    dom.run(&Event::RedrawRequested);
    // the horizontal thumb is 150 long and lies at (100, 140)
    dom.run(&moved(110.0, 145.0));
    dom.run(&press(PointerButton::Left));
    let uid = uid_of(&dom.nodes()[0]);
    let reaction = dom.run(&moved(130.0, 145.0));
    assert_eq!(reaction.effects.len(), 1);
    assert_eq!(sends(&reaction.effects[0]), Some(uid));
    match &dom.nodes()[0] {
        WidgetNode::Container(c) => {
            let (x, _) = c.scrollbar.as_ref().unwrap();
            assert_eq!(x.base.layout, rect(120.0, 140.0, 150.0, 10.0));
            // overflow 100 over a way of 300 - 150 - 5 - 100 = 45, times a displacement of 20
            let shift = px(20.0).times(px(100.0).over(px(45.0)));
            assert_eq!(c.children[0].base().offset, Point::new(Scalar::from_raw(-shift.raw), px(0.0)));
            assert_eq!(c.children[0].base().layout, rect(100.0, 50.0, 400.0, 20.0));
        },
        _ => panic!("a container stays a container"),
    }
    dom.run(&Event::MouseInput { button: PointerButton::Left, state: ElementState::Released });
    let reaction = dom.run(&moved(150.0, 145.0));
    assert!(reaction.effects.is_empty());
}

#[test]
fn a_request_to_close_ends_the_loop() {
    let mut dom = DOM::new(640, 512);
    dom.add_widget(button(1.0, 2.0, 3.0, 4.0).into_node());
    let reaction = dom.run(&Event::CloseRequested);
    assert_eq!(reaction.paint, Some(Paint::Quit));
    assert!(reaction.effects.is_empty());
    assert_eq!(dom.nodes()[0].base().layout, rect(1.0, 2.0, 3.0, 4.0));
}

#[test]
fn a_request_to_paint_resolves_the_layout() {
    let mut root = Container::new()
        .set_x(px(10.0))
        .set_y(px(20.0))
        .set_width(px(640.0))
        .set_height(px(320.0))
        .set_flex_layout(FlexLayout::Grid(4))
        .set_gap(px(5.0));
    for _ in 0..5 {
        root.add_widget(button(0.0, 0.0, 100.0, 50.0).into_node());
    }
    let mut dom = DOM::new(640, 512);
    dom.add_widget(root.into_node());
    let reaction = dom.run(&Event::RedrawRequested);
    assert_eq!(reaction.paint, Some(Paint::Whole));
    assert!(reaction.effects.is_empty());
    let got: Vec<Layout> = children_of(&dom.nodes()[0]).iter().map(|n| n.base().layout).collect();
    assert_eq!(
        got,
        vec![
            rect(10.0, 20.0, 100.0, 50.0),
            rect(115.0, 20.0, 100.0, 50.0),
            rect(220.0, 20.0, 100.0, 50.0),
            rect(325.0, 20.0, 100.0, 50.0),
            rect(10.0, 75.0, 100.0, 50.0),
        ]
    );
    dom.resolve();
    let again: Vec<Layout> = children_of(&dom.nodes()[0]).iter().map(|n| n.base().layout).collect();
    assert_eq!(again, got);
}

#[test]
fn an_update_asks_for_the_widget_to_be_painted_over_its_rectangle() {
    let mut root = Container::new().set_width(px(100.0));
    root.add_widget(button(1.0, 2.0, 3.0, 4.0).into_node());
    let mut dom = DOM::new(640, 512);
    dom.add_widget(root.into_node());
    let uid = uid_of(&children_of(&dom.nodes()[0])[0]);
    let reaction = dom.run(&Event::User(Signal::Update(uid)));
    assert_eq!(reaction.paint, Some(Paint::Widget(uid, rect(1.0, 2.0, 3.0, 4.0))));
    assert!(reaction.effects.is_empty());
}

#[test]
fn a_signal_for_an_id_that_is_gone_does_nothing() {
    let mut dom = DOM::new(640, 512);
    dom.add_widget(button(1.0, 2.0, 3.0, 4.0).set_color(green()).into_node());
    let stale = uid_of(&dom.nodes()[0]).wrapping_add(1);
    let reaction = dom.run(&Event::User(Signal::Update(stale)));
    assert!(reaction.paint.is_none());
    let reaction = dom.run(&Event::User(Signal::Callback((stale, WidgetCallback::SetColor(red())))));
    assert!(reaction.paint.is_none());
    assert!(reaction.effects.is_empty());
    assert_eq!(dom.nodes()[0].base().style.color, ColorState::new(green()));
    assert!(dom.find(stale).is_none());
    let back = dom.replace_base(stale, BaseWidget::default().duplicate());
    assert!(back.is_err());
}

#[test]
fn callbacks_are_carried_out_one_by_one_in_their_order() {
    let mut root = Container::new();
    root.add_widget(button(1.0, 2.0, 3.0, 4.0).set_color(green()).into_node());
    root.add_widget(button(5.0, 6.0, 7.0, 8.0).set_color(green()).into_node());
    let mut dom = DOM::new(640, 512);
    dom.add_widget(root.into_node());
    let trigger = children_of(&dom.nodes()[0])[1].trigger().unwrap();
    let uid = trigger.uid;
    let signals = vec![
        trigger.update_callback(WidgetCallback::SetColor(red())),
        trigger.update_callback(WidgetCallback::SetColor(blue())),
    ];
    let mut seen = Vec::new();
    for signal in signals {
        let reaction = dom.run(&Event::User(signal));
        assert_eq!(reaction.paint, Some(Paint::Widget(uid, rect(5.0, 6.0, 7.0, 8.0))));
        assert!(reaction.effects.is_empty());
        seen.push(dom.find(uid).unwrap().style.color.color);
    }
    assert_eq!(seen, vec![red(), blue()]);
    let kids = children_of(&dom.nodes()[0]);
    assert_eq!(kids[1].base().style.color, ColorState::new(blue()));
    assert_eq!(kids[0].base().style.color, ColorState::new(green()));

    let reaction = dom.run(&Event::User(
        trigger.update_callback(WidgetCallback::SetSize(px(70.0), px(80.0))),
    ));
    assert_eq!(reaction.paint, Some(Paint::Widget(uid, rect(5.0, 6.0, 70.0, 80.0))));
    let many = 40;
    for i in 0..many {
        dom.run(&Event::User(
            trigger.update_callback(WidgetCallback::SetPosition(px(i as f64), px(0.0))),
        ));
    }
    assert_eq!(dom.find(uid).unwrap().layout, rect(39.0, 0.0, 70.0, 80.0));
}

#[test]
fn a_callback_reaches_a_cell_of_a_canvas() {
    let mut dom = DOM::new(640, 512);
    dom.add_widget(Canvas::new().set_grid(2, px(1.0), red()).into_node());
    let uid = match &dom.nodes()[0] {
        WidgetNode::Canvas(c) => c.grid.as_ref().unwrap().cells[1][0].trigger.unwrap().uid,
        _ => panic!("a canvas stays a canvas"),
    };
    let reaction =
        dom.run(&Event::User(Signal::Callback((uid, WidgetCallback::SetLabel("x".to_string())))));
    assert_eq!(reaction.paint, Some(Paint::Widget(uid, rect(0.0, 0.0, 0.0, 0.0))));
    match &dom.nodes()[0] {
        WidgetNode::Canvas(c) => {
            let cells = &c.grid.as_ref().unwrap().cells;
            assert_eq!(cells[1][0].base.text.label, "x");
            assert_eq!(cells[0][0].base.text.label, "");
            assert_eq!(cells[1][1].base.text.label, "");
        },
        _ => panic!("a canvas stays a canvas"),
    }
}

#[test]
fn other_events_change_nothing() {
    let mut dom = DOM::new(640, 512);
    dom.add_widget(
        button(1.0, 2.0, 3.0, 4.0).on_action(Action::Hover(Hover::new(blue()))).into_node(),
    );
    let reaction = dom.run(&Event::Other);
    assert!(reaction.paint.is_none());
    assert!(reaction.effects.is_empty());
    assert_eq!(dom.cursor_position(), at(0.0, 0.0));
}

#[test]
fn the_first_widget_in_tree_order_answers_to_an_id() {
    let named = |x: f64, uid: usize| {
        let mut n = button(x, 0.0, 1.0, 1.0).into_node();
        n.set_trigger(Some(Trigger::new(uid)));
        n
    };
    let mut inner = Container::new();
    inner.add_widget(named(1.0, 7));
    let mut inner = inner.into_node();
    inner.set_trigger(Some(Trigger::new(5)));
    let mut root = Container::new();
    root.add_widget(named(2.0, 6));
    root.add_widget(inner);
    root.add_widget(named(3.0, 7));
    let mut root = root.into_node();
    root.set_trigger(Some(Trigger::new(4)));

    assert_eq!(find(&root, 7).unwrap().layout.x, px(1.0));
    assert_eq!(find(&root, 6).unwrap().layout.x, px(2.0));
    assert!(find(&root, 8).is_none());
    assert_eq!(index_among(children_of(&root), 7), Some(1));
    assert_eq!(index_among(children_of(&root), 4), None);

    let mut base = BaseWidget::default();
    base.layout.x = px(50.0);
    let had = replace_base(&mut root, 7, base);
    assert_eq!(had.layout.x, px(1.0));
    assert_eq!(find(&root, 7).unwrap().layout.x, px(50.0));
    assert_eq!(children_of(&root)[2].base().layout.x, px(3.0));
    assert_eq!(children_of(&children_of(&root)[1])[0].base().layout.x, px(50.0));
}

#[test]
fn a_tree_can_be_offered_an_event_by_itself() {
    let mut node = button(0.0, 0.0, 10.0, 10.0)
        .on_action(Action::Hover(Hover::new(blue())))
        .on_action(Action::CursorMove(CursorMove::new(3)))
        .into_node();
    node.set_trigger(Some(Trigger::new(12)));
    let mut effects = vec![Effect::Redraw];
    apply_actions(
        &mut node,
        &moved(5.0, 5.0),
        at(5.0, 5.0),
        WindowSize { width: 1, height: 1 },
        &mut effects,
    );
    assert_eq!(effects.len(), 3);
    assert!(matches!(effects[0], Effect::Redraw));
    assert_eq!(sends(&effects[1]), Some(12));
    assert_eq!(calls(&effects[2]), Some((12, 3)));
}

#[test]
fn a_widget_is_located_as_it_stands_in_its_tree() {
    let mut root = Container::new();
    root.add_widget(button(1.0, 0.0, 1.0, 1.0).into_node());
    root.add_widget(Canvas::new().set_x(px(2.0)).set_grid(2, px(1.0), red()).into_node());
    let mut dom = DOM::new(640, 512);
    dom.add_widget(root.into_node());
    let kids = children_of(&dom.nodes()[0]);
    let canvas_uid = uid_of(&kids[1]);
    match dom.locate(canvas_uid) {
        Some(Found::Widget(WidgetNode::Canvas(c))) => {
            assert_eq!(c.base.layout.x, px(2.0));
            assert!(c.grid.is_some());
        },
        _ => panic!("the canvas is a node of the tree"),
    }
    let cell_uid = match &kids[1] {
        WidgetNode::Canvas(c) => c.grid.as_ref().unwrap().cells[1][1].trigger.unwrap().uid,
        _ => panic!("the second child is the canvas"),
    };
    match dom.locate(cell_uid) {
        Some(Found::Cell(cell)) => assert_eq!(cell.trigger, Some(Trigger::new(cell_uid))),
        _ => panic!("a cell is found as a cell"),
    }
    let found = locate(&dom.nodes()[0], uid_of(&kids[0])).expect("the button is in the tree");
    assert_eq!(found.base().layout.x, px(1.0));
    let mut free = 0;
    while dom.find(free).is_some() {
        free += 1;
    }
    assert!(dom.locate(free).is_none());
}
