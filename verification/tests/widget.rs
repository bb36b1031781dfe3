use gemini::action::click::{Click, MouseButton};
use gemini::action::hover::Hover;
use gemini::action::Action;
use gemini::scalar::Scalar;
use gemini::ui::color::{blue, green, light_gray, red, white, ColorMode, ColorState};
use gemini::ui::layout::{Layout, Point};
use gemini::ui::state::State;
use gemini::ui::style::Style;
use gemini::ui::sync::{Signal, Trigger, WidgetCallback};
use gemini::ui::text::Text;
use gemini::ui::widget::button::Button;
use gemini::ui::widget::canvas::{name_cell, Canvas};
use gemini::ui::widget::cell::Cell;
use gemini::ui::widget::container::Container;
use gemini::ui::widget::heading::Heading;
use gemini::ui::widget::label::Label;
use gemini::ui::widget::scrollbar::ScrollBar;
use gemini::ui::widget::{BaseWidget, Widget, WidgetNode};

fn px(v: f64) -> Scalar {
    Scalar::from_raw((v * 65536.0) as i64)
}

fn rect(x: f64, y: f64, w: f64, h: f64) -> Layout {
    Layout { x: px(x), y: px(y), w: px(w), h: px(h) }
}

#[test]
fn a_new_widget_is_blank() {
    let b = Button::new();
    assert!(b.base.id.is_empty());
    assert!(b.base.text.label.is_empty());
    assert_eq!(b.base.text.font_size, px(12.0));
    assert_eq!(b.base.text.pos, Point::default());
    assert_eq!(b.base.text.extent, Point::default());
    assert!(!b.base.text.halign);
    assert!(!b.base.text.valign);
    assert_eq!(b.base.style, Style { color: ColorState::new(white()), radius: 0 });
    assert_eq!(b.base.layout, Layout::default());
    assert_eq!(b.base.offset, Point::default());
    assert_eq!(b.base.state, State { hovered: false });
    assert!(b.actions.is_empty());
    assert!(b.emitter.is_none());
    assert!(b.trigger.is_none());
    assert_eq!(Style::default(), b.base.style);
    assert_eq!(State::default(), b.base.state);
    let t = Text::default();
    assert_eq!(t.font_size, px(12.0));
    assert_eq!(t.get_true_dimensions(), Point::default());
}

#[test]
fn setters_change_what_they_name() {
    let b = Button::new()
        .set_label("Click me")
        .set_label_size(px(20.0))
        .set_id("ok")
        .set_x(px(1.0))
        .set_y(px(2.0))
        .set_width(px(3.0))
        .set_height(px(4.0))
        .set_radius(6)
        .set_color(red())
        .set_label_vertical()
        .on_action(Action::Hover(Hover::new(blue())))
        .connect(11);
    assert_eq!(b.base.text.label, "Click me");
    assert_eq!(b.base.text.font_size, px(20.0));
    assert_eq!(b.base.id, "ok");
    assert_eq!(b.base.layout, rect(1.0, 2.0, 3.0, 4.0));
    assert_eq!(b.base.style, Style { color: ColorState::new(red()), radius: 6 });
    assert!(b.base.text.valign);
    assert!(!b.base.text.halign);
    assert_eq!(b.actions.len(), 1);
    assert!(matches!(b.actions[0], Action::Hover(h) if h.hover_color == blue()));
    assert_eq!(b.emitter, Some(11));
    assert_eq!(b.emitter(), Some(11));
    assert!(b.internal_trigger().is_none());
    let b = b.set_label_horizontal();
    assert!(b.base.text.halign);
    assert_eq!(b.base().layout, rect(1.0, 2.0, 3.0, 4.0));
}

#[test]
fn set_color_shows_the_color_solid() {
    let mut l = Label::new();
    l.base.style.color.set_mode(ColorMode::Overlay(blue()));
    let l = l.set_color(green());
    assert_eq!(l.base.style.color, ColorState::new(green()));
}

#[test]
fn every_widget_becomes_a_node_of_its_kind() {
    assert!(matches!(Button::new().into_node(), WidgetNode::Button(_)));
    assert!(matches!(Canvas::new().into_node(), WidgetNode::Canvas(_)));
    assert!(matches!(Cell::new().into_node(), WidgetNode::Cell(_)));
    assert!(matches!(Container::new().into_node(), WidgetNode::Container(_)));
    assert!(matches!(Heading::new().into_node(), WidgetNode::Heading(_)));
    assert!(matches!(Label::new().into_node(), WidgetNode::Label(_)));
    assert!(matches!(ScrollBar::new_x().into_node(), WidgetNode::ScrollBar(_)));
}

#[test]
fn a_node_gives_access_to_the_parts_of_its_widget() {
    let mut node = Heading::new().set_x(px(4.0)).connect(3).into_node();
    assert_eq!(node.base().layout.x, px(4.0));
    assert_eq!(node.emitter(), Some(3));
    assert!(node.trigger().is_none());
    node.set_trigger(Some(Trigger::new(5)));
    assert_eq!(node.trigger(), Some(Trigger::new(5)));
    node.base_mut().layout.y = px(9.0);
    assert_eq!(node.base().layout, rect(4.0, 9.0, 0.0, 0.0));
    {
        let (actions, base) = node.actions_and_base_mut();
        actions.push(Action::Hover(Hover::new(red())));
        base.layout.w = px(2.0);
    }
    match &node {
        WidgetNode::Heading(h) => {
            assert_eq!(h.actions.len(), 1);
            assert_eq!(h.base.layout, rect(4.0, 9.0, 2.0, 0.0));
            assert_eq!(h.trigger(), Trigger::new(5));
        },
        _ => panic!("a heading stays a heading"),
    }
}

#[test]
fn headings_come_in_three_sizes() {
    assert_eq!(Heading::new().set_large_heading().base.text.font_size, px(32.0));
    assert_eq!(Heading::new().set_medium_heading().base.text.font_size, px(24.0));
    assert_eq!(Heading::new().set_small_heading().base.text.font_size, px(18.0));
    let h = Heading::new().set_label("News").set_x(px(3.0)).set_large_heading();
    assert_eq!(h.base.text.label, "News");
    assert_eq!(h.base.layout.x, px(3.0));
}

#[test]
fn new_scrollbars_are_hidden_along_their_track() {
    let x = ScrollBar::new_x();
    assert_eq!(x.base.layout, rect(0.0, 0.0, -1.0, 10.0));
    assert_eq!(x.buffer, px(5.0));
    assert_eq!(x.base.style.color, ColorState::new(light_gray()));
    assert!(!x.base.layout.is_inbounds(px(0.0), px(0.0)));
    let y = ScrollBar::new_y();
    assert_eq!(y.base.layout, rect(0.0, 0.0, 10.0, -1.0));
    assert_eq!(y.buffer, px(5.0));
    assert_eq!(y.base.style.color, ColorState::new(light_gray()));
    assert!(!y.base.layout.is_inbounds(px(0.0), px(0.0)));
}

#[test]
fn set_grid_makes_a_square_grid() {
    let c = Canvas::new().set_width(px(64.0)).set_grid(3, px(2.0), red());
    let g = c.grid.as_ref().unwrap();
    assert_eq!((g.cols, g.rows), (3, 3));
    assert_eq!(g.thickness, px(2.0));
    assert_eq!(g.color, ColorState::new(red()));
    assert_eq!(g.cells.len(), 3);
    assert!(g.cells.iter().all(|row| row.len() == 3));
    assert_eq!(c.base.layout.w, px(64.0));
}

#[test]
fn set_grid_range_takes_columns_then_rows() {
    let c = Canvas::new().set_grid_range((2, 4), px(1.0), blue());
    let g = c.grid.as_ref().unwrap();
    assert_eq!((g.cols, g.rows), (2, 4));
    assert_eq!(g.cells.len(), 4);
    assert!(g.cells.iter().all(|row| row.len() == 2));
    let c = c.set_grid(1, px(0.0), red());
    assert_eq!(c.grid.as_ref().unwrap().cells.len(), 1);
}

#[test]
fn cells_are_named_after_column_and_row() {
    assert_eq!(name_cell(0, 0), "0,0");
    assert_eq!(name_cell(3, 1), "3,1");
    assert_eq!(name_cell(10, 12), "10,12");
    assert_eq!(name_cell(907, 10000), "907,10000");
    assert_eq!(name_cell(usize::MAX, 9), format!("{},9", usize::MAX));
}

#[test]
fn set_cells_actions_names_every_cell_and_copies_the_actions() {
    let click = Click::new().on(MouseButton::LeftButton, 1).on(MouseButton::RightButton, 2);
    let c = Canvas::new()
        .set_grid_range((11, 2), px(1.0), blue())
        .set_cell_action((1, 10), Action::Hover(Hover::new(green())))
        .set_cells_actions(vec![Action::Click(click), Action::Hover(Hover::new(red()))]);
    let g = c.grid.as_ref().unwrap();
    for row in 0..2 {
        for col in 0..11 {
            let cell = &g.cells[row][col];
            assert_eq!(cell.base.id, format!("{},{}", col, row));
            let own = if (row, col) == (1, 10) { 1 } else { 0 };
            assert_eq!(cell.actions.len(), own + 2);
            match &cell.actions[own] {
                Action::Click(copy) => assert_eq!(
                    copy.button_map,
                    vec![(MouseButton::LeftButton, 1), (MouseButton::RightButton, 2)]
                ),
                _ => panic!("the click action comes first"),
            }
            assert!(matches!(cell.actions[own + 1], Action::Hover(h) if h.hover_color == red()));
        }
    }
    assert!(matches!(g.cells[1][10].actions[0], Action::Hover(h) if h.hover_color == green()));
}

#[test]
fn set_cell_action_reaches_one_cell() {
    let c = Canvas::new()
        .set_grid(4, px(1.0), blue())
        .set_cell_action((1, 0), Action::Hover(Hover::new(red())));
    let g = c.grid.as_ref().unwrap();
    for row in 0..4 {
        for col in 0..4 {
            let n = if (row, col) == (1, 0) { 1 } else { 0 };
            assert_eq!(g.cells[row][col].actions.len(), n);
        }
    }
}

#[test]
fn a_canvas_without_a_grid_ignores_actions_for_cells() {
    let c = Canvas::new()
        .set_cell_action((7, 7), Action::Hover(Hover::new(red())))
        .set_cells_actions(vec![Action::Hover(Hover::new(red()))]);
    assert!(c.grid.is_none());
    assert!(c.actions.is_empty());
}

#[test]
fn actions_are_copied_alike() {
    let click = Click::new().on(MouseButton::BackButton, 4);
    match Action::Click(click).duplicate() {
        Action::Click(copy) => assert_eq!(copy.button_map, vec![(MouseButton::BackButton, 4)]),
        _ => panic!("a click stays a click"),
    }
    assert!(matches!(Action::Hover(Hover::new(red())).duplicate(), Action::Hover(h) if h.hover_color == red()));
}

#[test]
fn a_trigger_makes_signals_for_its_widget() {
    let t = Trigger::new(77);
    assert_eq!(t.uid, 77);
    assert!(matches!(t.update(), Signal::Update(77)));
    match t.update_callback(WidgetCallback::SetColor(red())) {
        Signal::Callback((uid, WidgetCallback::SetColor(c))) => {
            assert_eq!(uid, 77);
            assert_eq!(c, red());
        },
        _ => panic!("a callback stays a callback"),
    }
}

#[test]
fn callbacks_change_what_they_name() {
    let mut b = BaseWidget::default();
    b.layout = rect(1.0, 2.0, 3.0, 4.0);
    b.style.color.set_mode(ColorMode::Overlay(blue()));
    WidgetCallback::SetColor(red()).apply(&mut b);
    assert_eq!(b.style.color, ColorState::new(red()));
    WidgetCallback::SetLabel("seven".to_string()).apply(&mut b);
    assert_eq!(b.text.label, "seven");
    WidgetCallback::SetSize(px(30.0), px(40.0)).apply(&mut b);
    assert_eq!(b.layout, rect(1.0, 2.0, 30.0, 40.0));
    WidgetCallback::SetPosition(px(10.0), px(20.0)).apply(&mut b);
    assert_eq!(b.layout, rect(10.0, 20.0, 30.0, 40.0));
    let copy = b.duplicate();
    assert_eq!(copy.text.label, "seven");
    assert_eq!(copy.layout, b.layout);
    assert_eq!(copy.style, b.style);
}
