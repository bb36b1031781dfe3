use gemini::scalar::Scalar;
use gemini::ui::layout::{FlexLayout, Layout};
use gemini::ui::widget::button::Button;
use gemini::ui::widget::container::Container;
use gemini::ui::widget::{Widget, WidgetNode};

fn px(v: f64) -> Scalar {
    Scalar::from_raw((v * 65536.0) as i64)
}

fn rect(x: f64, y: f64, w: f64, h: f64) -> Layout {
    Layout { x: px(x), y: px(y), w: px(w), h: px(h) }
}

fn button(w: f64, h: f64) -> WidgetNode {
    Button::new().set_width(px(w)).set_height(px(h)).set_x(px(999.0)).set_y(px(-7.0)).into_node()
}

fn parent(x: f64, y: f64, w: f64, h: f64, children: Vec<WidgetNode>) -> Container {
    let mut c = Container::new().set_x(px(x)).set_y(px(y)).set_width(px(w)).set_height(px(h));
    for child in children {
        c.add_widget(child);
    }
    c
}

fn layouts(c: &Container) -> Vec<Layout> {
    c.children.iter().map(|n| n.base().layout).collect()
}

#[test]
fn grid_of_four_columns_wraps_the_fifth_child() {
    let mut c = parent(0.0, 0.0, 640.0, 320.0, (0..5).map(|_| button(100.0, 50.0)).collect())
        .set_flex_layout(FlexLayout::Grid(4))
        .set_gap(px(5.0));
    c.create_flex_grid_layout(4);
    assert_eq!(
        layouts(&c),
        vec![
            rect(0.0, 0.0, 100.0, 50.0),
            rect(105.0, 0.0, 100.0, 50.0),
            rect(210.0, 0.0, 100.0, 50.0),
            rect(315.0, 0.0, 100.0, 50.0),
            rect(0.0, 55.0, 100.0, 50.0),
        ]
    );
}

#[test]
fn grid_positions_start_at_the_origin_of_the_parent() {
    let mut c = parent(10.0, 20.0, 640.0, 320.0, (0..5).map(|_| button(100.0, 50.0)).collect())
        .set_gap(px(5.0));
    c.create_flex_grid_layout(4);
    assert_eq!(
        layouts(&c),
        vec![
            rect(10.0, 20.0, 100.0, 50.0),
            rect(115.0, 20.0, 100.0, 50.0),
            rect(220.0, 20.0, 100.0, 50.0),
            rect(325.0, 20.0, 100.0, 50.0),
            rect(10.0, 75.0, 100.0, 50.0),
        ]
    );
}

#[test]
fn grid_is_centered_as_one_block() {
    let mut c = parent(0.0, 0.0, 640.0, 320.0, (0..5).map(|_| button(100.0, 50.0)).collect())
        .set_gap(px(5.0))
        .set_horizontal()
        .set_vertical();
    c.create_flex_grid_layout(4);
    // the block is 415 wide and 105 high
    assert_eq!(
        layouts(&c),
        vec![
            rect(112.5, 107.5, 100.0, 50.0),
            rect(217.5, 107.5, 100.0, 50.0),
            rect(322.5, 107.5, 100.0, 50.0),
            rect(427.5, 107.5, 100.0, 50.0),
            rect(112.5, 162.5, 100.0, 50.0),
        ]
    );
}

#[test]
fn grid_holds_children_to_their_share() {
    // share of the width: 640 / 4 - 3 * 5 = 145; of the height: 320 / 2 - 5 = 155
    let mut c = parent(0.0, 0.0, 640.0, 320.0, (0..5).map(|_| button(200.0, 300.0)).collect())
        .set_gap(px(5.0));
    c.create_flex_grid_layout(4);
    assert_eq!(
        layouts(&c),
        vec![
            rect(0.0, 0.0, 145.0, 155.0),
            rect(150.0, 0.0, 145.0, 155.0),
            rect(300.0, 0.0, 145.0, 155.0),
            rect(450.0, 0.0, 145.0, 155.0),
            rect(0.0, 160.0, 145.0, 155.0),
        ]
    );
}

#[test]
fn grid_follows_the_edges_of_uneven_children() {
    let mut c = parent(
        0.0,
        0.0,
        1000.0,
        1000.0,
        vec![button(10.0, 30.0), button(20.0, 10.0), button(30.0, 20.0), button(40.0, 5.0)],
    )
    .set_gap(px(1.0));
    c.create_flex_grid_layout(2);
    assert_eq!(
        layouts(&c),
        vec![
            rect(0.0, 0.0, 10.0, 30.0),
            rect(11.0, 0.0, 20.0, 10.0),
            rect(0.0, 31.0, 30.0, 20.0),
            rect(31.0, 11.0, 40.0, 5.0),
        ]
    );
}

#[test]
fn grid_raises_negative_sizes_to_zero() {
    let mut c = parent(0.0, 0.0, 100.0, 100.0, vec![button(-5.0, -1.0), button(10.0, 10.0)]);
    c.create_flex_grid_layout(2);
    assert_eq!(layouts(&c), vec![rect(0.0, 0.0, 0.0, 0.0), rect(0.0, 0.0, 10.0, 10.0)]);
}

#[test]
fn grid_without_children_changes_nothing() {
    let mut c = parent(1.0, 2.0, 3.0, 4.0, vec![]);
    c.create_flex_grid_layout(3);
    assert!(c.children.is_empty());
    assert_eq!(c.base.layout, rect(1.0, 2.0, 3.0, 4.0));
}

#[test]
fn column_stacks_children_with_gaps() {
    let mut c = parent(10.0, 20.0, 640.0, 320.0, (0..3).map(|_| button(100.0, 50.0)).collect())
        .set_gap(px(5.0));
    c.create_flex_col_layout();
    assert_eq!(
        layouts(&c),
        vec![
            rect(10.0, 20.0, 100.0, 50.0),
            rect(10.0, 75.0, 100.0, 50.0),
            rect(10.0, 130.0, 100.0, 50.0),
        ]
    );
}

#[test]
fn column_is_centered_by_its_whole_height() {
    let mut c = parent(0.0, 0.0, 640.0, 320.0, vec![button(100.0, 50.0), button(200.0, 30.0)])
        .set_gap(px(10.0))
        .set_horizontal()
        .set_vertical();
    c.create_flex_col_layout();
    // the stack is 50 + 10 + 30 = 90 high: (320 - 90) / 2 = 115
    assert_eq!(
        layouts(&c),
        vec![rect(270.0, 115.0, 100.0, 50.0), rect(220.0, 175.0, 200.0, 30.0)]
    );
}

#[test]
fn column_holds_heights_to_their_share() {
    // share: 320 / 2 - 10 = 150
    let mut c = parent(0.0, 0.0, 640.0, 320.0, vec![button(100.0, 500.0), button(100.0, 40.0)])
        .set_gap(px(10.0));
    c.create_flex_col_layout();
    assert_eq!(layouts(&c), vec![rect(0.0, 0.0, 100.0, 150.0), rect(0.0, 160.0, 100.0, 40.0)]);
}

#[test]
fn column_share_is_rounded_toward_zero() {
    let mut c = parent(0.0, 0.0, 640.0, 320.0, (0..3).map(|_| button(100.0, 200.0)).collect())
        .set_gap(px(5.0));
    c.create_flex_col_layout();
    // 320 units are 20971520 raw steps; a third is 6990506, less two gaps of 327680
    let share = 6990506 - 2 * 327680;
    assert_eq!(c.children[0].base().layout.h.raw, share);
    assert_eq!(c.children[1].base().layout.y.raw, share + 327680);
    assert_eq!(c.children[2].base().layout.y.raw, 2 * (share + 327680));
}

#[test]
fn column_with_gaps_larger_than_the_share_leaves_no_height() {
    let mut c = parent(0.0, 0.0, 640.0, 30.0, (0..3).map(|_| button(100.0, 20.0)).collect())
        .set_gap(px(50.0));
    c.create_flex_col_layout();
    assert_eq!(
        layouts(&c),
        vec![
            rect(0.0, 0.0, 100.0, 0.0),
            rect(0.0, 50.0, 100.0, 0.0),
            rect(0.0, 100.0, 100.0, 0.0),
        ]
    );
}

#[test]
fn plain_layout_snaps_children_to_the_parent() {
    let mut c = parent(10.0, 20.0, 640.0, 320.0, vec![button(100.0, 50.0), button(30.0, 30.0)]);
    c.create_normal_layout();
    assert_eq!(layouts(&c), vec![rect(10.0, 20.0, 100.0, 50.0), rect(10.0, 20.0, 30.0, 30.0)]);
}

#[test]
fn plain_layout_centers_each_child_by_itself() {
    let mut c = parent(10.0, 20.0, 640.0, 320.0, vec![button(100.0, 50.0), button(30.0, 30.0)])
        .set_horizontal()
        .set_vertical();
    c.create_normal_layout();
    assert_eq!(layouts(&c), vec![rect(280.0, 155.0, 100.0, 50.0), rect(315.0, 165.0, 30.0, 30.0)]);
}

#[test]
fn plain_layout_keeps_a_child_larger_than_the_parent_at_the_origin() {
    let mut c = parent(10.0, 20.0, 50.0, 40.0, vec![button(100.0, 50.0)])
        .set_horizontal()
        .set_vertical();
    c.create_normal_layout();
    assert_eq!(layouts(&c), vec![rect(10.0, 20.0, 100.0, 50.0)]);
}

#[test]
fn snap_to_parent_moves_only_the_position() {
    let c = parent(10.0, 20.0, 50.0, 40.0, vec![]);
    let mut child = button(5.0, 6.0);
    c.snap_to_parent(&mut child);
    assert_eq!(child.base().layout, rect(10.0, 20.0, 5.0, 6.0));
}

#[test]
fn builders_set_what_they_name() {
    let c = Container::new();
    assert_eq!(c.flex, FlexLayout::Plain);
    assert!(c.scrollbar.is_none());
    assert!(c.children.is_empty());
    let c = c.set_gap(px(3.0)).set_flex_layout(FlexLayout::Col).set_vertical();
    assert_eq!(c.gap, px(3.0));
    assert_eq!(c.flex, FlexLayout::Col);
    assert!(c.valign);
    assert!(!c.halign);
    let c = c.set_horizontal();
    assert!(c.halign);
}

#[test]
fn on_scroll_adds_hidden_scrollbars_and_a_scroll_action() {
    let c = Container::new().on_scroll();
    let (x, y) = c.scrollbar.as_ref().unwrap();
    assert_eq!(x.base.layout, rect(0.0, 0.0, -1.0, 10.0));
    assert_eq!(y.base.layout, rect(0.0, 0.0, 10.0, -1.0));
    assert_eq!(x.buffer, px(5.0));
    assert_eq!(y.buffer, px(5.0));
    assert_eq!(x.base.style.color.color, gemini::ui::color::light_gray());
    assert_eq!(c.actions.len(), 1);
    assert!(matches!(c.actions[0], gemini::action::Action::Scroll(_)));
}

#[test]
fn children_are_drawn_clear_of_the_scrollbars() {
    let c = parent(100.0, 50.0, 200.0, 100.0, vec![]);
    assert!(c.clipping_region().is_none());
    // hidden thumbs take no room but their buffers do
    let c = parent(100.0, 50.0, 200.0, 100.0, vec![]).on_scroll();
    assert_eq!(c.clipping_region(), Some(rect(100.0, 50.0, 295.0, 145.0)));
    let mut c = parent(100.0, 50.0, 200.0, 100.0, vec![]).on_scroll();
    {
        let (x, y) = c.scrollbar.as_mut().unwrap();
        x.base.layout.w = px(150.0);
        y.base.layout.h = px(50.0);
    }
    assert_eq!(c.clipping_region(), Some(rect(100.0, 50.0, 285.0, 135.0)));
    let c = parent(-100.0, -50.0, 20.0, 10.0, vec![]).on_scroll();
    assert_eq!(c.clipping_region(), Some(rect(-100.0, -50.0, 85.0, 45.0)));
}

fn inside(parent: Layout, child: Layout) -> bool {
    child.w.raw >= 0
        && child.h.raw >= 0
        && child.x.raw >= parent.x.raw
        && child.y.raw >= parent.y.raw
        && child.x.raw + child.w.raw <= parent.x.raw + parent.w.raw
        && child.y.raw + child.h.raw <= parent.y.raw + parent.h.raw
}

#[test]
fn children_of_a_grid_stay_inside_their_container() {
    for (halign, valign) in [(false, false), (true, false), (false, true), (true, true)] {
        let sizes = [(500.0, 3.0), (1.0, 900.0), (77.7, 77.7), (-4.0, 20.0), (0.0, 0.0), (640.0, 320.0), (9.0, 9.0)];
        let mut c = parent(-30.0, 12.5, 100.0, 57.0, sizes.iter().map(|s| button(s.0, s.1)).collect())
            .set_gap(px(2.25));
        if halign {
            c = c.set_horizontal();
        }
        if valign {
            c = c.set_vertical();
        }
        c.create_flex_grid_layout(3);
        for l in layouts(&c) {
            assert!(inside(c.base.layout, l));
        }
    }
}

#[test]
fn children_of_a_column_stay_between_top_and_bottom() {
    for valign in [false, true] {
        let sizes = [(5.0, 300.0), (1.0, 9.0), (7.0, 77.7), (4.0, -20.0), (0.0, 0.0)];
        let mut c = parent(-30.0, 12.5, 100.0, 57.0, sizes.iter().map(|s| button(s.0, s.1)).collect())
            .set_gap(px(1.5));
        if valign {
            c = c.set_vertical();
        }
        c.create_flex_col_layout();
        for l in layouts(&c) {
            assert!(inside(c.base.layout, l));
        }
    }
}
