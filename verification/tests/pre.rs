use gemini::render::pre::{is_resolvable, is_tabled, PreRenderer};
use gemini::render::row_major;
use gemini::scalar::Scalar;
use gemini::ui::color::{black, red, ColorState};
use gemini::ui::layout::{FlexLayout, Layout, Point};
use gemini::ui::widget::button::Button;
use gemini::ui::widget::canvas::Canvas;
use gemini::ui::widget::container::Container;
use gemini::ui::widget::label::Label;
use gemini::ui::widget::{Widget, WidgetNode};

fn px(v: f64) -> Scalar {
    Scalar::from_raw((v * 65536.0) as i64)
}

fn rect(x: f64, y: f64, w: f64, h: f64) -> Layout {
    Layout { x: px(x), y: px(y), w: px(w), h: px(h) }
}

fn at(x: f64, y: f64) -> Point {
    Point::new(px(x), px(y))
}

fn label(text: &str, extent: (f64, f64)) -> Label {
    let mut l = Label::new().set_label(text);
    l.base.text.extent = at(extent.0, extent.1);
    l
}

fn child(x: f64, y: f64, w: f64, h: f64) -> WidgetNode {
    Button::new().set_x(px(x)).set_y(px(y)).set_width(px(w)).set_height(px(h)).into_node()
}

#[test]
fn text_is_centered_in_a_widget_with_a_size() {
    let mut node = label("Hi", (30.0, 12.0))
        .set_width(px(100.0))
        .set_height(px(40.0))
        .set_label_horizontal()
        .set_label_vertical()
        .into_node();
    PreRenderer::new().adjust_text_layout(&mut node);
    assert_eq!(node.base().text.pos, at(35.0, 14.0));
    assert_eq!(node.base().layout, rect(0.0, 0.0, 100.0, 40.0));
}

#[test]
fn text_is_centered_only_along_the_axes_asked_for() {
    let mut l = label("Hi", (30.0, 12.0)).set_width(px(100.0)).set_height(px(40.0));
    l.base.text.pos = at(1.0, 2.0);
    let mut node = l.set_label_vertical().into_node();
    PreRenderer::new().adjust_text_layout(&mut node);
    assert_eq!(node.base().text.pos, at(1.0, 14.0));
}

#[test]
fn a_widget_without_a_size_takes_the_size_of_its_text() {
    let mut node = label("Hi", (30.0, 12.0)).set_label_horizontal().set_label_vertical().into_node();
    PreRenderer::new().adjust_text_layout(&mut node);
    assert_eq!(node.base().layout, rect(0.0, 0.0, 30.0, 12.0));
    assert_eq!(node.base().text.pos, at(0.0, 0.0));
    let mut node = label("Hi", (30.0, 12.0)).set_width(px(50.0)).into_node();
    PreRenderer::new().adjust_text_layout(&mut node);
    assert_eq!(node.base().layout, rect(0.0, 0.0, 50.0, 12.0));
}

#[test]
fn a_widget_without_a_label_is_left_alone() {
    let mut l = Label::new().set_label_horizontal().set_label_vertical();
    l.base.text.extent = at(30.0, 12.0);
    l.base.text.pos = at(1.0, 2.0);
    let mut node = l.into_node();
    PreRenderer::new().adjust_text_layout(&mut node);
    assert_eq!(node.base().layout, rect(0.0, 0.0, 0.0, 0.0));
    assert_eq!(node.base().text.pos, at(1.0, 2.0));
}

fn scrolled(children: Vec<WidgetNode>) -> Container {
    let mut c = Container::new()
        .set_x(px(100.0))
        .set_y(px(50.0))
        .set_width(px(200.0))
        .set_height(px(100.0))
        .on_scroll();
    for n in children {
        c.add_widget(n);
    }
    c
}

#[test]
fn thumbs_lie_on_the_far_edges_and_take_the_part_that_is_shown() {
    let mut c = scrolled(vec![child(100.0, 50.0, 400.0, 250.0)]);
    PreRenderer::new().adjust_scrolling(&mut c);
    let (x, y) = c.scrollbar.as_ref().unwrap();
    // 300 of 400 are shown across, 150 of 300 down
    assert_eq!(x.base.layout, rect(100.0, 140.0, 150.0, 10.0));
    assert_eq!(y.base.layout, rect(290.0, 50.0, 10.0, 50.0));
}

#[test]
fn thumbs_span_the_track_where_nothing_overflows() {
    let mut c = scrolled(vec![child(100.0, 50.0, 40.0, 20.0)]);
    PreRenderer::new().adjust_scrolling(&mut c);
    let (x, y) = c.scrollbar.as_ref().unwrap();
    assert_eq!(x.base.layout, rect(100.0, 140.0, 200.0, 10.0));
    assert_eq!(y.base.layout, rect(290.0, 50.0, 10.0, 100.0));
    let mut c = scrolled(vec![]);
    PreRenderer::new().adjust_scrolling(&mut c);
    let (x, y) = c.scrollbar.as_ref().unwrap();
    assert_eq!(x.base.layout, rect(100.0, 140.0, 200.0, 10.0));
    assert_eq!(y.base.layout, rect(290.0, 50.0, 10.0, 100.0));
}

#[test]
fn a_thumb_that_has_been_dragged_keeps_its_place_along_the_track() {
    let mut c = scrolled(vec![child(100.0, 50.0, 400.0, 250.0)]);
    {
        let (x, y) = c.scrollbar.as_mut().unwrap();
        x.base.layout.x = px(130.0);
        y.base.layout.y = px(75.0);
    }
    PreRenderer::new().adjust_scrolling(&mut c);
    let (x, y) = c.scrollbar.as_ref().unwrap();
    assert_eq!(x.base.layout, rect(130.0, 140.0, 150.0, 10.0));
    assert_eq!(y.base.layout, rect(290.0, 75.0, 10.0, 50.0));
}

#[test]
fn a_container_without_scrollbars_gets_none() {
    let mut c = Container::new().set_width(px(10.0));
    PreRenderer::new().adjust_scrolling(&mut c);
    assert!(c.scrollbar.is_none());
}

#[test]
fn adjust_layout_goes_by_the_policy() {
    let pre = PreRenderer::new();
    let make = |flex: FlexLayout| {
        let mut c = Container::new()
            .set_width(px(100.0))
            .set_height(px(100.0))
            .set_gap(px(2.0))
            .set_flex_layout(flex);
        c.add_widget(child(9.0, 9.0, 10.0, 10.0));
        c.add_widget(child(9.0, 9.0, 10.0, 10.0));
        c
    };
    let mut plain = make(FlexLayout::Plain);
    pre.adjust_layout(&mut plain);
    assert_eq!(plain.children[1].base().layout, rect(0.0, 0.0, 10.0, 10.0));
    let mut col = make(FlexLayout::Col);
    pre.adjust_layout(&mut col);
    assert_eq!(col.children[1].base().layout, rect(0.0, 12.0, 10.0, 10.0));
    let mut grid = make(FlexLayout::Grid(2));
    pre.adjust_layout(&mut grid);
    assert_eq!(grid.children[1].base().layout, rect(12.0, 0.0, 10.0, 10.0));
}

#[test]
fn adjust_measures_then_arranges_the_whole_tree() {
    let mut inner = Container::new()
        .set_width(px(60.0))
        .set_height(px(50.0))
        .set_flex_layout(FlexLayout::Grid(2))
        .set_gap(px(1.0));
    inner.add_widget(label("a", (8.0, 6.0)).into_node());
    inner.add_widget(label("bb", (16.0, 6.0)).into_node());
    inner.add_widget(label("c", (8.0, 6.0)).into_node());
    let canvas = Canvas::new().set_width(px(50.0)).set_height(px(40.0)).set_grid(2, px(1.0), red());
    let mut root = Container::new()
        .set_x(px(5.0))
        .set_y(px(7.0))
        .set_width(px(100.0))
        .set_height(px(300.0))
        .set_flex_layout(FlexLayout::Col)
        .set_gap(px(10.0));
    root.add_widget(label("title", (30.0, 12.0)).set_label_horizontal().into_node());
    root.add_widget(inner.into_node());
    root.add_widget(canvas.into_node());
    let mut node = root.into_node();
    assert!(is_resolvable(&node));
    PreRenderer::new().adjust(&mut node);

    let root = match &node {
        WidgetNode::Container(c) => c,
        _ => panic!("the root stays a container"),
    };
    assert_eq!(root.base.layout, rect(5.0, 7.0, 100.0, 300.0));
    // share of the height: 300 / 3 - 2 * 10 = 80
    assert_eq!(root.children[0].base().layout, rect(5.0, 7.0, 30.0, 12.0));
    assert_eq!(root.children[0].base().text.pos, at(0.0, 0.0));
    assert_eq!(root.children[1].base().layout, rect(5.0, 29.0, 60.0, 50.0));
    assert_eq!(root.children[2].base().layout, rect(5.0, 89.0, 50.0, 40.0));
    let inner = match &root.children[1] {
        WidgetNode::Container(c) => c,
        _ => panic!("the second child stays a container"),
    };
    // share of the width: 60 / 2 - 1 = 29, of the height: 50 / 2 - 1 = 24
    assert_eq!(inner.children[0].base().layout, rect(5.0, 29.0, 8.0, 6.0));
    assert_eq!(inner.children[1].base().layout, rect(14.0, 29.0, 16.0, 6.0));
    assert_eq!(inner.children[2].base().layout, rect(5.0, 36.0, 8.0, 6.0));
    let grid = match &root.children[2] {
        WidgetNode::Canvas(c) => c.grid.as_ref().unwrap(),
        _ => panic!("the third child stays a canvas"),
    };
    assert_eq!(grid.cells[0][0].base.layout, rect(5.0, 89.0, 25.0, 20.0));
    assert_eq!(grid.cells[0][1].base.layout, rect(31.0, 89.0, 24.0, 20.0));
    assert_eq!(grid.cells[1][0].base.layout, rect(5.0, 110.0, 25.0, 19.0));
    assert_eq!(grid.cells[1][1].base.layout, rect(31.0, 110.0, 24.0, 19.0));
    assert_eq!(grid.cells[1][1].base.style.color, ColorState::new(red()));
}

#[test]
fn a_grid_of_no_columns_cannot_be_resolved() {
    let mut root = Container::new();
    root.add_widget(Container::new().set_flex_layout(FlexLayout::Grid(0)).into_node());
    assert!(!is_resolvable(&root.into_node()));
    assert!(is_resolvable(&Container::new().set_flex_layout(FlexLayout::Grid(1)).into_node()));
    assert!(is_resolvable(&Button::new().into_node()));
}

#[test]
fn a_grid_with_a_short_table_cannot_be_resolved() {
    let mut canvas = Canvas::new().set_grid_range((3, 2), px(1.0), black());
    assert!(is_tabled(canvas.grid.as_ref().unwrap()));
    canvas.grid.as_mut().unwrap().cells[1].pop();
    assert!(!is_tabled(canvas.grid.as_ref().unwrap()));
    assert!(!is_resolvable(&canvas.into_node()));
    let mut canvas = Canvas::new().set_grid_range((3, 2), px(1.0), black());
    canvas.grid.as_mut().unwrap().cells.pop();
    assert!(!is_resolvable(&canvas.into_node()));
    assert!(is_resolvable(&Canvas::new().into_node()));
}

#[test]
fn pixels_are_addressed_row_by_row() {
    assert_eq!(row_major(0, 0, 10), 0);
    assert_eq!(row_major(3, 2, 10), 92);
    assert_eq!(row_major(9, 0, 10), 36);
    assert_eq!(row_major(0, 1, 640), 2560);
}

#[test]
fn pixel_offsets_are_held_to_32_bits_at_every_step() {
    assert_eq!(row_major(0, 65536, 65536), 4294967295);
    assert_eq!(row_major(5, 65536, 65536), 4294967295);
    assert_eq!(row_major(u32::MAX, 0, 1), 4294967295);
    assert_eq!(row_major(0, 1 << 30, 1), 4294967295);
    assert_eq!(row_major(0, (1 << 30) - 1, 1), 4294967292);
}

fn all_sized(node: &WidgetNode) -> bool {
    let ok = |l: Layout| l.w.raw >= 0 && l.h.raw >= 0;
    ok(node.base().layout)
        && match node {
            WidgetNode::Container(c) => {
                c.children.iter().all(all_sized)
                    && c.scrollbar
                        .as_ref()
                        .map_or(true, |(x, y)| ok(x.base.layout) && ok(y.base.layout))
            },
            WidgetNode::Canvas(c) => c
                .grid
                .as_ref()
                .map_or(true, |g| g.cells.iter().all(|row| row.iter().all(|cell| ok(cell.base.layout)))),
            _ => true,
        }
}

#[test]
fn resolution_leaves_no_widget_less_than_zero_wide_or_high() {
    let mut plain = Container::new().set_width(px(50.0)).set_height(px(-20.0)).on_scroll();
    plain.add_widget(child(0.0, 0.0, -5.0, -6.0));
    // lines wider than the cells
    plain.add_widget(
        Canvas::new().set_width(px(10.0)).set_height(px(10.0)).set_grid(4, px(7.0), red()).into_node(),
    );
    let mut col = Container::new().set_flex_layout(FlexLayout::Col).set_gap(px(1000.0));
    col.add_widget(child(0.0, 0.0, -5.0, 60.0));
    col.add_widget(child(0.0, 0.0, 5.0, -60.0));
    let mut root = Container::new()
        .set_width(px(-100.0))
        .set_height(px(100.0))
        .set_flex_layout(FlexLayout::Grid(3))
        .set_gap(px(-3.0));
    root.add_widget(plain.into_node());
    root.add_widget(col.into_node());
    root.add_widget(child(0.0, 0.0, -1.0, -1.0));
    let mut node = root.into_node();
    assert!(!all_sized(&node));
    PreRenderer::new().adjust(&mut node);
    assert!(all_sized(&node));
    match &node {
        WidgetNode::Container(c) => {
            assert_eq!(c.base.layout, rect(0.0, 0.0, 0.0, 100.0));
            match &c.children[0] {
                WidgetNode::Container(plain) => match &plain.children[1] {
                    WidgetNode::Canvas(canvas) => {
                        let cells = &canvas.grid.as_ref().unwrap().cells;
                        assert_eq!(cells[0][0].base.layout.w, px(0.0));
                        assert_eq!(cells[0][1].base.layout.w, px(0.0));
                        assert_eq!(cells[1][0].base.layout.h, px(0.0));
                    },
                    _ => panic!("the second child is the canvas"),
                },
                _ => panic!("the first child is the plain container"),
            }
        },
        _ => panic!("the root stays a container"),
    }
}

#[test]
fn a_plain_container_raises_sizes_below_zero() {
    let mut c = Container::new().set_x(px(1.0)).set_width(px(10.0)).set_height(px(10.0)).set_horizontal();
    c.add_widget(child(0.0, 0.0, -4.0, -2.0));
    c.create_normal_layout();
    assert_eq!(c.children[0].base().layout, rect(6.0, 0.0, 0.0, 0.0));
}

#[test]
fn a_thumb_spans_its_track_wherever_the_container_lies() {
    let mut c = Container::new()
        .set_x(px(-50.0))
        .set_y(px(-80.0))
        .set_width(px(50.0))
        .set_height(px(30.0))
        .on_scroll();
    // a blank child at the corner of the container, as an arrangement leaves it
    c.add_widget(child(-50.0, -80.0, 0.0, 0.0));
    PreRenderer::new().adjust_scrolling(&mut c);
    let (x, y) = c.scrollbar.as_ref().unwrap();
    assert_eq!(x.base.layout.w, px(50.0));
    assert_eq!(y.base.layout.h, px(30.0));
    // a container that ends before zero, with a child that is wider than it reaches
    let mut c = Container::new().set_x(px(-200.0)).set_width(px(100.0)).set_height(px(10.0)).on_scroll();
    c.add_widget(child(0.0, 0.0, 100.0, 5.0));
    PreRenderer::new().adjust_scrolling(&mut c);
    let (x, _) = c.scrollbar.as_ref().unwrap();
    assert!(x.base.layout.w.raw >= 0);
    assert!(x.base.layout.w.raw <= px(100.0).raw);
}
