use gemini::scalar::Scalar;
use gemini::ui::color::{red, ColorState};
use gemini::ui::layout::{FlexLayout, Grid, Layout, Point};

fn px(v: f64) -> Scalar {
    Scalar::from_raw((v * 65536.0) as i64)
}

fn rect(x: f64, y: f64, w: f64, h: f64) -> Layout {
    Layout { x: px(x), y: px(y), w: px(w), h: px(h) }
}

#[test]
fn edges_count_as_inside() {
    let l = rect(10.0, 20.0, 30.0, 40.0);
    assert!(l.is_inbounds(px(10.0), px(20.0)));
    assert!(l.is_inbounds(px(40.0), px(60.0)));
    assert!(l.is_inbounds(px(25.0), px(35.0)));
    assert!(!l.is_inbounds(px(9.99), px(35.0)));
    assert!(!l.is_inbounds(px(40.01), px(35.0)));
    assert!(!l.is_inbounds(px(25.0), px(19.99)));
    assert!(!l.is_inbounds(px(25.0), px(60.01)));
}

#[test]
fn a_rectangle_of_negative_extent_holds_no_point() {
    let l = rect(10.0, 20.0, -1.0, 10.0);
    assert!(!l.is_inbounds(px(10.0), px(20.0)));
    assert!(!l.is_inbounds(px(9.5), px(25.0)));
}

#[test]
fn centering_halves_what_is_left() {
    let l = rect(0.0, 0.0, 640.0, 320.0);
    assert_eq!(l.horizontal_center(px(100.0)), px(270.0));
    assert_eq!(l.vertical_center(px(105.0)), px(107.5));
}

#[test]
fn centering_something_too_large_gives_zero() {
    let l = rect(0.0, 0.0, 50.0, 20.0);
    assert_eq!(l.horizontal_center(px(100.0)), px(0.0));
    assert_eq!(l.vertical_center(px(20.01)), px(0.0));
    assert_eq!(l.vertical_center(px(20.0)), px(0.0));
}

#[test]
fn layout_as_tuple_puts_height_before_width() {
    let l = rect(1.0, 2.0, 3.0, 4.0);
    assert_eq!(l.into_tuple(), (px(1.0), px(2.0), px(4.0), px(3.0)));
}

#[test]
fn defaults_are_zero() {
    assert_eq!(Layout::default(), rect(0.0, 0.0, 0.0, 0.0));
    assert_eq!(Point::default(), Point::new(px(0.0), px(0.0)));
    assert_eq!(FlexLayout::default(), FlexLayout::Plain);
}

#[test]
fn new_grid_has_rows_of_blank_cells() {
    let g = Grid::new(3, 2, px(1.0), ColorState::new(red()));
    assert_eq!(g.cols, 3);
    assert_eq!(g.rows, 2);
    assert_eq!(g.cells.len(), 2);
    for row in &g.cells {
        assert_eq!(row.len(), 3);
        for cell in row {
            assert_eq!(cell.base.layout, Layout::default());
            assert!(cell.actions.is_empty());
            assert!(cell.trigger.is_none());
            assert!(cell.base.id.is_empty());
        }
    }
    assert_eq!(g.thickness, px(1.0));
    assert_eq!(g.color, ColorState::new(red()));
}

#[test]
fn resize_moves_the_grid_with_its_origin_and_colors_the_cells() {
    let mut g = Grid::new(2, 2, px(2.0), ColorState::new(red()));
    g.resize(px(100.0), px(50.0), px(20.0), px(40.0));
    assert_eq!(g.cells[0][0].base.layout, rect(100.0, 50.0, 20.0, 10.0));
    assert_eq!(g.cells[0][1].base.layout, rect(122.0, 50.0, 18.0, 10.0));
    assert_eq!(g.cells[1][0].base.layout, rect(100.0, 62.0, 20.0, 8.0));
    assert_eq!(g.cells[1][1].base.layout, rect(122.0, 62.0, 18.0, 8.0));
    for row in &g.cells {
        for cell in row {
            assert_eq!(cell.base.style.color, ColorState::new(red()));
        }
    }
}

fn tiling_gap(cols: usize, rows: usize, thickness: f64, width: f64, height: f64) -> (i64, i64) {
    let mut g = Grid::new(cols, rows, px(thickness), ColorState::new(red()));
    g.resize(px(3.0), px(4.0), px(height), px(width));
    let mut widest = 0;
    for row in &g.cells {
        let mut sum: i64 = 0;
        for cell in row {
            sum += cell.base.layout.w.raw;
        }
        sum += (cols as i64 - 1) * px(thickness).raw;
        let gap = px(width).raw - sum;
        assert!(gap >= 0);
        if gap > widest {
            widest = gap;
        }
    }
    let mut tallest = 0;
    for c in 0..cols {
        let mut sum: i64 = 0;
        for r in 0..rows {
            sum += g.cells[r][c].base.layout.h.raw;
        }
        sum += (rows as i64 - 1) * px(thickness).raw;
        let gap = px(height).raw - sum;
        assert!(gap >= 0);
        if gap > tallest {
            tallest = gap;
        }
    }
    (widest, tallest)
}

#[test]
fn cells_and_lines_tile_the_area_exactly_where_it_divides() {
    assert_eq!(tiling_gap(4, 4, 1.0, 32.0, 16.0), (0, 0));
    assert_eq!(tiling_gap(8, 8, 1.0, 512.0, 512.0), (0, 0));
    assert_eq!(tiling_gap(1, 1, 5.0, 7.0, 9.0), (0, 0));
}

#[test]
fn cells_and_lines_tile_the_area_exactly_where_it_does_not_divide() {
    // 100 units are 6553600 raw steps, which neither 3 nor 7 divides
    assert_eq!(tiling_gap(3, 7, 1.0, 100.0, 100.0), (0, 0));
    assert_eq!(tiling_gap(6, 1, 0.5, 10.0, 10.0), (0, 0));
    let mut g = Grid::new(3, 1, px(1.0), ColorState::new(red()));
    g.resize(px(0.0), px(0.0), px(10.0), px(100.0));
    // a share is 2184533 raw steps; the first cell takes the one that is left over
    assert_eq!(g.cells[0][0].base.layout.w.raw, 2184534);
    assert_eq!(g.cells[0][1].base.layout.w.raw, 2184533 - 65536);
    assert_eq!(g.cells[0][2].base.layout.w.raw, 2184533 - 65536);
    assert_eq!(g.cells[0][1].base.layout.x.raw, 2184534 + 65536);
    assert_eq!(g.cells[0][2].base.layout.x.raw, 2184534 + 2 * 65536 + 2184533 - 65536);
}

#[test]
fn cells_share_what_lines_wider_than_a_share_leave() {
    let mut g = Grid::new(2, 2, px(7.0), ColorState::new(red()));
    g.resize(px(1.0), px(2.0), px(10.0), px(10.0));
    assert_eq!(g.cells[0][0].base.layout, rect(1.0, 2.0, 3.0, 3.0));
    assert_eq!(g.cells[0][1].base.layout, rect(11.0, 2.0, 0.0, 3.0));
    assert_eq!(g.cells[1][0].base.layout, rect(1.0, 12.0, 3.0, 0.0));
    assert_eq!(g.cells[1][1].base.layout, rect(11.0, 12.0, 0.0, 0.0));
    assert_eq!(tiling_gap(2, 2, 7.0, 10.0, 10.0), (0, 0));
    assert_eq!(tiling_gap(4, 3, 2.5, 9.0, 5.0), (0, 0));
}

#[test]
fn cells_have_no_length_where_the_lines_do_not_fit() {
    let mut g = Grid::new(4, 1, px(7.0), ColorState::new(red()));
    g.resize(px(0.0), px(0.0), px(10.0), px(10.0));
    for cell in &g.cells[0] {
        assert_eq!(cell.base.layout.w, px(0.0));
        assert_eq!(cell.base.layout.h, px(10.0));
    }
}
