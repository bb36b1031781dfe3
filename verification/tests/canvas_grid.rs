use gemini::scalar::Scalar;
use gemini::ui::color::Color;
use gemini::ui::layout::Layout;
use gemini::ui::widget::canvas::Canvas;
use gemini::ui::widget::Widget;

fn px(v: f64) -> Scalar {
    Scalar::from_raw((v * 65536.0) as i64)
}

fn rect(x: f64, y: f64, w: f64, h: f64) -> Layout {
    Layout { x: px(x), y: px(y), w: px(w), h: px(h) }
}

#[test]
fn test_gridlines_are_spaced_correctly() {
    let c = Canvas::new().set_width(px(32.0)).set_height(px(16.0)).set_grid(
        4,
        px(1.0),
        Color::RGBA(0, 0, 0, 0),
    );

    let mut grid = c.grid.unwrap();
    grid.resize(px(0.0), px(0.0), px(16.0), px(32.0));

    let cells = grid.cells;
    assert!(cells[0][0].base.layout == rect(0.0, 0.0, 8.0, 4.0));
    assert!(cells[1][0].base.layout == rect(0.0, 5.0, 8.0, 3.0));
    assert!(cells[2][0].base.layout == rect(0.0, 9.0, 8.0, 3.0));
    assert!(cells[3][0].base.layout == rect(0.0, 13.0, 8.0, 3.0));
    assert!(cells[0][1].base.layout == rect(9.0, 0.0, 7.0, 4.0));
    assert!(cells[1][1].base.layout == rect(9.0, 5.0, 7.0, 3.0));
    assert!(cells[2][1].base.layout == rect(9.0, 9.0, 7.0, 3.0));
    assert!(cells[3][1].base.layout == rect(9.0, 13.0, 7.0, 3.0));
    assert!(cells[0][2].base.layout == rect(17.0, 0.0, 7.0, 4.0));
    assert!(cells[1][2].base.layout == rect(17.0, 5.0, 7.0, 3.0));
    assert!(cells[2][2].base.layout == rect(17.0, 9.0, 7.0, 3.0));
    assert!(cells[3][2].base.layout == rect(17.0, 13.0, 7.0, 3.0));
    assert!(cells[0][3].base.layout == rect(25.0, 0.0, 7.0, 4.0));
    assert!(cells[1][3].base.layout == rect(25.0, 5.0, 7.0, 3.0));
    assert!(cells[2][3].base.layout == rect(25.0, 9.0, 7.0, 3.0));
    assert!(cells[3][3].base.layout == rect(25.0, 13.0, 7.0, 3.0));
}
