//! Rectangles, points and the policies by which containers arrange
//! their children.
use vstd::prelude::*;
use crate::scalar::{quotient, Scalar};
use crate::ui::color::ColorState;
use crate::ui::style::Style;
use crate::ui::widget::cell::Cell;
use crate::ui::widget::BaseWidget;

verus! {

/// A point, or an extent along both axes.
#[derive(Debug, Clone, Copy, PartialEq, Eq, Structural)]
pub struct Point {
    pub x: Scalar,
    pub y: Scalar,
}

impl Point {
    /// The point where both coordinates are zero.
    pub open spec fn origin() -> Point {
        Point { x: Scalar { raw: 0 }, y: Scalar { raw: 0 } }
    }

    pub fn new(x: Scalar, y: Scalar) -> (p: Point)
        ensures
            p == (Point { x, y }),
    {
        Point { x, y }
    }
}

impl Default for Point {
    fn default() -> (p: Point)
        ensures
            p == Point::origin(),
    {
        Point { x: Scalar { raw: 0 }, y: Scalar { raw: 0 } }
    }
}

/// Position and size of a widget.
///
/// `x` and `y` locate the top-left corner, `w` and `h` give the extent
/// to the right and downward.
#[derive(Debug, Clone, Copy, PartialEq, Eq, Structural)]
pub struct Layout {
    pub x: Scalar,
    pub y: Scalar,
    pub w: Scalar,
    pub h: Scalar,
}

/// Half of what `outer` has left over once `inner` is taken from it,
/// and zero where `inner` does not fit.
pub open spec fn centered(outer: Scalar, inner: Scalar) -> Scalar {
    outer.spec_minus(inner).spec_shared(2).spec_most(Scalar { raw: 0 })
}

impl Layout {
    /// The rectangle at the origin that has no extent.
    pub open spec fn empty() -> Layout {
        Layout { x: Scalar { raw: 0 }, y: Scalar { raw: 0 }, w: Scalar { raw: 0 }, h: Scalar { raw: 0 } }
    }

    /// Whether the point `(mx, my)` lies on the rectangle, its edges
    /// included.
    pub open spec fn spec_is_inbounds(&self, mx: Scalar, my: Scalar) -> bool {
        &&& mx.raw >= self.x.raw
        &&& mx.raw <= self.x.spec_plus(self.w).raw
        &&& my.raw >= self.y.raw
        &&& my.raw <= self.y.spec_plus(self.h).raw
    }

    /// Whether the pointer at `(mx, my)` is on this rectangle. Points on
    /// the edges count as inside.
    #[verifier::when_used_as_spec(spec_is_inbounds)]
    pub fn is_inbounds(&self, mx: Scalar, my: Scalar) -> (inside: bool)
        ensures
            inside == self.spec_is_inbounds(mx, my),
    {
        mx.raw >= self.x.raw && mx.raw <= self.x.plus(self.w).raw && my.raw >= self.y.raw
            && my.raw <= self.y.plus(self.h).raw
    }

    /// Offset from the top at which something `rhs` tall sits centered
    /// in this rectangle; zero where it is taller than the rectangle.
    pub fn vertical_center(&self, rhs: Scalar) -> (offset: Scalar)
        ensures
            offset == centered(self.h, rhs),
            offset.raw >= 0,
    {
        self.h.minus(rhs).shared(2).most(Scalar::zero())
    }

    /// Offset from the left at which something `rhs` wide sits centered
    /// in this rectangle; zero where it is wider than the rectangle.
    pub fn horizontal_center(&self, rhs: Scalar) -> (offset: Scalar)
        ensures
            offset == centered(self.w, rhs),
            offset.raw >= 0,
    {
        self.w.minus(rhs).shared(2).most(Scalar::zero())
    }

    /// The rectangle as `(x, y, h, w)`.
    pub fn into_tuple(self) -> (t: (Scalar, Scalar, Scalar, Scalar))
        ensures
            t == (self.x, self.y, self.h, self.w),
    {
        (self.x, self.y, self.h, self.w)
    }
}

impl Default for Layout {
    fn default() -> (l: Layout)
        ensures
            l == Layout::empty(),
    {
        Layout { x: Scalar::zero(), y: Scalar::zero(), w: Scalar::zero(), h: Scalar::zero() }
    }
}

/// A table of cells that tiles a canvas.
///
/// `cells` holds `rows` rows of `cols` cells each. Lines `thickness`
/// wide part neighbouring cells, and every cell is filled with `color`.
#[derive(Debug)]
pub struct Grid {
    pub cols: usize,
    pub rows: usize,
    pub cells: Vec<Vec<Cell>>,
    pub thickness: Scalar,
    pub color: ColorState,
}

/// One less than `parts`, and zero where there are no parts.
pub open spec fn fewer(parts: usize) -> i64 {
    if parts == 0 {
        0
    } else {
        Scalar::spec_count((parts - 1) as usize)
    }
}

/// How long every cell but the first is along an axis `extent` long
/// that is cut into `parts` cells: an equal share of the extent less
/// the line before the cell, and zero where the line is wider than the
/// share.
pub open spec fn cell_rest(extent: Scalar, parts: usize, thickness: Scalar) -> Scalar {
    extent.spec_shared(Scalar::spec_count(parts)).spec_minus(thickness).spec_most(Scalar { raw: 0 })
}

/// How long the first cell is along an axis: what the lines and the
/// other cells leave of the extent, and zero where they leave nothing.
/// Where no line is wider than a share, this is a full share and what
/// is left over when the extent is divided.
pub open spec fn cell_first(extent: Scalar, parts: usize, thickness: Scalar) -> Scalar {
    extent.spec_minus(thickness.spec_scaled(fewer(parts))).spec_minus(
        cell_rest(extent, parts, thickness).spec_scaled(fewer(parts)),
    ).spec_most(Scalar { raw: 0 })
}

/// How long the cell with number `index` is along an axis.
pub open spec fn cell_extent(extent: Scalar, parts: usize, thickness: Scalar, index: usize) -> Scalar {
    if index == 0 {
        cell_first(extent, parts, thickness)
    } else {
        cell_rest(extent, parts, thickness)
    }
}

/// Where the cell with number `index` starts along an axis that begins
/// at `origin`: the first cell at the origin, every other cell behind
/// the cells and the lines before it.
pub open spec fn cell_start(
    origin: Scalar,
    extent: Scalar,
    parts: usize,
    thickness: Scalar,
    index: usize,
) -> Scalar {
    if index == 0 {
        origin
    } else {
        origin.spec_plus(cell_first(extent, parts, thickness)).spec_plus(
            thickness.spec_scaled(Scalar::spec_count(index)),
        ).spec_plus(
            cell_rest(extent, parts, thickness).spec_scaled(Scalar::spec_count((index - 1) as usize)),
        )
    }
}

/// The rectangle of the cell in column `col` and row `row` of a grid of
/// `cols` by `rows` cells that tiles the rectangle `area`.
pub open spec fn cell_rect(
    cols: usize,
    rows: usize,
    thickness: Scalar,
    area: Layout,
    col: usize,
    row: usize,
) -> Layout {
    Layout {
        x: cell_start(area.x, area.w, cols, thickness, col),
        y: cell_start(area.y, area.h, rows, thickness, row),
        w: cell_extent(area.w, cols, thickness, col),
        h: cell_extent(area.h, rows, thickness, row),
    }
}

/// A cell moved to `layout` and filled with `color`.
pub open spec fn cell_fitted(cell: Cell, layout: Layout, color: ColorState) -> Cell {
    Cell {
        base: BaseWidget { layout, style: Style { color, ..cell.base.style }, ..cell.base },
        ..cell
    }
}

fn cut(extent: Scalar, parts: usize, thickness: Scalar) -> (lengths: (Scalar, Scalar))
    ensures
        lengths.0 == cell_first(extent, parts, thickness),
        lengths.1 == cell_rest(extent, parts, thickness),
        lengths.0.raw >= 0,
        lengths.1.raw >= 0,
{
    let less: i64 = if parts == 0 {
        0
    } else {
        Scalar::count(parts - 1)
    };
    let rest = extent.shared(Scalar::count(parts)).minus(thickness).most(Scalar::zero());
    let first = extent.minus(thickness.scaled(less)).minus(rest.scaled(less)).most(Scalar::zero());
    (first, rest)
}

fn start_of(
    origin: Scalar,
    first: Scalar,
    rest: Scalar,
    thickness: Scalar,
    index: usize,
    Ghost(extent): Ghost<Scalar>,
    Ghost(parts): Ghost<usize>,
) -> (at: Scalar)
    requires
        first == cell_first(extent, parts, thickness),
        rest == cell_rest(extent, parts, thickness),
    ensures
        at == cell_start(origin, extent, parts, thickness, index),
{
    if index == 0 {
        origin
    } else {
        origin.plus(first).plus(thickness.scaled(Scalar::count(index))).plus(
            rest.scaled(Scalar::count(index - 1)),
        )
    }
}

fn blank_row(cols: usize) -> (row: Vec<Cell>)
    ensures
        row@.len() == cols,
        forall|c: int| 0 <= c < cols ==> (#[trigger] row@[c]).is_blank(),
{
    let mut row: Vec<Cell> = Vec::new();
    let mut c: usize = 0;
    while c < cols
        invariant
            c <= cols,
            row@.len() == c,
            forall|k: int| 0 <= k < c ==> (#[trigger] row@[k]).is_blank(),
        decreases cols - c,
    {
        row.push(Cell::new());
        c = c + 1;
    }
    row
}

impl Grid {
    /// Whether the table has `rows` rows of `cols` cells each.
    pub open spec fn wf(&self) -> bool {
        &&& self.cells@.len() == self.rows
        &&& forall|r: int| 0 <= r < self.rows ==> (#[trigger] self.cells@[r])@.len() == self.cols
    }

    /// The cell in row `row` and column `col`.
    pub open spec fn at(&self, row: int, col: int) -> Cell {
        self.cells@[row]@[col]
    }

    /// A grid of `cols` by `rows` blank cells.
    pub fn new(cols: usize, rows: usize, thickness: Scalar, color: ColorState) -> (grid: Grid)
        requires
            cols > 0,
            rows > 0,
        ensures
            grid.wf(),
            grid.cols == cols,
            grid.rows == rows,
            grid.thickness == thickness,
            grid.color == color,
            forall|r: int, c: int| 0 <= r < rows && 0 <= c < cols ==> (#[trigger] grid.at(r, c)).is_blank(),
    {
        let mut cells: Vec<Vec<Cell>> = Vec::new();
        let mut r: usize = 0;
        while r < rows
            invariant
                r <= rows,
                cells@.len() == r,
                forall|k: int| 0 <= k < r ==> (#[trigger] cells@[k])@.len() == cols,
                forall|k: int, c: int|
                    0 <= k < r && 0 <= c < cols ==> (#[trigger] cells@[k]@[c]).is_blank(),
            decreases rows - r,
        {
            cells.push(blank_row(cols));
            r = r + 1;
        }
        Grid { cols, rows, cells, thickness, color }
    }

    /// Whether `after` is this grid with every cell fitted to its part
    /// of `area` and filled with the grid's color, and nothing else
    /// changed.
    pub open spec fn tiles(&self, after: &Grid, area: Layout) -> bool {
        &&& after.wf()
        &&& *after == (Grid { cells: after.cells, ..*self })
        &&& forall|r: int, c: int|
            0 <= r < self.rows && 0 <= c < self.cols ==> #[trigger] after.at(r, c) == cell_fitted(
                self.at(r, c),
                cell_rect(self.cols, self.rows, self.thickness, area, c as usize, r as usize),
                self.color,
            )
    }

    /// Fits the cells to the rectangle of the given position, height
    /// and width, so that together with the lines between them they tile
    /// it.
    #[verifier::rlimit(50)]
    pub fn resize(&mut self, x: Scalar, y: Scalar, height: Scalar, width: Scalar)
        requires
            old(self).wf(),
        ensures
            old(self).tiles(final(self), Layout { x, y, w: width, h: height }),
    {
        let (first_h, rest_h) = cut(height, self.rows, self.thickness);
        let (first_w, rest_w) = cut(width, self.cols, self.thickness);
        let ghost area = Layout { x, y, w: width, h: height };
        let rows = self.rows;
        let cols = self.cols;
        let thickness = self.thickness;
        let color = self.color;
        let mut r: usize = 0;
        while r < rows
            invariant
                r <= rows,
                rows == old(self).rows,
                cols == old(self).cols,
                thickness == old(self).thickness,
                color == old(self).color,
                old(self).wf(),
                self.wf(),
                *self == (Grid { cells: self.cells, ..*old(self) }),
                area == (Layout { x, y, w: width, h: height }),
                first_h == cell_first(height, rows, thickness),
                rest_h == cell_rest(height, rows, thickness),
                first_w == cell_first(width, cols, thickness),
                rest_w == cell_rest(width, cols, thickness),
                forall|k: int, c: int|
                    0 <= k < r && 0 <= c < cols ==> #[trigger] self.at(k, c) == cell_fitted(
                        old(self).at(k, c),
                        cell_rect(cols, rows, thickness, area, c as usize, k as usize),
                        color,
                    ),
                forall|k: int| r <= k < rows ==> #[trigger] self.cells@[k] == old(self).cells@[k],
            decreases rows - r,
        {
            let top = start_of(y, first_h, rest_h, thickness, r, Ghost(height), Ghost(rows));
            let tall = if r == 0 {
                first_h
            } else {
                rest_h
            };
            let ghost before = *self;
            let ghost row_before = self.cells@[r as int];
            let row = &mut self.cells[r];
            let mut c: usize = 0;
            while c < cols
                invariant
                    c <= cols,
                    row@.len() == cols,
                    row_before@.len() == cols,
                    first_w == cell_first(width, cols, thickness),
                    rest_w == cell_rest(width, cols, thickness),
                    top == cell_start(y, height, rows, thickness, r),
                    tall == cell_extent(height, rows, thickness, r),
                    forall|k: int|
                        0 <= k < c ==> #[trigger] row@[k] == cell_fitted(
                            row_before@[k],
                            Layout {
                                x: cell_start(x, width, cols, thickness, k as usize),
                                y: top,
                                w: cell_extent(width, cols, thickness, k as usize),
                                h: tall,
                            },
                            color,
                        ),
                    forall|k: int| c <= k < cols ==> #[trigger] row@[k] == row_before@[k],
                decreases cols - c,
            {
                let left = start_of(x, first_w, rest_w, thickness, c, Ghost(width), Ghost(cols));
                let wide = if c == 0 {
                    first_w
                } else {
                    rest_w
                };
                let cell = &mut row[c];
                cell.base.style.color = color;
                cell.base.layout = Layout { x: left, y: top, w: wide, h: tall };
                c = c + 1;
            }
            proof {
                assert forall|k: int, c: int| 0 <= k < r + 1 && 0 <= c < cols implies #[trigger] self.at(
                    k,
                    c,
                ) == cell_fitted(
                    old(self).at(k, c),
                    cell_rect(cols, rows, thickness, area, c as usize, k as usize),
                    color,
                ) by {
                    if k < r {
                        assert(self.cells@[k] == before.cells@[k]);
                        assert(self.at(k, c) == before.at(k, c));
                    } else {
                        assert(row_before == old(self).cells@[k]);
                        assert(self.cells@[k]@[c] == cell_fitted(
                            row_before@[c],
                            Layout {
                                x: cell_start(x, width, cols, thickness, c as usize),
                                y: top,
                                w: cell_extent(width, cols, thickness, c as usize),
                                h: tall,
                            },
                            color,
                        ));
                    }
                }
            }
            r = r + 1;
        }
    }
}

/// Sum of the widths, in raw steps, of the first `k` cells of row
/// `row` of a grid that tiles `area`.
pub open spec fn widths_sum(
    cols: usize,
    rows: usize,
    thickness: Scalar,
    area: Layout,
    row: usize,
    k: int,
) -> int
    decreases k,
{
    if k <= 0 {
        0
    } else {
        widths_sum(cols, rows, thickness, area, row, k - 1) + cell_rect(
            cols,
            rows,
            thickness,
            area,
            (k - 1) as usize,
            row,
        ).w.raw
    }
}

/// Sum of the heights, in raw steps, of the first `k` cells of column
/// `col` of a grid that tiles `area`.
pub open spec fn heights_sum(
    cols: usize,
    rows: usize,
    thickness: Scalar,
    area: Layout,
    col: usize,
    k: int,
) -> int
    decreases k,
{
    if k <= 0 {
        0
    } else {
        heights_sum(cols, rows, thickness, area, col, k - 1) + cell_rect(
            cols,
            rows,
            thickness,
            area,
            col,
            (k - 1) as usize,
        ).h.raw
    }
}

/// Sum of the lengths, in raw steps, of the first `k` cells along an
/// axis `extent` long that is cut into `parts` cells.
pub open spec fn extents_sum(extent: Scalar, parts: usize, thickness: Scalar, k: int) -> int
    decreases k,
{
    if k <= 0 {
        0
    } else {
        extents_sum(extent, parts, thickness, k - 1) + cell_extent(
            extent,
            parts,
            thickness,
            (k - 1) as usize,
        ).raw
    }
}

proof fn lemma_extents_sum(extent: Scalar, parts: usize, thickness: Scalar, k: int)
    requires
        1 <= k <= usize::MAX,
    ensures
        extents_sum(extent, parts, thickness, k) == cell_first(extent, parts, thickness).raw + (k - 1)
            * cell_rest(extent, parts, thickness).raw,
    decreases k,
{
    let rest = cell_rest(extent, parts, thickness).raw as int;
    if k == 1 {
        assert(extents_sum(extent, parts, thickness, 0) == 0);
        assert(0 * rest == 0) by (nonlinear_arith);
    } else {
        lemma_extents_sum(extent, parts, thickness, k - 1);
        assert((k - 2) * rest + rest == (k - 1) * rest) by (nonlinear_arith);
    }
}

proof fn lemma_widths_are_extents(
    cols: usize,
    rows: usize,
    thickness: Scalar,
    area: Layout,
    row: usize,
    k: int,
)
    ensures
        widths_sum(cols, rows, thickness, area, row, k) == extents_sum(area.w, cols, thickness, k),
    decreases k,
{
    if k > 0 {
        lemma_widths_are_extents(cols, rows, thickness, area, row, k - 1);
    }
}

proof fn lemma_heights_are_extents(
    cols: usize,
    rows: usize,
    thickness: Scalar,
    area: Layout,
    col: usize,
    k: int,
)
    ensures
        heights_sum(cols, rows, thickness, area, col, k) == extents_sum(area.h, rows, thickness, k),
    decreases k,
{
    if k > 0 {
        lemma_heights_are_extents(cols, rows, thickness, area, col, k - 1);
    }
}

/// Whether the lines between `parts` cells fit into `extent`: there is
/// a cell, no more cells than can be counted, and lines that are not
/// less than zero wide take no more than the extent between them.
pub open spec fn lines_fit(extent: Scalar, parts: usize, thickness: Scalar) -> bool {
    &&& 1 <= parts <= i64::MAX
    &&& thickness.raw >= 0
    &&& (parts - 1) * thickness.raw <= extent.raw
}

/// The cells of a grid tile the rectangle they are fitted to.
///
/// Wherever the lines fit into the rectangle, the widths of the cells
/// of a row and the lines between them add up to exactly the width of
/// the rectangle, and the heights of the cells of a column and the
/// lines between them to exactly its height. No cell is less than zero
/// wide or high.
pub proof fn lemma_grid_tiles(
    cols: usize,
    rows: usize,
    thickness: Scalar,
    area: Layout,
    row: usize,
    col: usize,
)
    requires
        lines_fit(area.w, cols, thickness),
        lines_fit(area.h, rows, thickness),
    ensures
        widths_sum(cols, rows, thickness, area, row, cols as int) + (cols - 1) * thickness.raw
            == area.w.raw,
        heights_sum(cols, rows, thickness, area, col, rows as int) + (rows - 1) * thickness.raw
            == area.h.raw,
        cell_rect(cols, rows, thickness, area, col, row).w.raw >= 0,
        cell_rect(cols, rows, thickness, area, col, row).h.raw >= 0,
{
    lemma_axis_tiles(area.w, cols, thickness);
    lemma_axis_tiles(area.h, rows, thickness);
    lemma_widths_are_extents(cols, rows, thickness, area, row, cols as int);
    lemma_heights_are_extents(cols, rows, thickness, area, col, rows as int);
}

/// One axis of [`lemma_grid_tiles`]: the cells and the lines between
/// them take up exactly the extent.
pub proof fn lemma_axis_tiles(extent: Scalar, parts: usize, thickness: Scalar)
    requires
        lines_fit(extent, parts, thickness),
    ensures
        extents_sum(extent, parts, thickness, parts as int) + (parts - 1) * thickness.raw
            == extent.raw,
{
    let n = parts as int;
    let e = extent.raw as int;
    let t = thickness.raw as int;
    let less = fewer(parts);
    assert(Scalar::spec_count(parts) == n);
    assert(less == n - 1);
    let share = e / n;
    assert(0 <= (n - 1) * t) by (nonlinear_arith)
        requires
            n >= 1,
            t >= 0,
    ;
    assert(e >= 0);
    assert(quotient(e, n) == share);
    assert(0 <= share <= e && n * share <= e) by (nonlinear_arith)
        requires
            e >= 0,
            n >= 1,
            share == e / n,
    ;
    assert(extent.spec_shared(Scalar::spec_count(parts)).raw == share);
    let rest = cell_rest(extent, parts, thickness).raw as int;
    assert(rest == if share >= t {
        share - t
    } else {
        0
    });
    assert(t * less == (n - 1) * t) by (nonlinear_arith)
        requires
            less == n - 1,
    ;
    assert(rest * less == (n - 1) * rest) by (nonlinear_arith)
        requires
            less == n - 1,
    ;
    assert(0 <= (n - 1) * rest && (n - 1) * rest + (n - 1) * t <= e) by (nonlinear_arith)
        requires
            n >= 1,
            0 <= rest,
            rest == (if share >= t {
                share - t
            } else {
                0
            }),
            n * share <= e,
            share >= 0,
            t >= 0,
            (n - 1) * t <= e,
    ;
    assert(thickness.spec_scaled(less).raw == (n - 1) * t);
    assert(cell_rest(extent, parts, thickness).spec_scaled(less).raw == (n - 1) * rest);
    assert(cell_first(extent, parts, thickness).raw == e - (n - 1) * t - (n - 1) * rest);
    lemma_extents_sum(extent, parts, thickness, n);
}

/// Number of a row.
pub type Row = usize;

/// Number of a column, or a number of columns.
pub type Col = usize;

/// How a container arranges its children.
#[derive(Debug, Clone, Copy, PartialEq, Eq, Structural)]
pub enum FlexLayout {
    /// Children sit at the container's origin and are only aligned.
    Plain,
    /// Children fill rows of the given number of columns, left to right
    /// and top to bottom. The number must not be zero.
    Grid(Col),
    /// Children are stacked in one column, top to bottom.
    Col,
}

impl Default for FlexLayout {
    fn default() -> (f: FlexLayout)
        ensures
            f == FlexLayout::Plain,
    {
        FlexLayout::Plain
    }
}

} // verus!
