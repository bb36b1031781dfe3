//! The `Canvas` widget.
use vstd::prelude::*;
use crate::action::Action;
use crate::scalar::Scalar;
use crate::ui::color::{Color, ColorMode, ColorState};
use crate::ui::layout::{Col, Grid, Row};
use crate::ui::sync::Trigger;
use crate::ui::widget::cell::Cell;
use crate::ui::widget::{BaseWidget, EmitterId, Widget, WidgetNode};

verus! {

/// A drawing surface that may be divided into a grid of cells.
#[derive(Debug)]
pub struct Canvas {
    pub base: BaseWidget,
    pub actions: Vec<Action>,
    pub emitter: Option<EmitterId>,
    pub trigger: Option<Trigger>,
    pub grid: Option<Grid>,
}

/// The character for the digit `d`.
pub open spec fn digit(d: nat) -> char {
    if d == 0 {
        '0'
    } else if d == 1 {
        '1'
    } else if d == 2 {
        '2'
    } else if d == 3 {
        '3'
    } else if d == 4 {
        '4'
    } else if d == 5 {
        '5'
    } else if d == 6 {
        '6'
    } else if d == 7 {
        '7'
    } else if d == 8 {
        '8'
    } else {
        '9'
    }
}

/// The number `n` written in decimal digits.
pub open spec fn decimal(n: nat) -> Seq<char>
    decreases n,
{
    if n < 10 {
        seq![digit(n)]
    } else {
        decimal(n / 10).push(digit(n % 10))
    }
}

/// The id of the cell in column `col` and row `row`: the two numbers
/// in decimal with a comma between them.
pub open spec fn cell_name(col: nat, row: nat) -> Seq<char> {
    decimal(col).push(',') + decimal(row)
}

/// `String::push` of the standard library. The contract claims what its
/// documentation says: the character `c` is put at the end of `s`, and
/// what was there before stays.
#[verifier::external_body]
fn push_char(s: &mut String, c: char)
    ensures
        final(s)@ == old(s)@.push(c),
{
    s.push(c);
}

fn digit_of(d: usize) -> (c: char)
    requires
        d < 10,
    ensures
        c == digit(d as nat),
{
    if d == 0 {
        '0'
    } else if d == 1 {
        '1'
    } else if d == 2 {
        '2'
    } else if d == 3 {
        '3'
    } else if d == 4 {
        '4'
    } else if d == 5 {
        '5'
    } else if d == 6 {
        '6'
    } else if d == 7 {
        '7'
    } else if d == 8 {
        '8'
    } else {
        '9'
    }
}

fn write_decimal(out: &mut String, n: usize)
    ensures
        final(out)@ == old(out)@ + decimal(n as nat),
    decreases n,
{
    if n >= 10 {
        write_decimal(out, n / 10);
    }
    push_char(out, digit_of(n % 10));
}

/// The id of the cell in column `col` and row `row`.
pub fn name_cell(col: usize, row: usize) -> (id: String)
    ensures
        id@ == cell_name(col as nat, row as nat),
{
    let mut id = String::new();
    write_decimal(&mut id, col);
    push_char(&mut id, ',');
    write_decimal(&mut id, row);
    id
}

/// Whether `after` is the cell `before` named `id` and with `added`
/// behind the actions it had.
pub open spec fn equipped(before: Cell, after: Cell, id: Seq<char>, added: Seq<Action>) -> bool {
    &&& after == (Cell {
        base: BaseWidget { id: after.base.id, ..before.base },
        actions: after.actions,
        ..before
    })
    &&& after.base.id@ == id
    &&& after.actions@.len() == before.actions@.len() + added.len()
    &&& forall|k: int| 0 <= k < before.actions@.len() ==> after.actions@[k] == before.actions@[k]
    &&& forall|k: int|
        0 <= k < added.len() ==> (#[trigger] added[k]).alike(
            after.actions@[before.actions@.len() + k],
        )
}

fn equip(cell: &mut Cell, col: usize, row: usize, actions: &Vec<Action>)
    ensures
        equipped(*old(cell), *final(cell), cell_name(col as nat, row as nat), actions@),
{
    cell.base.id = name_cell(col, row);
    let ghost had = old(cell).actions@;
    let mut k: usize = 0;
    while k < actions.len()
        invariant
            k <= actions.len(),
            had == old(cell).actions@,
            *cell == (Cell {
                base: BaseWidget { id: cell.base.id, ..old(cell).base },
                actions: cell.actions,
                ..*old(cell)
            }),
            cell.base.id@ == cell_name(col as nat, row as nat),
            cell.actions@.len() == had.len() + k,
            forall|j: int| 0 <= j < had.len() ==> cell.actions@[j] == had[j],
            forall|j: int| 0 <= j < k ==> (#[trigger] actions@[j]).alike(cell.actions@[had.len() + j]),
        decreases actions.len() - k,
    {
        cell.actions.push(actions[k].duplicate());
        k = k + 1;
    }
}

impl Canvas {
    /// A blank canvas without a grid.
    pub fn new() -> (c: Canvas)
        ensures
            c.base.is_blank(),
            c.actions@.len() == 0,
            c.emitter is None,
            c.trigger is None,
            c.grid is None,
    {
        Canvas { base: BaseWidget::default(), actions: Vec::new(), emitter: None, trigger: None, grid: None }
    }

    /// Whether `grid` is a new grid of `cols` by `rows` blank cells with
    /// lines `thickness` wide and cells of the solid color `color`.
    pub open spec fn fresh_grid(grid: Grid, cols: u32, rows: u32, thickness: Scalar, color: Color) -> bool {
        &&& grid.wf()
        &&& grid.cols == cols
        &&& grid.rows == rows
        &&& grid.thickness == thickness
        &&& grid.color == ColorState { color, mode: ColorMode::Solid }
        &&& forall|r: int, c: int|
            0 <= r < rows && 0 <= c < cols ==> (#[trigger] grid.at(r, c)).is_blank()
    }

    /// Divides the canvas into `size` by `size` cells of the color
    /// `color`, parted by lines `thickness` wide. A grid that was there
    /// before is replaced.
    pub fn set_grid(self, size: u32, thickness: Scalar, color: Color) -> (canvas: Canvas)
        requires
            size > 0,
        ensures
            canvas == (Canvas { grid: canvas.grid, ..self }),
            canvas.grid matches Some(grid) && Canvas::fresh_grid(grid, size, size, thickness, color),
    {
        let mut canvas = self;
        canvas.grid = Some(Grid::new(size as usize, size as usize, thickness, ColorState::new(color)));
        canvas
    }

    /// Divides the canvas into `size.0` columns and `size.1` rows of
    /// cells of the color `color`, parted by lines `thickness` wide. A
    /// grid that was there before is replaced.
    pub fn set_grid_range(self, size: (u32, u32), thickness: Scalar, color: Color) -> (canvas: Canvas)
        requires
            size.0 > 0,
            size.1 > 0,
        ensures
            canvas == (Canvas { grid: canvas.grid, ..self }),
            canvas.grid matches Some(grid) && Canvas::fresh_grid(grid, size.0, size.1, thickness, color),
    {
        let mut canvas = self;
        canvas.grid = Some(
            Grid::new(size.0 as usize, size.1 as usize, thickness, ColorState::new(color)),
        );
        canvas
    }

    /// Attaches a copy of each of `actions` to every cell of the grid
    /// and names every cell after its column and row. A canvas without a
    /// grid stays as it is.
    #[verifier::rlimit(50)]
    pub fn set_cells_actions(self, actions: Vec<Action>) -> (canvas: Canvas)
        requires
            self.grid matches Some(grid) ==> grid.wf(),
        ensures
            canvas == (Canvas { grid: canvas.grid, ..self }),
            self.grid is None ==> canvas.grid is None,
            self.grid matches Some(before) ==> {
                &&& canvas.grid matches Some(after)
                &&& after.wf()
                &&& after == (Grid { cells: after.cells, ..before })
                &&& forall|r: int, c: int|
                    0 <= r < before.rows && 0 <= c < before.cols ==> equipped(
                        before.at(r, c),
                        #[trigger] after.at(r, c),
                        cell_name(c as nat, r as nat),
                        actions@,
                    )
            },
    {
        let mut canvas = self;
        match &mut canvas.grid {
            Some(grid) => {
                let ghost before = *grid;
                let rows = grid.rows;
                let cols = grid.cols;
                let mut r: usize = 0;
                while r < rows
                    invariant
                        r <= rows,
                        rows == before.rows,
                        cols == before.cols,
                        before.wf(),
                        grid.wf(),
                        *grid == (Grid { cells: grid.cells, ..before }),
                        forall|k: int, c: int|
                            0 <= k < r && 0 <= c < cols ==> equipped(
                                before.at(k, c),
                                #[trigger] grid.at(k, c),
                                cell_name(c as nat, k as nat),
                                actions@,
                            ),
                        forall|k: int| r <= k < rows ==> #[trigger] grid.cells@[k] == before.cells@[k],
                    decreases rows - r,
                {
                    let ghost entering = *grid;
                    let ghost row_before = grid.cells@[r as int];
                    let row = &mut grid.cells[r];
                    let mut c: usize = 0;
                    while c < cols
                        invariant
                            c <= cols,
                            row@.len() == cols,
                            row_before@.len() == cols,
                            forall|k: int|
                                0 <= k < c ==> equipped(
                                    row_before@[k],
                                    #[trigger] row@[k],
                                    cell_name(k as nat, r as nat),
                                    actions@,
                                ),
                            forall|k: int| c <= k < cols ==> #[trigger] row@[k] == row_before@[k],
                        decreases cols - c,
                    {
                        equip(&mut row[c], c, r, &actions);
                        c = c + 1;
                    }
                    proof {
                        assert forall|k: int, c: int| 0 <= k < r + 1 && 0 <= c < cols implies equipped(
                            before.at(k, c),
                            #[trigger] grid.at(k, c),
                            cell_name(c as nat, k as nat),
                            actions@,
                        ) by {
                            if k < r {
                                assert(grid.cells@[k] == entering.cells@[k]);
                                assert(grid.at(k, c) == entering.at(k, c));
                            } else {
                                assert(row_before == before.cells@[k]);
                                assert(equipped(
                                    row_before@[c],
                                    grid.cells@[k]@[c],
                                    cell_name(c as nat, r as nat),
                                    actions@,
                                ));
                            }
                        }
                    }
                    r = r + 1;
                }
            },
            None => {},
        }
        canvas
    }

    /// Attaches `action` to the cell in row `pos.0` and column `pos.1`.
    /// A canvas without a grid stays as it is.
    #[verifier::rlimit(50)]
    pub fn set_cell_action(self, pos: (Row, Col), action: Action) -> (canvas: Canvas)
        requires
            self.grid matches Some(grid) ==> grid.wf() && pos.0 < grid.rows && pos.1 < grid.cols,
        ensures
            canvas == (Canvas { grid: canvas.grid, ..self }),
            self.grid is None ==> canvas.grid is None,
            self.grid matches Some(before) ==> {
                &&& canvas.grid matches Some(after)
                &&& after.wf()
                &&& after == (Grid { cells: after.cells, ..before })
                &&& forall|r: int, c: int|
                    0 <= r < before.rows && 0 <= c < before.cols && (r != pos.0 || c != pos.1)
                        ==> #[trigger] after.at(r, c) == before.at(r, c)
                &&& after.at(pos.0 as int, pos.1 as int) == (Cell {
                    actions: after.at(pos.0 as int, pos.1 as int).actions,
                    ..before.at(pos.0 as int, pos.1 as int)
                })
                &&& after.at(pos.0 as int, pos.1 as int).actions@ == before.at(
                    pos.0 as int,
                    pos.1 as int,
                ).actions@.push(action)
            },
    {
        let mut canvas = self;
        match &mut canvas.grid {
            Some(grid) => {
                let ghost before = *grid;
                let row = &mut grid.cells[pos.0];
                let cell = &mut row[pos.1];
                cell.actions.push(action);
                proof {
                    assert forall|r: int| 0 <= r < grid.rows implies (#[trigger] grid.cells@[r])@.len()
                        == grid.cols by {
                        assert(before.cells@[r]@.len() == before.cols);
                    }
                }
            },
            None => {},
        }
        canvas
    }
}

impl Widget for Canvas {
    open spec fn node(self) -> WidgetNode {
        WidgetNode::Canvas(self)
    }

    fn into_node(self) -> (node: WidgetNode) {
        WidgetNode::Canvas(self)
    }

    fn base(&self) -> (base: &BaseWidget) {
        &self.base
    }

    fn base_mut(&mut self) -> (base: &mut BaseWidget) {
        &mut self.base
    }

    fn action_mut(&mut self) -> (actions: &mut Vec<Action>) {
        &mut self.actions
    }

    fn emitter(&self) -> (emitter: Option<EmitterId>) {
        self.emitter
    }

    fn connect(self, emitter: EmitterId) -> (widget: Self) {
        let mut widget = self;
        widget.emitter = Some(emitter);
        widget
    }

    fn internal_trigger(&self) -> (trigger: Option<Trigger>) {
        self.trigger
    }
}

} // verus!
