//! How an event reaches every action in a tree of widgets.
use vstd::prelude::*;
use crate::action::scroll::shifted;
use crate::action::{all_acted, asked, lemma_seen_children, offer_event, seen, Effect, Parts};
use crate::ui::event::{Event, WindowSize};
use crate::ui::layout::{Grid, Point};
use crate::ui::sync::Trigger;
use crate::ui::widget::canvas::Canvas;
use crate::ui::widget::cell::Cell;
use crate::ui::widget::container::Container;
use crate::ui::widget::scrollbar::ScrollBar;
use crate::ui::widget::{
    deepest,
    depth,
    lemma_deepest_bounds,
    lemma_depth_of_based,
    BaseWidget,
    WidgetNode,
};

verus! {

/// Whether every widget of a tree has its trigger: the widget itself,
/// below a container every child, and every cell of a canvas grid.
pub open spec fn rooted(node: WidgetNode) -> bool
    decreases node,
{
    &&& node.spec_trigger() is Some
    &&& match node {
        WidgetNode::Container(c) => forall|i: int|
            0 <= i < c.children@.len() ==> rooted(#[trigger] c.children@[i]),
        WidgetNode::Canvas(c) => c.grid matches Some(grid) ==> forall|r: int, k: int|
            0 <= r < grid.cells@.len() && 0 <= k < grid.cells@[r]@.len() ==> (#[trigger] grid.at(
                r,
                k,
            )).trigger is Some,
        _ => true,
    }
}

/// The parts of a widget that its actions may touch, the widget being
/// drawn shifted by `offset`.
pub open spec fn parts_of(node: WidgetNode, offset: Point) -> Parts {
    Parts {
        base: BaseWidget { offset, ..node.spec_base() },
        bars: match node {
            WidgetNode::Container(c) => c.scrollbar,
            _ => None,
        },
        children: match node {
            WidgetNode::Container(c) => c.children@,
            _ => Seq::empty(),
        },
    }
}

/// The parts of a widget once all its actions have seen the event `e`.
pub open spec fn parts_after(
    node: WidgetNode,
    offset: Point,
    e: Event,
    cursor: Point,
    window: WindowSize,
) -> Parts {
    seen(
        node.spec_actions()@,
        node.spec_trigger()->0,
        parts_of(node, offset),
        e,
        cursor,
        window,
        node.spec_actions()@.len() as int,
    )
}

/// The parts of a cell that its actions may touch.
pub open spec fn cell_parts(cell: Cell) -> Parts {
    Parts { base: cell.base, bars: None, children: Seq::empty() }
}

/// Whether `after` is the cell `before` once all its actions have seen
/// the event `e`.
pub open spec fn cell_dispatched(
    before: Cell,
    after: Cell,
    e: Event,
    cursor: Point,
    window: WindowSize,
) -> bool {
    &&& after == (Cell {
        base: seen(
            before.actions@,
            before.trigger->0,
            cell_parts(before),
            e,
            cursor,
            window,
            before.actions@.len() as int,
        ).base,
        actions: after.actions,
        ..before
    })
    &&& all_acted(before.actions@, after.actions@, before.trigger->0, cell_parts(before), e, cursor, window)
}

/// Whether `after` is the tree `before` once every action in it has
/// seen the event `e`, the top widget being drawn shifted by `offset`.
///
/// The actions of a widget see the event in their order, each finding
/// the widget as the one before left it. After them the children of a
/// container see it in their order, and the cells of a canvas grid row
/// by row.
pub open spec fn dispatched(
    before: WidgetNode,
    offset: Point,
    after: WidgetNode,
    e: Event,
    cursor: Point,
    window: WindowSize,
) -> bool
    decreases before,
{
    let parts = parts_after(before, offset, e, cursor, window);
    &&& all_acted(
        before.spec_actions()@,
        after.spec_actions()@,
        before.spec_trigger()->0,
        parts_of(before, offset),
        e,
        cursor,
        window,
    )
    &&& match before {
        WidgetNode::Container(c) => {
            &&& after matches WidgetNode::Container(d)
            &&& d == (Container {
                base: parts.base,
                actions: d.actions,
                scrollbar: parts.bars,
                children: d.children,
                ..c
            })
            &&& d.children@.len() == c.children@.len()
            &&& forall|i: int|
                0 <= i < c.children@.len() ==> dispatched(
                    c.children@[i],
                    parts.children[i].spec_base().offset,
                    #[trigger] d.children@[i],
                    e,
                    cursor,
                    window,
                )
        },
        WidgetNode::Canvas(c) => {
            &&& after matches WidgetNode::Canvas(d)
            &&& d == (Canvas { base: parts.base, actions: d.actions, grid: d.grid, ..c })
            &&& match c.grid {
                Some(g) => {
                    &&& d.grid matches Some(h)
                    &&& h == (Grid { cells: h.cells, ..g })
                    &&& h.cells@.len() == g.cells@.len()
                    &&& forall|r: int|
                        0 <= r < g.cells@.len() ==> (#[trigger] h.cells@[r])@.len() == g.cells@[r]@.len()
                    &&& forall|r: int, k: int|
                        0 <= r < g.cells@.len() && 0 <= k < g.cells@[r]@.len() ==> cell_dispatched(
                            g.at(r, k),
                            #[trigger] h.at(r, k),
                            e,
                            cursor,
                            window,
                        )
                },
                None => d.grid is None,
            }
        },
        _ => after == before.with_base(parts.base).with_actions(after.spec_actions()),
    }
}

/// What the actions of a row of cells ask for, cell after cell, up to
/// the cell with number `k`.
pub open spec fn row_echoes(
    row: Seq<Cell>,
    e: Event,
    cursor: Point,
    window: WindowSize,
    k: int,
) -> Seq<Effect>
    decreases k,
{
    if k <= 0 {
        Seq::empty()
    } else {
        row_echoes(row, e, cursor, window, k - 1) + asked(
            row[k - 1].actions@,
            row[k - 1].trigger->0,
            cell_parts(row[k - 1]),
            e,
            cursor,
            window,
            row[k - 1].actions@.len() as int,
        )
    }
}

/// What the actions of the cells of a grid ask for, row after row, up
/// to the row with number `r`.
pub open spec fn grid_echoes(
    rows: Seq<Vec<Cell>>,
    e: Event,
    cursor: Point,
    window: WindowSize,
    r: int,
) -> Seq<Effect>
    decreases r,
{
    if r <= 0 {
        Seq::empty()
    } else {
        grid_echoes(rows, e, cursor, window, r - 1) + row_echoes(
            rows[r - 1]@,
            e,
            cursor,
            window,
            rows[r - 1]@.len() as int,
        )
    }
}

/// Everything that the actions in a tree ask for when they see the
/// event `e`, in the order in which they see it.
pub open spec fn echoes(
    node: WidgetNode,
    offset: Point,
    e: Event,
    cursor: Point,
    window: WindowSize,
) -> Seq<Effect>
    decreases node, 0nat, 0nat,
{
    let own = asked(
        node.spec_actions()@,
        node.spec_trigger()->0,
        parts_of(node, offset),
        e,
        cursor,
        window,
        node.spec_actions()@.len() as int,
    );
    match node {
        WidgetNode::Container(c) => own + echoes_among(
            c.children@,
            parts_after(node, offset, e, cursor, window).children,
            e,
            cursor,
            window,
            c.children@.len(),
        ),
        WidgetNode::Canvas(c) => match c.grid {
            Some(g) => own + grid_echoes(g.cells@, e, cursor, window, g.cells@.len() as int),
            None => own,
        },
        _ => own,
    }
}

/// What the actions in the first `k` of `children` ask for. `shown`
/// holds the same children as their container's own actions left them,
/// which tells the scroll shift of each.
pub open spec fn echoes_among(
    children: Seq<WidgetNode>,
    shown: Seq<WidgetNode>,
    e: Event,
    cursor: Point,
    window: WindowSize,
    k: nat,
) -> Seq<Effect>
    decreases children, 1nat, k,
{
    if k == 0 || k > children.len() {
        Seq::empty()
    } else {
        echoes_among(children, shown, e, cursor, window, (k - 1) as nat) + echoes(
            children[k - 1],
            shown[k - 1].spec_base().offset,
            e,
            cursor,
            window,
        )
    }
}

/// Seeing an event as a widget shifted by `offset` is the same for a
/// widget that already is shifted so.
proof fn lemma_dispatched_from(
    node: WidgetNode,
    offset: Point,
    after: WidgetNode,
    e: Event,
    cursor: Point,
    window: WindowSize,
)
    requires
        dispatched(shifted(node, offset), offset, after, e, cursor, window),
    ensures
        dispatched(node, offset, after, e, cursor, window),
{
    assert(parts_of(shifted(node, offset), offset) == parts_of(node, offset));
}

#[verifier::rlimit(50)]
fn offer_to_cells(
    grid: &mut Grid,
    event: &Event,
    cursor_pos: Point,
    window: WindowSize,
    effects: &mut Vec<Effect>,
)
    requires
        forall|r: int, k: int|
            0 <= r < old(grid).cells@.len() && 0 <= k < old(grid).cells@[r]@.len() ==> (
            #[trigger] old(grid).at(r, k)).trigger is Some,
    ensures
        *final(grid) == (Grid { cells: final(grid).cells, ..*old(grid) }),
        final(grid).cells@.len() == old(grid).cells@.len(),
        forall|r: int|
            0 <= r < old(grid).cells@.len() ==> (#[trigger] final(grid).cells@[r])@.len() == old(
                grid,
            ).cells@[r]@.len(),
        forall|r: int, k: int|
            0 <= r < old(grid).cells@.len() && 0 <= k < old(grid).cells@[r]@.len() ==> cell_dispatched(
                old(grid).at(r, k),
                #[trigger] final(grid).at(r, k),
                *event,
                cursor_pos,
                window,
            ),
        final(effects)@ == old(effects)@ + grid_echoes(
            old(grid).cells@,
            *event,
            cursor_pos,
            window,
            old(grid).cells@.len() as int,
        ),
{
    let rows = grid.cells.len();
    let mut r: usize = 0;
    while r < rows
        invariant
            r <= rows,
            rows == grid.cells@.len(),
            rows == old(grid).cells@.len(),
            *grid == (Grid { cells: grid.cells, ..*old(grid) }),
            forall|j: int, k: int|
                0 <= j < old(grid).cells@.len() && 0 <= k < old(grid).cells@[j]@.len() ==> (
                #[trigger] old(grid).at(j, k)).trigger is Some,
            forall|j: int|
                0 <= j < r ==> (#[trigger] grid.cells@[j])@.len() == old(grid).cells@[j]@.len(),
            forall|j: int, k: int|
                0 <= j < r && 0 <= k < old(grid).cells@[j]@.len() ==> cell_dispatched(
                    old(grid).at(j, k),
                    #[trigger] grid.at(j, k),
                    *event,
                    cursor_pos,
                    window,
                ),
            forall|j: int| r <= j < rows ==> #[trigger] grid.cells@[j] == old(grid).cells@[j],
            effects@ == old(effects)@ + grid_echoes(
                old(grid).cells@,
                *event,
                cursor_pos,
                window,
                r as int,
            ),
        decreases rows - r,
    {
        let ghost entering = *grid;
        let ghost row_before = grid.cells@[r as int];
        let ghost effects_before = effects@;
        proof {
            assert forall|j: int| 0 <= j < row_before@.len() implies (
            #[trigger] row_before@[j]).trigger is Some by {
                assert(old(grid).at(r as int, j).trigger is Some);
            }
        }
        let row = &mut grid.cells[r];
        let cols = row.len();
        let mut k: usize = 0;
        while k < cols
            invariant
                k <= cols,
                cols == row@.len(),
                cols == row_before@.len(),
                forall|j: int| 0 <= j < cols ==> (#[trigger] row_before@[j]).trigger is Some,
                forall|j: int|
                    0 <= j < k ==> cell_dispatched(
                        row_before@[j],
                        #[trigger] row@[j],
                        *event,
                        cursor_pos,
                        window,
                    ),
                forall|j: int| k <= j < cols ==> #[trigger] row@[j] == row_before@[j],
                effects@ == effects_before + row_echoes(
                    row_before@,
                    *event,
                    cursor_pos,
                    window,
                    k as int,
                ),
            decreases cols - k,
        {
            let cell = &mut row[k];
            assert(*cell == row_before@[k as int]);
            let mut no_bars: Option<(ScrollBar, ScrollBar)> = None;
            let mut no_children: Vec<WidgetNode> = Vec::new();
            let trigger = match cell.trigger {
                Some(trigger) => trigger,
                None => Trigger::new(0),
            };
            offer_event(
                &mut cell.actions,
                &trigger,
                &mut cell.base,
                &mut no_bars,
                &mut no_children,
                event,
                cursor_pos,
                window,
                effects,
            );
            k = k + 1;
        }
        proof {
            assert(row_before == old(grid).cells@[r as int]);
            assert forall|j: int, k: int|
                0 <= j < r + 1 && 0 <= k < old(grid).cells@[j]@.len() implies cell_dispatched(
                old(grid).at(j, k),
                #[trigger] grid.at(j, k),
                *event,
                cursor_pos,
                window,
            ) by {
                if j < r {
                    assert(grid.cells@[j] == entering.cells@[j]);
                    assert(grid.at(j, k) == entering.at(j, k));
                } else {
                    assert(cell_dispatched(
                        row_before@[k],
                        grid.cells@[j]@[k],
                        *event,
                        cursor_pos,
                        window,
                    ));
                }
            }
            assert forall|j: int| 0 <= j < r + 1 implies (#[trigger] grid.cells@[j])@.len() == old(
                grid,
            ).cells@[j]@.len() by {
                if j < r {
                    assert(grid.cells@[j] == entering.cells@[j]);
                }
            }
        }
        r = r + 1;
    }
}

/// Offers the event `event` to every action in the tree below `node`:
/// first to the actions of the widget itself, then to its children or
/// cells in their order. What the actions ask for is put behind what
/// `effects` holds, in the order in which they saw the event.
#[verifier::rlimit(50)]
pub fn apply_actions(
    node: &mut WidgetNode,
    event: &Event,
    cursor_pos: Point,
    window: WindowSize,
    effects: &mut Vec<Effect>,
)
    requires
        rooted(*old(node)),
    ensures
        dispatched(
            *old(node),
            old(node).spec_base().offset,
            *final(node),
            *event,
            cursor_pos,
            window,
        ),
        final(effects)@ == old(effects)@ + echoes(
            *old(node),
            old(node).spec_base().offset,
            *event,
            cursor_pos,
            window,
        ),
    decreases depth(*old(node)), 0nat,
{
    let trigger = match node.trigger() {
        Some(trigger) => trigger,
        None => Trigger::new(0),
    };
    let ghost offset = old(node).spec_base().offset;
    proof {
        assert(parts_of(*old(node), offset).base == old(node).spec_base());
    }
    match node {
        WidgetNode::Container(c) => {
            let ghost before = *c;
            let ghost parts = parts_of(*old(node), offset);
            offer_event(
                &mut c.actions,
                &trigger,
                &mut c.base,
                &mut c.scrollbar,
                &mut c.children,
                event,
                cursor_pos,
                window,
                effects,
            );
            let ghost shown = c.children@;
            proof {
                lemma_seen_children(
                    before.actions@,
                    trigger,
                    parts,
                    *event,
                    cursor_pos,
                    window,
                    before.actions@.len() as int,
                );
                lemma_shown_children(before.children@, shown, *event, cursor_pos, window, shown.len());
            }
            offer_to_children(&mut c.children, event, cursor_pos, window, effects);
            proof {
                assert forall|i: int| 0 <= i < before.children@.len() implies dispatched(
                    before.children@[i],
                    shown[i].spec_base().offset,
                    #[trigger] c.children@[i],
                    *event,
                    cursor_pos,
                    window,
                ) by {
                    lemma_dispatched_from(
                        before.children@[i],
                        shown[i].spec_base().offset,
                        c.children@[i],
                        *event,
                        cursor_pos,
                        window,
                    );
                }
            }
        },
        WidgetNode::Canvas(c) => {
            let mut no_bars: Option<(ScrollBar, ScrollBar)> = None;
            let mut no_children: Vec<WidgetNode> = Vec::new();
            offer_event(
                &mut c.actions,
                &trigger,
                &mut c.base,
                &mut no_bars,
                &mut no_children,
                event,
                cursor_pos,
                window,
                effects,
            );
            match &mut c.grid {
                Some(grid) => {
                    offer_to_cells(grid, event, cursor_pos, window, effects);
                },
                None => {},
            }
        },
        _ => {
            let mut no_bars: Option<(ScrollBar, ScrollBar)> = None;
            let mut no_children: Vec<WidgetNode> = Vec::new();
            let (actions, base) = node.actions_and_base_mut();
            offer_event(
                actions,
                &trigger,
                base,
                &mut no_bars,
                &mut no_children,
                event,
                cursor_pos,
                window,
                effects,
            );
        },
    }
}

/// Offers the event `event` to every action in the trees below
/// `children`, one tree after the other. What the actions ask for is
/// put behind what `effects` holds.
#[verifier::rlimit(50)]
pub fn offer_to_children(
    children: &mut Vec<WidgetNode>,
    event: &Event,
    cursor_pos: Point,
    window: WindowSize,
    effects: &mut Vec<Effect>,
)
    requires
        forall|i: int| 0 <= i < old(children)@.len() ==> rooted(#[trigger] old(children)@[i]),
    ensures
        final(children)@.len() == old(children)@.len(),
        forall|i: int|
            0 <= i < old(children)@.len() ==> dispatched(
                old(children)@[i],
                old(children)@[i].spec_base().offset,
                #[trigger] final(children)@[i],
                *event,
                cursor_pos,
                window,
            ),
        final(effects)@ == old(effects)@ + echoes_among(
            old(children)@,
            old(children)@,
            *event,
            cursor_pos,
            window,
            old(children)@.len(),
        ),
    decreases deepest(old(children)@, old(children)@.len() as int), 1nat,
{
    let n = children.len();
    let mut i: usize = 0;
    while i < n
        invariant
            i <= n,
            n == children@.len(),
            n == old(children)@.len(),
            forall|j: int| 0 <= j < n ==> rooted(#[trigger] old(children)@[j]),
            forall|j: int|
                0 <= j < i ==> dispatched(
                    old(children)@[j],
                    old(children)@[j].spec_base().offset,
                    #[trigger] children@[j],
                    *event,
                    cursor_pos,
                    window,
                ),
            forall|j: int| i <= j < n ==> #[trigger] children@[j] == old(children)@[j],
            effects@ == old(effects)@ + echoes_among(
                old(children)@,
                old(children)@,
                *event,
                cursor_pos,
                window,
                i as nat,
            ),
        decreases n - i,
    {
        proof {
            lemma_deepest_bounds(old(children)@, n as int, i as int);
            assert(children@[i as int] == old(children)@[i as int]);
        }
        apply_actions(&mut children[i], event, cursor_pos, window, effects);
        i = i + 1;
    }
}

/// What children ask for does not depend on whether their scroll shift
/// is told by themselves or by the list that shows them shifted.
proof fn lemma_shown_children(
    children: Seq<WidgetNode>,
    shown: Seq<WidgetNode>,
    e: Event,
    cursor: Point,
    window: WindowSize,
    k: nat,
)
    requires
        shown.len() == children.len(),
        k <= children.len(),
        forall|j: int|
            0 <= j < children.len() ==> #[trigger] shown[j] == shifted(
                children[j],
                shown[j].spec_base().offset,
            ),
    ensures
        echoes_among(shown, shown, e, cursor, window, k) == echoes_among(
            children,
            shown,
            e,
            cursor,
            window,
            k,
        ),
        forall|j: int| 0 <= j < children.len() && rooted(children[j]) ==> rooted(#[trigger] shown[j]),
        deepest(shown, k as int) == deepest(children, k as int),
    decreases k,
{
    assert forall|j: int| 0 <= j < children.len() && rooted(children[j]) implies rooted(
        #[trigger] shown[j],
    ) by {
        lemma_shifted_keeps_rooted(children[j], shown[j].spec_base().offset);
    }
    if k > 0 {
        lemma_shown_children(children, shown, e, cursor, window, (k - 1) as nat);
        let off = shown[k - 1].spec_base().offset;
        lemma_echoes_from(children[k - 1], off, e, cursor, window);
        lemma_depth_of_based(
            children[k - 1],
            BaseWidget { offset: off, ..children[k - 1].spec_base() },
        );
    }
}

/// What a widget shifted by `offset` asks for is the same for a widget
/// that already is shifted so.
proof fn lemma_echoes_from(node: WidgetNode, offset: Point, e: Event, cursor: Point, window: WindowSize)
    ensures
        echoes(shifted(node, offset), offset, e, cursor, window) == echoes(
            node,
            offset,
            e,
            cursor,
            window,
        ),
{
    assert(parts_of(shifted(node, offset), offset) == parts_of(node, offset));
}

proof fn lemma_shifted_keeps_rooted(node: WidgetNode, offset: Point)
    requires
        rooted(node),
    ensures
        rooted(shifted(node, offset)),
{
}

} // verus!
