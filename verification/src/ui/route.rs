//! Finding a widget in a tree by the id of its trigger.
//!
//! A tree is searched from the top: a widget comes before what is below
//! it, children come in their order, and the cells of a canvas grid
//! come row by row. Where several widgets go by one id, the first in
//! this order answers to it.
use vstd::prelude::*;
use crate::ui::layout::Grid;
use crate::ui::sync::{Trigger, UID};
use crate::ui::widget::canvas::Canvas;
use crate::ui::widget::cell::Cell;
use crate::ui::widget::container::Container;
use crate::ui::widget::{BaseWidget, WidgetNode};

verus! {

/// Whether `trigger` is the trigger with the id `uid`.
pub open spec fn names(trigger: Option<Trigger>, uid: UID) -> bool {
    trigger == Some(Trigger { uid })
}

/// The common record of the first cell from number `from` on that goes
/// by `uid`.
pub open spec fn found_in_row(row: Seq<Cell>, uid: UID, from: nat) -> Option<BaseWidget>
    decreases row.len() - from,
{
    if from >= row.len() {
        None
    } else if names(row[from as int].trigger, uid) {
        Some(row[from as int].base)
    } else {
        found_in_row(row, uid, from + 1)
    }
}

/// The common record of the first cell that goes by `uid` in the rows
/// from number `from` on.
pub open spec fn found_in_rows(rows: Seq<Vec<Cell>>, uid: UID, from: nat) -> Option<BaseWidget>
    decreases rows.len() - from,
{
    if from >= rows.len() {
        None
    } else {
        match found_in_row(rows[from as int]@, uid, 0) {
            Some(base) => Some(base),
            None => found_in_rows(rows, uid, from + 1),
        }
    }
}

/// The common record of the first widget of a tree that goes by `uid`.
pub open spec fn found(node: WidgetNode, uid: UID) -> Option<BaseWidget>
    decreases node, 0nat, 0nat,
{
    if names(node.spec_trigger(), uid) {
        Some(node.spec_base())
    } else {
        match node {
            WidgetNode::Container(c) => found_among(c.children@, uid, 0),
            WidgetNode::Canvas(c) => match c.grid {
                Some(grid) => found_in_rows(grid.cells@, uid, 0),
                None => None,
            },
            _ => None,
        }
    }
}

/// The common record of the first widget that goes by `uid` in the
/// trees from number `from` on.
pub open spec fn found_among(nodes: Seq<WidgetNode>, uid: UID, from: nat) -> Option<BaseWidget>
    decreases nodes, 1nat, nodes.len() - from,
{
    if from >= nodes.len() {
        None
    } else {
        match found(nodes[from as int], uid) {
            Some(base) => Some(base),
            None => found_among(nodes, uid, from + 1),
        }
    }
}

/// Whether the tree with number `i` is the first of `nodes` that holds
/// a widget going by `uid`.
pub open spec fn leads(nodes: Seq<WidgetNode>, uid: UID, i: int) -> bool {
    &&& 0 <= i < nodes.len()
    &&& found(nodes[i], uid) is Some
    &&& forall|j: int| 0 <= j < i ==> found(#[trigger] nodes[j], uid) is None
}

/// Whether the cell with number `k` is the first of `row` that goes by
/// `uid`.
pub open spec fn leads_row(row: Seq<Cell>, uid: UID, k: int) -> bool {
    &&& 0 <= k < row.len()
    &&& names(row[k].trigger, uid)
    &&& forall|j: int| 0 <= j < k ==> !names((#[trigger] row[j]).trigger, uid)
}

/// Whether the row with number `r` is the first of `rows` that holds a
/// cell going by `uid`.
pub open spec fn leads_rows(rows: Seq<Vec<Cell>>, uid: UID, r: int) -> bool {
    &&& 0 <= r < rows.len()
    &&& found_in_row(rows[r]@, uid, 0) is Some
    &&& forall|j: int| 0 <= j < r ==> found_in_row((#[trigger] rows[j])@, uid, 0) is None
}

/// Whether `after` is the tree `before` with `base` as the common
/// record of the first widget that goes by `uid`, and nothing else
/// changed. A tree without such a widget is not changed at all.
pub open spec fn replaced(before: WidgetNode, after: WidgetNode, uid: UID, base: BaseWidget) -> bool
    decreases before,
{
    if names(before.spec_trigger(), uid) {
        after == before.with_base(base)
    } else {
        match before {
            WidgetNode::Container(c) => {
                &&& after matches WidgetNode::Container(d)
                &&& d == (Container { children: d.children, ..c })
                &&& d.children@.len() == c.children@.len()
                &&& forall|i: int|
                    0 <= i < c.children@.len() ==> if leads(c.children@, uid, i) {
                        replaced(c.children@[i], #[trigger] d.children@[i], uid, base)
                    } else {
                        d.children@[i] == c.children@[i]
                    }
            },
            WidgetNode::Canvas(c) => {
                &&& after matches WidgetNode::Canvas(d)
                &&& d == (Canvas { grid: d.grid, ..c })
                &&& match c.grid {
                    Some(g) => {
                        &&& d.grid matches Some(h)
                        &&& h == (Grid { cells: h.cells, ..g })
                        &&& h.cells@.len() == g.cells@.len()
                        &&& forall|r: int|
                            0 <= r < g.cells@.len() ==> (#[trigger] h.cells@[r])@.len()
                                == g.cells@[r]@.len()
                        &&& forall|r: int, k: int|
                            0 <= r < g.cells@.len() && 0 <= k < g.cells@[r]@.len() ==> #[trigger] h.at(
                                r,
                                k,
                            ) == (if leads_rows(g.cells@, uid, r) && leads_row(g.cells@[r]@, uid, k) {
                                Cell { base, ..g.at(r, k) }
                            } else {
                                g.at(r, k)
                            })
                    },
                    None => d.grid is None,
                }
            },
            _ => after == before,
        }
    }
}

fn is_named(trigger: Option<Trigger>, uid: UID) -> (yes: bool)
    ensures
        yes == names(trigger, uid),
{
    match trigger {
        Some(t) => t.uid == uid,
        None => false,
    }
}

fn find_in_row<'a>(row: &'a Vec<Cell>, uid: UID) -> (hit: Option<usize>)
    ensures
        match hit {
            Some(k) => leads_row(row@, uid, k as int) && found_in_row(row@, uid, 0) == Some(
                row@[k as int].base,
            ),
            None => found_in_row(row@, uid, 0) is None,
        },
{
    let mut k: usize = 0;
    while k < row.len()
        invariant
            k <= row.len(),
            found_in_row(row@, uid, 0) == found_in_row(row@, uid, k as nat),
            forall|j: int| 0 <= j < k ==> !names((#[trigger] row@[j]).trigger, uid),
        decreases row.len() - k,
    {
        if is_named(row[k].trigger, uid) {
            return Some(k);
        }
        k = k + 1;
    }
    None
}

fn find_in_rows<'a>(rows: &'a Vec<Vec<Cell>>, uid: UID) -> (hit: Option<(usize, usize)>)
    ensures
        match hit {
            Some((r, k)) => {
                &&& leads_rows(rows@, uid, r as int)
                &&& leads_row(rows@[r as int]@, uid, k as int)
                &&& found_in_rows(rows@, uid, 0) == Some(rows@[r as int]@[k as int].base)
            },
            None => found_in_rows(rows@, uid, 0) is None,
        },
{
    let mut r: usize = 0;
    while r < rows.len()
        invariant
            r <= rows.len(),
            found_in_rows(rows@, uid, 0) == found_in_rows(rows@, uid, r as nat),
            forall|j: int| 0 <= j < r ==> found_in_row((#[trigger] rows@[j])@, uid, 0) is None,
        decreases rows.len() - r,
    {
        match find_in_row(&rows[r], uid) {
            Some(k) => {
                return Some((r, k));
            },
            None => {},
        }
        r = r + 1;
    }
    None
}

/// The common record of the first widget of the tree below `node` that
/// goes by `uid`.
pub fn find<'a>(node: &'a WidgetNode, uid: UID) -> (hit: Option<&'a BaseWidget>)
    ensures
        match hit {
            Some(base) => found(*node, uid) == Some(*base),
            None => found(*node, uid) is None,
        },
    decreases node, 0nat,
{
    if is_named(node.trigger(), uid) {
        return Some(node.base());
    }
    match node {
        WidgetNode::Container(c) => find_among(&c.children, uid),
        WidgetNode::Canvas(c) => match &c.grid {
            Some(grid) => match find_in_rows(&grid.cells, uid) {
                Some((r, k)) => Some(&grid.cells[r][k].base),
                None => None,
            },
            None => None,
        },
        _ => None,
    }
}

/// The common record of the first widget that goes by `uid` in the
/// trees below `nodes`.
pub fn find_among<'a>(nodes: &'a Vec<WidgetNode>, uid: UID) -> (hit: Option<&'a BaseWidget>)
    ensures
        match hit {
            Some(base) => found_among(nodes@, uid, 0) == Some(*base),
            None => found_among(nodes@, uid, 0) is None,
        },
    decreases nodes, 1nat,
{
    let mut i: usize = 0;
    while i < nodes.len()
        invariant
            i <= nodes.len(),
            found_among(nodes@, uid, 0) == found_among(nodes@, uid, i as nat),
        decreases nodes.len() - i,
    {
        match find(&nodes[i], uid) {
            Some(base) => {
                return Some(base);
            },
            None => {},
        }
        i = i + 1;
    }
    None
}

/// A widget as it is found in a tree: a node of the tree, or a cell of
/// a canvas grid.
#[derive(Debug)]
pub enum Found<'a> {
    Widget(&'a WidgetNode),
    Cell(&'a Cell),
}

impl<'a> Found<'a> {
    /// The common record of the widget.
    pub open spec fn spec_base(self) -> BaseWidget {
        match self {
            Found::Widget(node) => node.spec_base(),
            Found::Cell(cell) => cell.base,
        }
    }

    /// The trigger of the widget.
    pub open spec fn spec_trigger(self) -> Option<Trigger> {
        match self {
            Found::Widget(node) => node.spec_trigger(),
            Found::Cell(cell) => cell.trigger,
        }
    }

    /// The common record of the widget.
    pub fn base(&self) -> (base: &'a BaseWidget)
        ensures
            *base == self.spec_base(),
    {
        match self {
            Found::Widget(node) => node.base(),
            Found::Cell(cell) => &cell.base,
        }
    }
}

/// Whether `hit` is what a search for `uid` has to give where the
/// common record of the first widget that goes by `uid` is `first`: a
/// widget that goes by `uid` and has that record, and nothing where no
/// widget goes by `uid`.
pub open spec fn answers(hit: Option<Found>, uid: UID, first: Option<BaseWidget>) -> bool {
    match hit {
        Some(widget) => names(widget.spec_trigger(), uid) && first == Some(widget.spec_base()),
        None => first is None,
    }
}

/// The first widget of the tree below `node` that goes by `uid`.
pub fn locate<'a>(node: &'a WidgetNode, uid: UID) -> (hit: Option<Found<'a>>)
    ensures
        answers(hit, uid, found(*node, uid)),
    decreases node, 0nat,
{
    if is_named(node.trigger(), uid) {
        return Some(Found::Widget(node));
    }
    match node {
        WidgetNode::Container(c) => locate_among(&c.children, uid),
        WidgetNode::Canvas(c) => match &c.grid {
            Some(grid) => match find_in_rows(&grid.cells, uid) {
                Some((r, k)) => Some(Found::Cell(&grid.cells[r][k])),
                None => None,
            },
            None => None,
        },
        _ => None,
    }
}

/// The first widget that goes by `uid` in the trees below `nodes`.
pub fn locate_among<'a>(nodes: &'a Vec<WidgetNode>, uid: UID) -> (hit: Option<Found<'a>>)
    ensures
        answers(hit, uid, found_among(nodes@, uid, 0)),
    decreases nodes, 1nat,
{
    let mut i: usize = 0;
    while i < nodes.len()
        invariant
            i <= nodes.len(),
            found_among(nodes@, uid, 0) == found_among(nodes@, uid, i as nat),
        decreases nodes.len() - i,
    {
        match locate(&nodes[i], uid) {
            Some(widget) => {
                return Some(widget);
            },
            None => {},
        }
        i = i + 1;
    }
    None
}

/// Number of the first of the trees below `nodes` that holds a widget
/// going by `uid`.
pub fn index_among(nodes: &Vec<WidgetNode>, uid: UID) -> (hit: Option<usize>)
    ensures
        match hit {
            Some(i) => leads(nodes@, uid, i as int) && found_among(nodes@, uid, 0) == found(
                nodes@[i as int],
                uid,
            ),
            None => found_among(nodes@, uid, 0) is None,
        },
{
    let mut i: usize = 0;
    while i < nodes.len()
        invariant
            i <= nodes.len(),
            found_among(nodes@, uid, 0) == found_among(nodes@, uid, i as nat),
            forall|j: int| 0 <= j < i ==> found(#[trigger] nodes@[j], uid) is None,
        decreases nodes.len() - i,
    {
        if find(&nodes[i], uid).is_some() {
            return Some(i);
        }
        i = i + 1;
    }
    None
}

/// Gives the first widget of the tree below `node` that goes by `uid`
/// the common record `base` and hands back the one it had.
#[verifier::rlimit(50)]
pub fn replace_base(node: &mut WidgetNode, uid: UID, base: BaseWidget) -> (previous: BaseWidget)
    requires
        found(*old(node), uid) is Some,
    ensures
        found(*old(node), uid) == Some(previous),
        replaced(*old(node), *final(node), uid, base),
    decreases *old(node),
{
    let ghost given = base;
    let mut base = base;
    if is_named(node.trigger(), uid) {
        let slot = node.base_mut();
        core::mem::swap(slot, &mut base);
        return base;
    }
    match node {
        WidgetNode::Container(c) => {
            let ghost before = *c;
            match index_among(&c.children, uid) {
                Some(i) => {
                    proof {
                        assert((*old(node))->Container_0.children == before.children);
                        vstd::std_specs::vec::axiom_vec_index_decreases(before.children, i as int);
                        assert(decreases_to!(*old(node) => before.children));
                    }
                    let previous = replace_base(&mut c.children[i], uid, base);
                    proof {
                        assert forall|j: int| 0 <= j < before.children@.len() implies if leads(
                            before.children@,
                            uid,
                            j,
                        ) {
                            replaced(before.children@[j], #[trigger] c.children@[j], uid, given)
                        } else {
                            c.children@[j] == before.children@[j]
                        } by {
                            if leads(before.children@, uid, j) && j != i {
                                if j < i {
                                    assert(found(before.children@[j], uid) is None);
                                } else {
                                    assert(found(before.children@[i as int], uid) is None);
                                }
                            }
                        }
                    }
                    previous
                },
                None => base,
            }
        },
        WidgetNode::Canvas(c) => {
            match &mut c.grid {
                Some(grid) => {
                    let ghost before = *grid;
                    match find_in_rows(&grid.cells, uid) {
                        Some((r, k)) => {
                            let row = &mut grid.cells[r];
                            let cell = &mut row[k];
                            core::mem::swap(&mut cell.base, &mut base);
                            proof {
                                assert forall|i: int, j: int|
                                    0 <= i < before.cells@.len() && 0 <= j
                                        < before.cells@[i]@.len() implies #[trigger] grid.at(i, j) == (
                                if leads_rows(before.cells@, uid, i) && leads_row(
                                    before.cells@[i]@,
                                    uid,
                                    j,
                                ) {
                                    Cell { base: given, ..before.at(i, j) }
                                } else {
                                    before.at(i, j)
                                }) by {
                                    if leads_rows(before.cells@, uid, i) && i != r {
                                        if i < r {
                                            assert(found_in_row(before.cells@[i]@, uid, 0) is None);
                                        } else {
                                            assert(found_in_row(before.cells@[r as int]@, uid, 0) is None);
                                        }
                                    }
                                    if i == r && leads_row(before.cells@[i]@, uid, j) && j != k {
                                        if j < k {
                                            assert(!names(before.cells@[i]@[j].trigger, uid));
                                        } else {
                                            assert(!names(before.cells@[i]@[k as int].trigger, uid));
                                        }
                                    }
                                }
                            }
                            base
                        },
                        None => base,
                    }
                },
                None => base,
            }
        },
        _ => base,
    }
}

/// Gives the first widget that goes by `uid` in the trees below
/// `nodes` the common record `base` and hands back the one it had.
pub fn replace_among(nodes: &mut Vec<WidgetNode>, uid: UID, base: BaseWidget) -> (previous: BaseWidget)
    requires
        found_among(old(nodes)@, uid, 0) is Some,
    ensures
        found_among(old(nodes)@, uid, 0) == Some(previous),
        replaced_among(old(nodes)@, final(nodes)@, uid, base),
{
    match index_among(nodes, uid) {
        Some(i) => {
            let previous = replace_base(&mut nodes[i], uid, base);
            proof {
                assert forall|j: int| 0 <= j < old(nodes)@.len() implies if leads(old(nodes)@, uid, j) {
                    replaced(old(nodes)@[j], #[trigger] nodes@[j], uid, base)
                } else {
                    nodes@[j] == old(nodes)@[j]
                } by {
                    if leads(old(nodes)@, uid, j) && j != i {
                        if j < i {
                            assert(found(old(nodes)@[j], uid) is None);
                        } else {
                            assert(found(old(nodes)@[i as int], uid) is None);
                        }
                    }
                }
            }
            previous
        },
        None => base,
    }
}

/// Whether `after` are the trees `before` with `base` as the common
/// record of the first widget that goes by `uid`, and nothing else
/// changed.
pub open spec fn replaced_among(
    before: Seq<WidgetNode>,
    after: Seq<WidgetNode>,
    uid: UID,
    base: BaseWidget,
) -> bool {
    &&& after.len() == before.len()
    &&& forall|i: int|
        0 <= i < before.len() ==> if leads(before, uid, i) {
            replaced(before[i], #[trigger] after[i], uid, base)
        } else {
            after[i] == before[i]
        }
}

/// Where a search among trees succeeds, some tree is the first to hold
/// the widget, and the search finds what a search of that tree finds.
pub proof fn lemma_found_among_first(nodes: Seq<WidgetNode>, uid: UID, from: nat) -> (i: int)
    requires
        found_among(nodes, uid, from) is Some,
    ensures
        from <= i < nodes.len(),
        found(nodes[i], uid) is Some,
        forall|j: int| from <= j < i ==> found(#[trigger] nodes[j], uid) is None,
        found_among(nodes, uid, from) == found(nodes[i], uid),
    decreases nodes.len() - from,
{
    if found(nodes[from as int], uid) is Some {
        from as int
    } else {
        lemma_found_among_first(nodes, uid, from + 1)
    }
}

/// A search among trees finds what a search of the first tree that
/// holds the widget finds.
pub proof fn lemma_found_among_at(nodes: Seq<WidgetNode>, uid: UID, from: nat, i: int)
    requires
        from <= i < nodes.len(),
        found(nodes[i], uid) is Some,
        forall|j: int| from <= j < i ==> found(#[trigger] nodes[j], uid) is None,
    ensures
        found_among(nodes, uid, from) == found(nodes[i], uid),
    decreases i - from,
{
    if from < i {
        assert(found(nodes[from as int], uid) is None);
        lemma_found_among_at(nodes, uid, from + 1, i);
    }
}

proof fn lemma_found_in_row_first(row: Seq<Cell>, uid: UID, from: nat) -> (k: int)
    requires
        found_in_row(row, uid, from) is Some,
    ensures
        from <= k < row.len(),
        names(row[k].trigger, uid),
        forall|j: int| from <= j < k ==> !names((#[trigger] row[j]).trigger, uid),
        found_in_row(row, uid, from) == Some(row[k].base),
    decreases row.len() - from,
{
    if names(row[from as int].trigger, uid) {
        from as int
    } else {
        lemma_found_in_row_first(row, uid, from + 1)
    }
}

proof fn lemma_found_in_row_at(row: Seq<Cell>, uid: UID, from: nat, k: int)
    requires
        from <= k < row.len(),
        names(row[k].trigger, uid),
        forall|j: int| from <= j < k ==> !names((#[trigger] row[j]).trigger, uid),
    ensures
        found_in_row(row, uid, from) == Some(row[k].base),
    decreases k - from,
{
    if from < k {
        assert(!names(row[from as int].trigger, uid));
        lemma_found_in_row_at(row, uid, from + 1, k);
    }
}

proof fn lemma_found_in_row_none(row: Seq<Cell>, uid: UID, from: nat)
    requires
        forall|j: int| from <= j < row.len() ==> !names((#[trigger] row[j]).trigger, uid),
    ensures
        found_in_row(row, uid, from) is None,
    decreases row.len() - from,
{
    if from < row.len() {
        assert(!names(row[from as int].trigger, uid));
        lemma_found_in_row_none(row, uid, from + 1);
    }
}

proof fn lemma_found_in_row_some(row: Seq<Cell>, uid: UID, from: nat)
    requires
        found_in_row(row, uid, from) is None,
    ensures
        forall|j: int| from <= j < row.len() ==> !names((#[trigger] row[j]).trigger, uid),
    decreases row.len() - from,
{
    if from < row.len() {
        lemma_found_in_row_some(row, uid, from + 1);
    }
}

proof fn lemma_found_in_rows_first(rows: Seq<Vec<Cell>>, uid: UID, from: nat) -> (r: int)
    requires
        found_in_rows(rows, uid, from) is Some,
    ensures
        from <= r < rows.len(),
        found_in_row(rows[r]@, uid, 0) is Some,
        forall|j: int| from <= j < r ==> found_in_row((#[trigger] rows[j])@, uid, 0) is None,
        found_in_rows(rows, uid, from) == found_in_row(rows[r]@, uid, 0),
    decreases rows.len() - from,
{
    if found_in_row(rows[from as int]@, uid, 0) is Some {
        from as int
    } else {
        lemma_found_in_rows_first(rows, uid, from + 1)
    }
}

proof fn lemma_found_in_rows_at(rows: Seq<Vec<Cell>>, uid: UID, from: nat, r: int)
    requires
        from <= r < rows.len(),
        found_in_row(rows[r]@, uid, 0) is Some,
        forall|j: int| from <= j < r ==> found_in_row((#[trigger] rows[j])@, uid, 0) is None,
    ensures
        found_in_rows(rows, uid, from) == found_in_row(rows[r]@, uid, 0),
    decreases r - from,
{
    if from < r {
        assert(found_in_row(rows[from as int]@, uid, 0) is None);
        lemma_found_in_rows_at(rows, uid, from + 1, r);
    }
}

/// What has been put in a tree is what is found there: after a common
/// record has been replaced for an id that some widget of the tree goes
/// by, a search for the id finds the new record.
#[verifier::rlimit(50)]
pub proof fn lemma_replaced_found(before: WidgetNode, after: WidgetNode, uid: UID, base: BaseWidget)
    requires
        replaced(before, after, uid, base),
        found(before, uid) is Some,
    ensures
        found(after, uid) == Some(base),
    decreases before,
{
    if names(before.spec_trigger(), uid) {
    } else {
        match before {
            WidgetNode::Container(c) => {
                let d = after->Container_0;
                let i = lemma_found_among_first(c.children@, uid, 0);
                assert(leads(c.children@, uid, i));
                assert(replaced(c.children@[i], d.children@[i], uid, base));
                lemma_replaced_found(c.children@[i], d.children@[i], uid, base);
                assert forall|j: int| 0 <= j < i implies found(#[trigger] d.children@[j], uid) is None by {
                    assert(!leads(c.children@, uid, j));
                    assert(d.children@[j] == c.children@[j]);
                }
                lemma_found_among_at(d.children@, uid, 0, i);
            },
            WidgetNode::Canvas(c) => {
                let g = c.grid->0;
                let h = after->Canvas_0.grid->0;
                let r = lemma_found_in_rows_first(g.cells@, uid, 0);
                let k = lemma_found_in_row_first(g.cells@[r]@, uid, 0);
                assert(leads_rows(g.cells@, uid, r));
                assert(leads_row(g.cells@[r]@, uid, k));
                assert(h.at(r, k) == Cell { base, ..g.at(r, k) });
                assert forall|j: int| 0 <= j < k implies !names((#[trigger] h.cells@[r]@[j]).trigger, uid) by {
                    assert(!leads_row(g.cells@[r]@, uid, j));
                    assert(h.at(r, j) == g.at(r, j));
                }
                lemma_found_in_row_at(h.cells@[r]@, uid, 0, k);
                assert forall|i: int| 0 <= i < r implies found_in_row(
                    (#[trigger] h.cells@[i])@,
                    uid,
                    0,
                ) is None by {
                    assert(found_in_row(g.cells@[i]@, uid, 0) is None);
                    lemma_found_in_row_some(g.cells@[i]@, uid, 0);
                    assert forall|j: int| 0 <= j < h.cells@[i]@.len() implies !names(
                        (#[trigger] h.cells@[i]@[j]).trigger,
                        uid,
                    ) by {
                        assert(!leads_rows(g.cells@, uid, i));
                        assert(h.at(i, j) == g.at(i, j));
                        assert(!names(g.cells@[i]@[j].trigger, uid));
                    }
                    lemma_found_in_row_none(h.cells@[i]@, uid, 0);
                }
                lemma_found_in_rows_at(h.cells@, uid, 0, r);
            },
            _ => {},
        }
    }
}

/// What has been put among trees is what is found there.
pub proof fn lemma_replaced_among_found(
    before: Seq<WidgetNode>,
    after: Seq<WidgetNode>,
    uid: UID,
    base: BaseWidget,
)
    requires
        replaced_among(before, after, uid, base),
        found_among(before, uid, 0) is Some,
    ensures
        found_among(after, uid, 0) == Some(base),
{
    let i = lemma_found_among_first(before, uid, 0);
    assert(leads(before, uid, i));
    assert(replaced(before[i], after[i], uid, base));
    lemma_replaced_found(before[i], after[i], uid, base);
    assert forall|j: int| 0 <= j < i implies found(#[trigger] after[j], uid) is None by {
        assert(!leads(before, uid, j));
        assert(after[j] == before[j]);
    }
    lemma_found_among_at(after, uid, 0, i);
}

} // verus!
