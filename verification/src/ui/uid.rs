//! The ids by which widgets are known, and how a new one is found.
//!
//! Ids are listed in the order in which a tree is walked: a widget
//! before what is below it, children in their order, and the cells of a
//! canvas grid row by row. A widget without a trigger has no id.
use vstd::prelude::*;
use crate::ui::layout::Grid;
use crate::ui::sync::{Trigger, UID};
use crate::ui::widget::cell::Cell;
use crate::ui::widget::WidgetNode;

verus! {

/// The id of a trigger, as a list of one id or of none.
pub open spec fn id_of(trigger: Option<Trigger>) -> Seq<UID> {
    match trigger {
        Some(t) => seq![t.uid],
        None => Seq::empty(),
    }
}

/// The ids of the first `k` cells of a row.
pub open spec fn ids_of_row(row: Seq<Cell>, k: int) -> Seq<UID>
    decreases k,
{
    if k <= 0 || k > row.len() {
        Seq::empty()
    } else {
        ids_of_row(row, k - 1) + id_of(row[k - 1].trigger)
    }
}

/// The ids of the cells in the first `r` rows of a table.
pub open spec fn ids_of_rows(rows: Seq<Vec<Cell>>, r: int) -> Seq<UID>
    decreases r,
{
    if r <= 0 || r > rows.len() {
        Seq::empty()
    } else {
        ids_of_rows(rows, r - 1) + ids_of_row(rows[r - 1]@, rows[r - 1]@.len() as int)
    }
}

/// The ids of all widgets of a tree.
pub open spec fn ids(node: WidgetNode) -> Seq<UID>
    decreases node, 0nat, 0nat,
{
    let own = id_of(node.spec_trigger());
    match node {
        WidgetNode::Container(c) => own + ids_among(c.children@, c.children@.len()),
        WidgetNode::Canvas(c) => match c.grid {
            Some(grid) => own + ids_of_rows(grid.cells@, grid.cells@.len() as int),
            None => own,
        },
        _ => own,
    }
}

/// The ids of all widgets of the first `k` of `nodes`.
pub open spec fn ids_among(nodes: Seq<WidgetNode>, k: nat) -> Seq<UID>
    decreases nodes, 1nat, k,
{
    if k == 0 || k > nodes.len() {
        Seq::empty()
    } else {
        ids_among(nodes, (k - 1) as nat) + ids(nodes[k - 1])
    }
}

/// Whether the cells of two tables have the same triggers, cell by
/// cell.
pub open spec fn akin_cells(before: Seq<Vec<Cell>>, after: Seq<Vec<Cell>>) -> bool {
    &&& after.len() == before.len()
    &&& forall|r: int| 0 <= r < before.len() ==> (#[trigger] after[r])@.len() == before[r]@.len()
    &&& forall|r: int, k: int|
        0 <= r < before.len() && 0 <= k < before[r]@.len() ==> (#[trigger] after[r]@[k]).trigger
            == before[r]@[k].trigger
}

/// Whether two trees have the same shape and the same triggers, widget
/// by widget and cell by cell.
pub open spec fn akin(before: WidgetNode, after: WidgetNode) -> bool
    decreases before,
{
    &&& after.spec_trigger() == before.spec_trigger()
    &&& match before {
        WidgetNode::Container(c) => {
            &&& after matches WidgetNode::Container(d)
            &&& d.children@.len() == c.children@.len()
            &&& forall|i: int|
                0 <= i < c.children@.len() ==> akin(c.children@[i], #[trigger] d.children@[i])
        },
        WidgetNode::Canvas(c) => {
            &&& after matches WidgetNode::Canvas(d)
            &&& match c.grid {
                Some(g) => d.grid matches Some(h) && akin_cells(g.cells@, h.cells@),
                None => d.grid is None,
            }
        },
        _ => !(after is Container) && !(after is Canvas),
    }
}

/// Rows that agree in the triggers of their first `k` cells agree in
/// the ids of those cells.
pub proof fn lemma_row_ids(before: Seq<Cell>, after: Seq<Cell>, k: int)
    requires
        after.len() == before.len(),
        k <= before.len(),
        forall|j: int| 0 <= j < k ==> (#[trigger] after[j]).trigger == before[j].trigger,
    ensures
        ids_of_row(after, k) == ids_of_row(before, k),
    decreases k,
{
    if k > 0 {
        lemma_row_ids(before, after, k - 1);
    }
}

/// Tables that agree in the triggers of the cells of their first `r`
/// rows agree in the ids of those cells.
pub proof fn lemma_rows_ids(before: Seq<Vec<Cell>>, after: Seq<Vec<Cell>>, r: int)
    requires
        after.len() == before.len(),
        r <= before.len(),
        forall|j: int| 0 <= j < r ==> (#[trigger] after[j])@.len() == before[j]@.len(),
        forall|j: int, k: int|
            0 <= j < r && 0 <= k < before[j]@.len() ==> (#[trigger] after[j]@[k]).trigger
                == before[j]@[k].trigger,
    ensures
        ids_of_rows(after, r) == ids_of_rows(before, r),
    decreases r,
{
    if r > 0 {
        lemma_rows_ids(before, after, r - 1);
        assert(after[r - 1]@.len() == before[r - 1]@.len());
        lemma_row_ids(before[r - 1]@, after[r - 1]@, before[r - 1]@.len() as int);
    }
}

/// Lists of trees that agree in the ids of each of their first `k`
/// trees agree in the ids of all of them together.
pub proof fn lemma_ids_among(before: Seq<WidgetNode>, after: Seq<WidgetNode>, k: nat)
    requires
        after.len() == before.len(),
        k <= before.len(),
        forall|j: int| 0 <= j < k ==> ids(#[trigger] after[j]) == ids(before[j]),
    ensures
        ids_among(after, k) == ids_among(before, k),
    decreases k,
{
    if k > 0 {
        lemma_ids_among(before, after, (k - 1) as nat);
    }
}

/// A list of trees that begins as a shorter one does has, in its first
/// `k` trees, the ids that the shorter one has there.
pub proof fn lemma_ids_among_longer(short: Seq<WidgetNode>, long: Seq<WidgetNode>, k: nat)
    requires
        k <= short.len() <= long.len(),
        forall|j: int| 0 <= j < k ==> #[trigger] long[j] == short[j],
    ensures
        ids_among(long, k) == ids_among(short, k),
    decreases k,
{
    if k > 0 {
        lemma_ids_among_longer(short, long, (k - 1) as nat);
    }
}

/// Trees of the same shape and with the same triggers have the same
/// ids.
pub proof fn lemma_akin_ids(before: WidgetNode, after: WidgetNode)
    requires
        akin(before, after),
    ensures
        ids(after) == ids(before),
    decreases before,
{
    match before {
        WidgetNode::Container(c) => {
            let d = after->Container_0;
            assert forall|j: int| 0 <= j < c.children@.len() implies ids(#[trigger] d.children@[j])
                == ids(c.children@[j]) by {
                lemma_akin_ids(c.children@[j], d.children@[j]);
            }
            lemma_ids_among(c.children@, d.children@, c.children@.len());
        },
        WidgetNode::Canvas(c) => {
            match c.grid {
                Some(g) => {
                    let h = after->Canvas_0.grid->0;
                    lemma_rows_ids(g.cells@, h.cells@, g.cells@.len() as int);
                },
                None => {},
            }
        },
        _ => {},
    }
}

/// A tree is of the same shape and has the same triggers as itself.
pub proof fn lemma_akin_same(node: WidgetNode)
    ensures
        akin(node, node),
    decreases node,
{
    match node {
        WidgetNode::Container(c) => {
            assert forall|i: int| 0 <= i < c.children@.len() implies akin(
                c.children@[i],
                #[trigger] c.children@[i],
            ) by {
                lemma_akin_same(c.children@[i]);
            }
        },
        _ => {},
    }
}

/// A list that holds each of the ids `0` to `m - 1` holds no fewer than
/// `m` ids.
pub proof fn lemma_crowded(taken: Seq<UID>, m: nat)
    requires
        m <= usize::MAX + 1,
        forall|u: UID| u < m ==> taken.contains(u),
    ensures
        m <= taken.len(),
    decreases m,
{
    if m > 0 {
        let last = (m - 1) as UID;
        assert(taken.contains(last));
        let at = choose|j: int| 0 <= j < taken.len() && taken[j] == last;
        let rest = taken.remove(at);
        assert forall|u: UID| u < m - 1 implies rest.contains(u) by {
            assert(taken.contains(u));
            let i = choose|i: int| 0 <= i < taken.len() && taken[i] == u;
            if i < at {
                assert(rest[i] == u);
            } else {
                assert(rest[i - 1] == u);
            }
        }
        lemma_crowded(rest, (m - 1) as nat);
    }
}

/// Whether `uid` is among `taken`.
pub fn is_taken(taken: &Vec<UID>, uid: UID) -> (yes: bool)
    ensures
        yes == taken@.contains(uid),
{
    let mut i: usize = 0;
    while i < taken.len()
        invariant
            i <= taken.len(),
            forall|j: int| 0 <= j < i ==> taken@[j] != uid,
        decreases taken.len() - i,
    {
        if taken[i] == uid {
            return true;
        }
        i = i + 1;
    }
    false
}

/// An id that is not among `taken`: the id `drawn` where that is free,
/// else the least id that is.
pub fn free_uid(drawn: UID, taken: &Vec<UID>) -> (uid: UID)
    ensures
        !taken@.contains(uid),
        !taken@.contains(drawn) ==> uid == drawn,
        taken@.contains(drawn) ==> forall|u: UID| u < uid ==> taken@.contains(u),
{
    if !is_taken(taken, drawn) {
        return drawn;
    }
    let mut least: UID = 0;
    while is_taken(taken, least)
        invariant
            least <= taken@.len(),
            forall|u: UID| u < least ==> taken@.contains(u),
        decreases taken@.len() - least,
    {
        proof {
            assert forall|u: UID| u < least + 1 implies taken@.contains(u) by {
                if u == least {
                } else {
                    assert(u < least);
                }
            }
            lemma_crowded(taken@, (least + 1) as nat);
            assert(least + 1 <= taken@.len());
            assert(taken@.len() == taken.len());
        }
        least = least + 1;
    }
    least
}

/// Putting an id that a list without doubles does not hold behind it
/// leaves the list without doubles.
pub proof fn lemma_push_free(taken: Seq<UID>, uid: UID)
    requires
        taken.no_duplicates(),
        !taken.contains(uid),
    ensures
        taken.push(uid).no_duplicates(),
{
    let more = taken.push(uid);
    assert forall|i: int, j: int| 0 <= i < more.len() && 0 <= j < more.len() && i != j implies more[i]
        != more[j] by {
        if i < taken.len() && j < taken.len() {
            assert(taken[i] != taken[j]);
        } else if i < taken.len() {
            assert(taken.contains(taken[i]));
        } else {
            assert(taken.contains(taken[j]));
        }
    }
}

} // verus!
