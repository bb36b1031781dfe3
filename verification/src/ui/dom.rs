//! The tree of widgets and what happens to it in one turn of the event
//! loop.
//!
//! A [`DOM`] owns the widgets. The application feeds it one event at a
//! time and carries out what it asks for in return: painting, and the
//! effects that actions have asked for.
use rand::Rng;
use vstd::prelude::*;
use crate::action::Effect;
use crate::render::pre::{
    arranged,
    floored,
    measured,
    resolvable,
    resolved,
    slot_of,
    PreRenderer,
};
use crate::ui::dispatch::{
    cell_dispatched,
    dispatched,
    echoes_among,
    offer_to_children,
    parts_after,
    rooted,
};
use crate::ui::event::{Event, WindowSize};
use crate::ui::layout::{Grid, Layout, Point};
use crate::ui::route::{
    answers,
    find_among,
    found_among,
    leads,
    lemma_replaced_among_found,
    locate_among,
    replace_among,
    replaced,
    replaced_among,
    Found,
};
use crate::ui::sync::{Signal, Trigger, WidgetCallback, UID};
use crate::ui::uid::{
    akin,
    akin_cells,
    free_uid,
    id_of,
    ids,
    ids_among,
    ids_of_row,
    ids_of_rows,
    lemma_akin_ids,
    lemma_akin_same,
    lemma_ids_among,
    lemma_ids_among_longer,
    lemma_push_free,
    lemma_row_ids,
    lemma_rows_ids,
};
use crate::ui::widget::canvas::Canvas;
use crate::ui::widget::cell::Cell;
use crate::ui::widget::container::Container;
use crate::ui::widget::{BaseWidget, EmitterId, WidgetNode};

verus! {

/// `rand::rngs::ThreadRng`, the handle to a thread's random number
/// generator. It is only handed on: nothing is said of what it holds.
#[verifier::external_type_specification]
#[verifier::external_body]
pub struct ExThreadRng(rand::rngs::ThreadRng);

/// `rand::thread_rng`: a handle to the random number generator of the
/// running thread, which the operating system seeds when the thread
/// first asks for it. Nothing is claimed of the handle. The call takes
/// no input; it gives up only where the operating system has no seed to
/// give.
#[verifier::external_body]
fn thread_generator() -> (rng: rand::rngs::ThreadRng) {
    rand::thread_rng()
}

/// `Rng::gen` for `usize`: the next number of the generator, any value
/// of the type being as likely as any other. Nothing is claimed of the
/// number: two calls may give the same one. After every 64 KiB of
/// numbers the generator takes a new seed from the operating system, and
/// the call gives up where there is none to have; no input decides
/// that.
#[verifier::external_body]
fn draw_uid(rng: &mut rand::rngs::ThreadRng) -> (uid: UID) {
    rng.gen()
}

/// What has to be painted after an event.
#[derive(Debug, Clone, Copy, PartialEq, Eq, Structural)]
pub enum Paint {
    /// Nothing any more: the window closes.
    Quit,
    /// The whole window: clear it, draw every tree, present.
    Whole,
    /// The widget that goes by the id, after the rectangle has been
    /// cleared: draw it and present.
    Widget(UID, Layout),
}

/// What the application has to do after an event.
#[derive(Debug)]
pub struct Reaction {
    /// What to paint, if anything.
    pub paint: Option<Paint>,
    /// What actions have asked for, in the order in which they asked.
    pub effects: Vec<Effect>,
}

/// The widgets of one window: the trees in the order in which they
/// were added, where the pointer was last seen, and the size of the
/// drawing area.
///
/// Beside the trees it keeps a tally of the ids that their widgets go
/// by. Whatever is done to a `DOM` through its methods leaves it fit for
/// events and layout, as [`DOM::wf`] says.
#[derive(Debug)]
pub struct DOM {
    nodes: Vec<WidgetNode>,
    given: Vec<UID>,
    cursor_position: Point,
    window: WindowSize,
}

/// Whether `after` is the cell `before` with a trigger.
pub open spec fn cell_enrolled(before: Cell, after: Cell) -> bool {
    &&& after == (Cell { trigger: after.trigger, ..before })
    &&& after.trigger is Some
}

/// Whether `after` is the tree `before` with a trigger for every
/// widget in it, cells of canvas grids included, and nothing else
/// changed.
pub open spec fn enrolled(before: WidgetNode, after: WidgetNode) -> bool
    decreases before,
{
    &&& after.spec_trigger() is Some
    &&& match before {
        WidgetNode::Container(c) => {
            &&& after matches WidgetNode::Container(d)
            &&& d == (Container { trigger: d.trigger, children: d.children, ..c })
            &&& d.children@.len() == c.children@.len()
            &&& forall|i: int|
                0 <= i < c.children@.len() ==> enrolled(c.children@[i], #[trigger] d.children@[i])
        },
        WidgetNode::Canvas(c) => {
            &&& after matches WidgetNode::Canvas(d)
            &&& d == (Canvas { trigger: d.trigger, grid: d.grid, ..c })
            &&& match c.grid {
                Some(g) => {
                    &&& d.grid matches Some(h)
                    &&& h == (Grid { cells: h.cells, ..g })
                    &&& h.cells@.len() == g.cells@.len()
                    &&& forall|r: int|
                        0 <= r < g.cells@.len() ==> (#[trigger] h.cells@[r])@.len() == g.cells@[r]@.len()
                    &&& forall|r: int, k: int|
                        0 <= r < g.cells@.len() && 0 <= k < g.cells@[r]@.len() ==> cell_enrolled(
                            g.at(r, k),
                            #[trigger] h.at(r, k),
                        )
                },
                None => d.grid is None,
            }
        },
        _ => after == before.with_trigger(after.spec_trigger()),
    }
}

/// The background producers to start for a tree, each with the trigger
/// of the widget it is connected to: that of the widget itself first,
/// then those below a container, child after child.
pub open spec fn launches(node: WidgetNode) -> Seq<(EmitterId, Trigger)>
    decreases node, 0nat, 0nat,
{
    let own = match node.spec_emitter() {
        Some(emitter) => seq![(emitter, node.spec_trigger()->0)],
        None => Seq::empty(),
    };
    match node {
        WidgetNode::Container(c) => own + launches_among(c.children@, c.children@.len()),
        _ => own,
    }
}

/// The background producers to start for the first `k` of `nodes`.
pub open spec fn launches_among(nodes: Seq<WidgetNode>, k: nat) -> Seq<(EmitterId, Trigger)>
    decreases nodes, 1nat, k,
{
    if k == 0 || k > nodes.len() {
        Seq::empty()
    } else {
        launches_among(nodes, (k - 1) as nat) + launches(nodes[k - 1])
    }
}

proof fn lemma_launches_prefix(a: Seq<WidgetNode>, b: Seq<WidgetNode>, k: nat)
    requires
        a.len() == b.len(),
        k <= a.len(),
        forall|j: int| 0 <= j < k ==> a[j] == b[j],
    ensures
        launches_among(a, k) == launches_among(b, k),
    decreases k,
{
    if k > 0 {
        lemma_launches_prefix(a, b, (k - 1) as nat);
    }
}

/// Gives `cell` a trigger whose id is `drawn` where no widget goes by
/// that yet, and the least free id else, and notes the id in `taken`.
fn enroll_cell(cell: &mut Cell, drawn: UID, taken: &mut Vec<UID>)
    requires
        old(taken)@.no_duplicates(),
    ensures
        cell_enrolled(*old(cell), *final(cell)),
        final(taken)@ == old(taken)@ + id_of(final(cell).trigger),
        final(taken)@.no_duplicates(),
{
    let uid = free_uid(drawn, taken);
    cell.trigger = Some(Trigger::new(uid));
    proof {
        lemma_push_free(taken@, uid);
    }
    taken.push(uid);
    assert(taken@ =~= old(taken)@ + id_of(cell.trigger));
}

#[verifier::rlimit(50)]
fn enroll_cells(grid: &mut Grid, rng: &mut rand::rngs::ThreadRng, taken: &mut Vec<UID>)
    requires
        old(taken)@.no_duplicates(),
    ensures
        *final(grid) == (Grid { cells: final(grid).cells, ..*old(grid) }),
        final(grid).cells@.len() == old(grid).cells@.len(),
        forall|r: int|
            0 <= r < old(grid).cells@.len() ==> (#[trigger] final(grid).cells@[r])@.len() == old(
                grid,
            ).cells@[r]@.len(),
        forall|r: int, k: int|
            0 <= r < old(grid).cells@.len() && 0 <= k < old(grid).cells@[r]@.len() ==> cell_enrolled(
                old(grid).at(r, k),
                #[trigger] final(grid).at(r, k),
            ),
        final(taken)@ == old(taken)@ + ids_of_rows(
            final(grid).cells@,
            final(grid).cells@.len() as int,
        ),
        final(taken)@.no_duplicates(),
{
    let rows = grid.cells.len();
    let mut r: usize = 0;
    assert(taken@ =~= old(taken)@ + ids_of_rows(grid.cells@, 0));
    while r < rows
        invariant
            r <= rows,
            rows == grid.cells@.len(),
            rows == old(grid).cells@.len(),
            *grid == (Grid { cells: grid.cells, ..*old(grid) }),
            forall|j: int|
                0 <= j < r ==> (#[trigger] grid.cells@[j])@.len() == old(grid).cells@[j]@.len(),
            forall|j: int, k: int|
                0 <= j < r && 0 <= k < old(grid).cells@[j]@.len() ==> cell_enrolled(
                    old(grid).at(j, k),
                    #[trigger] grid.at(j, k),
                ),
            forall|j: int| r <= j < rows ==> #[trigger] grid.cells@[j] == old(grid).cells@[j],
            taken@ == old(taken)@ + ids_of_rows(grid.cells@, r as int),
            taken@.no_duplicates(),
        decreases rows - r,
    {
        let ghost entering = *grid;
        let ghost row_before = grid.cells@[r as int];
        let ghost taken_before = taken@;
        let row = &mut grid.cells[r];
        let cols = row.len();
        let mut k: usize = 0;
        assert(taken@ =~= taken_before + ids_of_row(row@, 0));
        while k < cols
            invariant
                k <= cols,
                cols == row@.len(),
                cols == row_before@.len(),
                forall|j: int| 0 <= j < k ==> cell_enrolled(row_before@[j], #[trigger] row@[j]),
                forall|j: int| k <= j < cols ==> #[trigger] row@[j] == row_before@[j],
                taken@ == taken_before + ids_of_row(row@, k as int),
                taken@.no_duplicates(),
            decreases cols - k,
        {
            let drawn = draw_uid(rng);
            let ghost row_entering = row@;
            let ghost taken_entering = taken@;
            enroll_cell(&mut row[k], drawn, taken);
            proof {
                lemma_row_ids(row_entering, row@, k as int);
                assert(taken@ =~= taken_before + ids_of_row(row@, k + 1));
            }
            k = k + 1;
        }
        proof {
            assert(row_before == old(grid).cells@[r as int]);
            assert forall|j: int, k: int|
                0 <= j < r + 1 && 0 <= k < old(grid).cells@[j]@.len() implies cell_enrolled(
                old(grid).at(j, k),
                #[trigger] grid.at(j, k),
            ) by {
                if j < r {
                    assert(grid.cells@[j] == entering.cells@[j]);
                    assert(grid.at(j, k) == entering.at(j, k));
                } else {
                    assert(cell_enrolled(row_before@[k], grid.cells@[j]@[k]));
                }
            }
            assert forall|j: int| 0 <= j < r + 1 implies (#[trigger] grid.cells@[j])@.len() == old(
                grid,
            ).cells@[j]@.len() by {
                if j < r {
                    assert(grid.cells@[j] == entering.cells@[j]);
                }
            }
            assert forall|j: int| 0 <= j < r implies (#[trigger] grid.cells@[j])@.len()
                == entering.cells@[j]@.len() by {
                assert(grid.cells@[j] == entering.cells@[j]);
            }
            assert forall|j: int, k: int|
                0 <= j < r && 0 <= k < entering.cells@[j]@.len() implies (
            #[trigger] grid.cells@[j]@[k]).trigger == entering.cells@[j]@[k].trigger by {
                assert(grid.cells@[j] == entering.cells@[j]);
            }
            lemma_rows_ids(entering.cells@, grid.cells@, r as int);
            assert(taken@ =~= old(taken)@ + ids_of_rows(grid.cells@, r + 1));
        }
        r = r + 1;
    }
}

/// Gives every widget of the tree below `node` a trigger, and puts the
/// background producers to start behind what `started` holds.
///
/// For each widget an id is drawn from `rng`. The widget goes by that
/// id where no widget does yet, and by the least free id else. `taken`
/// holds the ids that widgets go by; the new ones are put behind them.
#[verifier::rlimit(50)]
fn enroll(
    node: &mut WidgetNode,
    rng: &mut rand::rngs::ThreadRng,
    started: &mut Vec<(EmitterId, Trigger)>,
    taken: &mut Vec<UID>,
)
    requires
        old(taken)@.no_duplicates(),
    ensures
        enrolled(*old(node), *final(node)),
        final(started)@ == old(started)@ + launches(*final(node)),
        final(taken)@ == old(taken)@ + ids(*final(node)),
        final(taken)@.no_duplicates(),
    decreases *old(node),
{
    let drawn = draw_uid(rng);
    let uid = free_uid(drawn, taken);
    let trigger = Trigger::new(uid);
    node.set_trigger(Some(trigger));
    proof {
        lemma_push_free(taken@, uid);
    }
    taken.push(uid);
    match node.emitter() {
        Some(emitter) => {
            started.push((emitter, trigger));
        },
        None => {},
    }
    let ghost own = started@;
    let ghost mine = taken@;
    assert(mine =~= old(taken)@ + id_of(Some(trigger)));
    match node {
        WidgetNode::Container(c) => {
            let ghost orig = c.children;
            let n = c.children.len();
            let mut i: usize = 0;
            assert(taken@ =~= mine + ids_among(c.children@, 0));
            while i < n
                invariant
                    i <= n,
                    n == c.children@.len(),
                    n == orig@.len(),
                    *old(node) is Container,
                    (*old(node))->Container_0.children == orig,
                    *c == (Container {
                        trigger: Some(trigger),
                        children: c.children,
                        ..(*old(node))->Container_0
                    }),
                    forall|j: int| 0 <= j < i ==> enrolled(orig@[j], #[trigger] c.children@[j]),
                    forall|j: int| i <= j < n ==> #[trigger] c.children@[j] == orig@[j],
                    started@ == own + launches_among(c.children@, i as nat),
                    taken@ == mine + ids_among(c.children@, i as nat),
                    taken@.no_duplicates(),
                decreases n - i,
            {
                proof {
                    vstd::std_specs::vec::axiom_vec_index_decreases(orig, i as int);
                    assert(decreases_to!(*old(node) => orig));
                }
                let ghost entering = c.children@;
                enroll(&mut c.children[i], rng, started, taken);
                proof {
                    lemma_launches_prefix(entering, c.children@, i as nat);
                    lemma_ids_among(entering, c.children@, i as nat);
                    assert(taken@ =~= mine + ids_among(c.children@, (i + 1) as nat));
                }
                i = i + 1;
            }
            assert(taken@ =~= old(taken)@ + ids(*node));
        },
        WidgetNode::Canvas(c) => {
            match &mut c.grid {
                Some(grid) => {
                    enroll_cells(grid, rng, taken);
                },
                None => {},
            }
            assert(taken@ =~= old(taken)@ + ids(*node));
        },
        _ => {
            assert(taken@ =~= old(taken)@ + ids(*node));
        },
    }
}

impl DOM {
    /// Whether the tree is fit for events and layout: every widget has
    /// its trigger, no two widgets go by the same id, the tally of ids is
    /// right, and layout can be resolved for every tree.
    pub open spec fn wf(&self) -> bool {
        &&& forall|i: int|
            0 <= i < self.trees().len() ==> rooted(#[trigger] self.trees()[i]) && resolvable(
                self.trees()[i],
            )
        &&& ids_among(self.trees(), self.trees().len()).no_duplicates()
        &&& self.tallied()
    }

    /// Whether the tally of ids holds the ids of the widgets in the
    /// trees, in the order of the trees.
    pub closed spec fn tallied(&self) -> bool {
        self.given@ == ids_among(self.nodes@, self.nodes@.len())
    }

    proof fn lemma_trees(&self)
        ensures
            self.trees() == self.nodes@,
            self.tallied() <==> self.given@ == ids_among(self.nodes@, self.nodes@.len()),
            self.wf() <==> {
                &&& forall|i: int|
                    0 <= i < self.nodes@.len() ==> rooted(#[trigger] self.nodes@[i]) && resolvable(
                        self.nodes@[i],
                    )
                &&& ids_among(self.nodes@, self.nodes@.len()).no_duplicates()
                &&& self.given@ == ids_among(self.nodes@, self.nodes@.len())
            },
    {
        if self.wf() {
            assert forall|i: int| 0 <= i < self.nodes@.len() implies rooted(
                #[trigger] self.nodes@[i],
            ) && resolvable(self.nodes@[i]) by {
                assert(rooted(self.trees()[i]));
            }
        }
        if forall|i: int|
            0 <= i < self.nodes@.len() ==> rooted(#[trigger] self.nodes@[i]) && resolvable(
                self.nodes@[i],
            ) {
            assert forall|i: int| 0 <= i < self.trees().len() implies rooted(
                #[trigger] self.trees()[i],
            ) && resolvable(self.trees()[i]) by {
                assert(rooted(self.nodes@[i]));
            }
        }
    }

    /// The trees, in the order in which they were added.
    pub closed spec fn trees(&self) -> Seq<WidgetNode> {
        self.nodes@
    }

    /// Where the pointer was last seen.
    pub closed spec fn pointer(&self) -> Point {
        self.cursor_position
    }

    /// The size of the drawing area.
    pub closed spec fn area(&self) -> WindowSize {
        self.window
    }

    /// The trees, in the order in which they were added.
    pub fn nodes(&self) -> (nodes: &Vec<WidgetNode>)
        ensures
            nodes@ == self.trees(),
    {
        &self.nodes
    }

    /// Where the pointer was last seen.
    pub fn cursor_position(&self) -> (at: Point)
        ensures
            at == self.pointer(),
    {
        self.cursor_position
    }

    /// The size of the drawing area.
    pub fn window(&self) -> (size: WindowSize)
        ensures
            size == self.area(),
    {
        self.window
    }

    /// The common record of the first widget that goes by `uid`.
    pub fn find(&self, uid: UID) -> (hit: Option<&BaseWidget>)
        ensures
            match hit {
                Some(base) => found_among(self.trees(), uid, 0) == Some(*base),
                None => found_among(self.trees(), uid, 0) is None,
            },
    {
        find_among(&self.nodes, uid)
    }

    /// The first widget that goes by `uid`, as it stands in its tree.
    pub fn locate(&self, uid: UID) -> (hit: Option<Found>)
        ensures
            answers(hit, uid, found_among(self.trees(), uid, 0)),
    {
        locate_among(&self.nodes, uid)
    }

    /// Gives the first widget that goes by `uid` the common record
    /// `base` and hands back the one it had. Without such a widget the
    /// tree stays as it is and `base` comes back as the error.
    pub fn replace_base(&mut self, uid: UID, base: BaseWidget) -> (previous: Result<
        BaseWidget,
        BaseWidget,
    >)
        requires
            old(self).wf(),
        ensures
            final(self).wf(),
            final(self).pointer() == old(self).pointer(),
            final(self).area() == old(self).area(),
            match previous {
                Ok(had) => found_among(old(self).trees(), uid, 0) == Some(had) && replaced_among(
                    old(self).trees(),
                    final(self).trees(),
                    uid,
                    base,
                ),
                Err(back) => found_among(old(self).trees(), uid, 0) is None && back == base
                    && final(self).trees() == old(self).trees(),
            },
    {
        proof {
            old(self).lemma_trees();
        }
        if find_among(&self.nodes, uid).is_some() {
            let had = replace_among(&mut self.nodes, uid, base);
            proof {
                lemma_replaced_among_keeps(old(self).nodes@, self.nodes@, uid, base);
                self.lemma_trees();
            }
            Ok(had)
        } else {
            Err(base)
        }
    }

    /// An empty tree for a window whose drawing area is `width` by
    /// `height` pixels.
    pub fn new(width: u32, height: u32) -> (dom: DOM)
        ensures
            dom.wf(),
            dom.trees().len() == 0,
            dom.pointer() == Point::origin(),
            dom.area() == (WindowSize { width, height }),
    {
        DOM {
            nodes: Vec::new(),
            given: Vec::new(),
            cursor_position: Point::default(),
            window: WindowSize { width, height },
        }
    }

    /// Makes `widget` the last tree. Every widget in it gets a trigger
    /// with an id that no other widget goes by, in this tree or in those
    /// that were there: the id drawn for it where that is free, and the
    /// least free id else. Handed back are the background producers to
    /// start, each with the trigger of its widget.
    pub fn add_widget(&mut self, widget: WidgetNode) -> (started: Vec<(EmitterId, Trigger)>)
        requires
            old(self).wf(),
            resolvable(widget),
        ensures
            final(self).wf(),
            final(self).pointer() == old(self).pointer(),
            final(self).area() == old(self).area(),
            final(self).trees().len() == old(self).trees().len() + 1,
            forall|i: int|
                0 <= i < old(self).trees().len() ==> #[trigger] final(self).trees()[i] == old(
                    self,
                ).trees()[i],
            enrolled(widget, final(self).trees().last()),
            ids_among(final(self).trees(), final(self).trees().len()) == ids_among(
                old(self).trees(),
                old(self).trees().len(),
            ) + ids(final(self).trees().last()),
            ids_among(final(self).trees(), final(self).trees().len()).no_duplicates(),
            started@ == launches(final(self).trees().last()),
    {
        self.add_widgets(widget)
    }

    /// Whether `after` and `reaction` are what one turn of the event
    /// loop makes of this tree for the event `e`.
    ///
    /// A cursor movement is remembered. A request to close is answered
    /// with [`Paint::Quit`]. A request to paint resolves the layout of
    /// every tree and is answered with [`Paint::Whole`]. A signal is
    /// routed to the first widget that goes by its id: a callback is
    /// carried out on it, and the widget is to be painted over its
    /// rectangle; a signal for an id that no widget goes by does
    /// nothing. Pointer and wheel events are then offered to the actions
    /// in every tree, with the pointer where it is after the event.
    pub open spec fn turned(&self, after: &DOM, e: Event, reaction: Reaction) -> bool {
        &&& after.area() == self.area()
        &&& after.trees().len() == self.trees().len()
        &&& after.pointer() == match e {
            Event::CursorMoved { position } => position,
            _ => self.pointer(),
        }
        &&& match e {
            Event::CursorMoved { .. } | Event::MouseInput { .. } | Event::MouseWheel { .. } => {
                &&& reaction.paint is None
                &&& forall|i: int|
                    0 <= i < self.trees().len() ==> dispatched(
                        self.trees()[i],
                        self.trees()[i].spec_base().offset,
                        #[trigger] after.trees()[i],
                        e,
                        after.pointer(),
                        self.area(),
                    )
                &&& reaction.effects@ == echoes_among(
                    self.trees(),
                    self.trees(),
                    e,
                    after.pointer(),
                    self.area(),
                    self.trees().len(),
                )
            },
            Event::CloseRequested => {
                &&& reaction.paint == Some(Paint::Quit)
                &&& reaction.effects@.len() == 0
                &&& after.trees() == self.trees()
            },
            Event::RedrawRequested => {
                &&& reaction.paint == Some(Paint::Whole)
                &&& reaction.effects@.len() == 0
                &&& forall|i: int|
                    0 <= i < self.trees().len() ==> resolved(self.trees()[i], #[trigger] after.trees()[i])
            },
            Event::User(Signal::Update(uid)) => {
                &&& reaction.paint == match found_among(self.trees(), uid, 0) {
                    Some(base) => Some(Paint::Widget(uid, base.layout)),
                    None => None,
                }
                &&& reaction.effects@.len() == 0
                &&& after.trees() == self.trees()
            },
            Event::User(Signal::Callback((uid, callback))) => {
                &&& reaction.effects@.len() == 0
                &&& match found_among(self.trees(), uid, 0) {
                    Some(base) => {
                        &&& reaction.paint == Some(Paint::Widget(uid, callback.applied(base).layout))
                        &&& replaced_among(self.trees(), after.trees(), uid, callback.applied(base))
                    },
                    None => reaction.paint is None && after.trees() == self.trees(),
                }
            },
            Event::Other => {
                &&& reaction.paint is None
                &&& reaction.effects@.len() == 0
                &&& after.trees() == self.trees()
            },
        }
    }

    /// Takes one turn of the event loop for the event `event`, as
    /// [`DOM::turned`] says.
    #[verifier::rlimit(50)]
    pub fn run(&mut self, event: &Event) -> (reaction: Reaction)
        requires
            old(self).wf(),
        ensures
            final(self).wf(),
            old(self).turned(final(self), *event, reaction),
    {
        let mut effects: Vec<Effect> = Vec::new();
        let mut paint: Option<Paint> = None;
        proof {
            old(self).lemma_trees();
        }
        match event {
            Event::CursorMoved { position } => {
                self.cursor_position = *position;
            },
            Event::CloseRequested => {
                paint = Some(Paint::Quit);
            },
            Event::RedrawRequested => {
                self.resolve();
                paint = Some(Paint::Whole);
            },
            Event::User(Signal::Update(uid)) => {
                match find_among(&self.nodes, *uid) {
                    Some(base) => {
                        paint = Some(Paint::Widget(*uid, base.layout));
                    },
                    None => {},
                }
            },
            Event::User(Signal::Callback((uid, callback))) => {
                let current = match find_among(&self.nodes, *uid) {
                    Some(base) => Some(base.duplicate()),
                    None => None,
                };
                match current {
                    Some(base) => {
                        let mut next = base;
                        callback.apply(&mut next);
                        paint = Some(Paint::Widget(*uid, next.layout));
                        let ghost put = next;
                        replace_among(&mut self.nodes, *uid, next);
                        proof {
                            lemma_replaced_among_keeps(old(self).nodes@, self.nodes@, *uid, put);
                        }
                    },
                    None => {},
                }
            },
            _ => {},
        }
        match event {
            Event::CursorMoved { .. } | Event::MouseInput { .. } | Event::MouseWheel { .. } => {
                let cursor = self.cursor_position;
                let window = self.window;
                offer_to_children(&mut self.nodes, event, cursor, window, &mut effects);
                proof {
                    assert forall|i: int| 0 <= i < self.nodes@.len() implies rooted(
                        #[trigger] self.nodes@[i],
                    ) && resolvable(self.nodes@[i]) && ids(self.nodes@[i]) == ids(
                        old(self).nodes@[i],
                    ) by {
                        lemma_dispatched_keeps(
                            old(self).nodes@[i],
                            old(self).nodes@[i].spec_base().offset,
                            self.nodes@[i],
                            *event,
                            cursor,
                            window,
                        );
                        lemma_akin_ids(old(self).nodes@[i], self.nodes@[i]);
                    }
                    lemma_ids_among(old(self).nodes@, self.nodes@, self.nodes@.len());
                }
            },
            _ => {},
        }
        proof {
            self.lemma_trees();
        }
        Reaction { paint, effects }
    }

    /// Resolves the layout of every tree.
    pub fn resolve(&mut self)
        requires
            old(self).wf(),
        ensures
            final(self).wf(),
            final(self).pointer() == old(self).pointer(),
            final(self).area() == old(self).area(),
            final(self).trees().len() == old(self).trees().len(),
            forall|i: int|
                0 <= i < old(self).trees().len() ==> resolved(
                    old(self).trees()[i],
                    #[trigger] final(self).trees()[i],
                ),
    {
        let pre = PreRenderer::new();
        let n = self.nodes.len();
        let mut i: usize = 0;
        proof {
            old(self).lemma_trees();
        }
        while i < n
            invariant
                i <= n,
                n == self.nodes@.len(),
                n == old(self).nodes@.len(),
                old(self).wf(),
                self.cursor_position == old(self).cursor_position,
                self.window == old(self).window,
                forall|j: int|
                    0 <= j < i ==> resolved(old(self).nodes@[j], #[trigger] self.nodes@[j]),
                forall|j: int| 0 <= j < i ==> rooted(#[trigger] self.nodes@[j]) && resolvable(
                    self.nodes@[j],
                ),
                forall|j: int| 0 <= j < n ==> ids(#[trigger] self.nodes@[j]) == ids(old(self).nodes@[j]),
                self.given == old(self).given,
                forall|j: int| i <= j < n ==> #[trigger] self.nodes@[j] == old(self).nodes@[j],
                forall|j: int|
                    0 <= j < n ==> rooted(#[trigger] old(self).nodes@[j]) && resolvable(
                        old(self).nodes@[j],
                    ),
            decreases n - i,
        {
            pre.adjust(&mut self.nodes[i]);
            proof {
                lemma_resolved_keeps(old(self).nodes@[i as int], self.nodes@[i as int]);
            }
            i = i + 1;
        }
        proof {
            lemma_ids_among(old(self).nodes@, self.nodes@, n as nat);
            self.lemma_trees();
        }
    }

    fn add_widgets(&mut self, widget: WidgetNode) -> (started: Vec<(EmitterId, Trigger)>)
        requires
            old(self).wf(),
            resolvable(widget),
        ensures
            final(self).wf(),
            final(self).pointer() == old(self).pointer(),
            final(self).area() == old(self).area(),
            final(self).trees().len() == old(self).trees().len() + 1,
            forall|i: int|
                0 <= i < old(self).trees().len() ==> #[trigger] final(self).trees()[i] == old(
                    self,
                ).trees()[i],
            enrolled(widget, final(self).trees().last()),
            ids_among(final(self).trees(), final(self).trees().len()) == ids_among(
                old(self).trees(),
                old(self).trees().len(),
            ) + ids(final(self).trees().last()),
            ids_among(final(self).trees(), final(self).trees().len()).no_duplicates(),
            started@ == launches(final(self).trees().last()),
    {
        let mut widget = widget;
        let ghost given = widget;
        let mut rng = thread_generator();
        let mut started: Vec<(EmitterId, Trigger)> = Vec::new();
        proof {
            old(self).lemma_trees();
        }
        enroll(&mut widget, &mut rng, &mut started, &mut self.given);
        proof {
            lemma_enrolled_keeps(given, widget);
        }
        self.nodes.push(widget);
        proof {
            lemma_ids_among_longer(old(self).nodes@, self.nodes@, old(self).nodes@.len());
            self.lemma_trees();
        }
        started
    }
}

/// A tree that has been given its triggers has them all, and layout can
/// be resolved for it as before.
pub proof fn lemma_enrolled_keeps(before: WidgetNode, after: WidgetNode)
    requires
        enrolled(before, after),
    ensures
        rooted(after),
        resolvable(before) ==> resolvable(after),
    decreases before,
{
    match before {
        WidgetNode::Container(c) => {
            let d = after->Container_0;
            assert forall|i: int| 0 <= i < d.children@.len() implies rooted(#[trigger] d.children@[i])
                && (resolvable(before) ==> resolvable(d.children@[i])) by {
                lemma_enrolled_keeps(c.children@[i], d.children@[i]);
            }
        },
        WidgetNode::Canvas(c) => {
            match c.grid {
                Some(g) => {
                    let h = after->Canvas_0.grid->0;
                    assert forall|r: int, k: int|
                        0 <= r < h.cells@.len() && 0 <= k < h.cells@[r]@.len() implies (
                    #[trigger] h.at(r, k)).trigger is Some by {
                        assert(cell_enrolled(g.at(r, k), h.at(r, k)));
                    }
                },
                None => {},
            }
        },
        _ => {},
    }
}

/// A tree whose actions have seen an event still has all its triggers,
/// and layout can be resolved for it as before.
pub proof fn lemma_dispatched_keeps(
    before: WidgetNode,
    offset: Point,
    after: WidgetNode,
    e: Event,
    cursor: Point,
    window: WindowSize,
)
    requires
        dispatched(before, offset, after, e, cursor, window),
        rooted(before),
    ensures
        rooted(after),
        resolvable(before) ==> resolvable(after),
        akin(before, after),
    decreases before,
{
    match before {
        WidgetNode::Container(c) => {
            let d = after->Container_0;
            let parts = parts_after(before, offset, e, cursor, window);
            assert forall|i: int| 0 <= i < d.children@.len() implies rooted(#[trigger] d.children@[i])
                && (resolvable(before) ==> resolvable(d.children@[i])) && akin(
                c.children@[i],
                d.children@[i],
            ) by {
                lemma_dispatched_keeps(
                    c.children@[i],
                    parts.children[i].spec_base().offset,
                    d.children@[i],
                    e,
                    cursor,
                    window,
                );
            }
        },
        WidgetNode::Canvas(c) => {
            match c.grid {
                Some(g) => {
                    let h = after->Canvas_0.grid->0;
                    assert forall|r: int, k: int|
                        0 <= r < h.cells@.len() && 0 <= k < h.cells@[r]@.len() implies (
                    #[trigger] h.at(r, k)).trigger is Some by {
                        assert(cell_dispatched(g.at(r, k), h.at(r, k), e, cursor, window));
                        assert(g.at(r, k).trigger is Some);
                    }
                    assert forall|r: int, k: int|
                        0 <= r < g.cells@.len() && 0 <= k < g.cells@[r]@.len() implies (
                    #[trigger] h.cells@[r]@[k]).trigger == g.cells@[r]@[k].trigger by {
                        assert(cell_dispatched(g.at(r, k), h.at(r, k), e, cursor, window));
                    }
                    assert(akin_cells(g.cells@, h.cells@));
                },
                None => {},
            }
        },
        _ => {},
    }
}

/// A measured tree still has all its triggers.
pub proof fn lemma_measured_keeps_rooted(before: WidgetNode, after: WidgetNode)
    requires
        measured(before, after),
        rooted(before),
    ensures
        rooted(after),
        akin(before, after),
    decreases before,
{
    match before {
        WidgetNode::Container(c) => {
            let d = after->Container_0;
            assert forall|i: int| 0 <= i < d.children@.len() implies rooted(
                #[trigger] d.children@[i],
            ) && akin(c.children@[i], d.children@[i]) by {
                lemma_measured_keeps_rooted(c.children@[i], d.children@[i]);
            }
        },
        WidgetNode::Canvas(c) => {
            match c.grid {
                Some(g) => {
                    assert(akin_cells(g.cells@, g.cells@));
                },
                None => {},
            }
        },
        _ => {},
    }
}

/// An arranged tree still has all its triggers, and layout can be
/// resolved for it again.
pub proof fn lemma_arranged_keeps(before: WidgetNode, entry: Layout, after: WidgetNode)
    requires
        arranged(before, entry, after),
        rooted(before),
        resolvable(before),
    ensures
        rooted(after),
        resolvable(after),
        akin(before, after),
    decreases before,
{
    match before {
        WidgetNode::Container(c) => {
            let d = after->Container_0;
            let here = Container { base: c.base.with_layout(entry), ..c };
            assert forall|i: int| 0 <= i < d.children@.len() implies rooted(#[trigger] d.children@[i])
                && resolvable(d.children@[i]) && akin(c.children@[i], d.children@[i]) by {
                lemma_arranged_keeps(c.children@[i], slot_of(here, i), d.children@[i]);
            }
        },
        WidgetNode::Canvas(c) => {
            match c.grid {
                Some(g) => {
                    let h = after->Canvas_0.grid->0;
                    assert forall|r: int, k: int|
                        0 <= r < h.cells@.len() && 0 <= k < h.cells@[r]@.len() implies (
                    #[trigger] h.at(r, k)).trigger is Some by {
                        assert(g.at(r, k).trigger is Some);
                    }
                    assert forall|r: int, k: int|
                        0 <= r < g.cells@.len() && 0 <= k < g.cells@[r]@.len() implies (
                    #[trigger] h.cells@[r]@[k]).trigger == g.cells@[r]@[k].trigger by {
                        assert(h.at(r, k).trigger == g.at(r, k).trigger);
                    }
                    assert(akin_cells(g.cells@, h.cells@));
                },
                None => {},
            }
        },
        _ => {},
    }
}

/// A tree whose layout has been resolved still has all its triggers,
/// and its layout can be resolved again.
pub proof fn lemma_resolved_keeps(before: WidgetNode, after: WidgetNode)
    requires
        resolved(before, after),
        rooted(before),
        resolvable(before),
    ensures
        rooted(after),
        resolvable(after),
        ids(after) == ids(before),
{
    let between = choose|between: WidgetNode|
        measured(before, between) && #[trigger] arranged(
            between,
            floored(between.spec_base().layout),
            after,
        );
    lemma_measured_keeps_rooted(before, between);
    crate::render::pre::lemma_measured_keeps_resolvable(before, between);
    lemma_arranged_keeps(between, floored(between.spec_base().layout), after);
    lemma_akin_ids(before, between);
    lemma_akin_ids(between, after);
}

/// A tree in which a common record has been replaced still has all its
/// triggers, and layout can be resolved for it as before.
pub proof fn lemma_replaced_keeps(before: WidgetNode, after: WidgetNode, uid: UID, base: BaseWidget)
    requires
        replaced(before, after, uid, base),
        rooted(before),
    ensures
        rooted(after),
        resolvable(before) ==> resolvable(after),
        akin(before, after),
    decreases before,
{
    if crate::ui::route::names(before.spec_trigger(), uid) {
    } else {
        match before {
            WidgetNode::Container(c) => {
                let d = after->Container_0;
                assert forall|i: int| 0 <= i < d.children@.len() implies rooted(
                    #[trigger] d.children@[i],
                ) && (resolvable(before) ==> resolvable(d.children@[i])) && akin(
                    c.children@[i],
                    d.children@[i],
                ) by {
                    if leads(c.children@, uid, i) {
                        lemma_replaced_keeps(c.children@[i], d.children@[i], uid, base);
                    } else {
                        lemma_akin_same(c.children@[i]);
                    }
                }
            },
            WidgetNode::Canvas(c) => {
                match c.grid {
                    Some(g) => {
                        let h = after->Canvas_0.grid->0;
                        assert forall|r: int, k: int|
                            0 <= r < h.cells@.len() && 0 <= k < h.cells@[r]@.len() implies (
                        #[trigger] h.at(r, k)).trigger is Some by {
                            assert(g.at(r, k).trigger is Some);
                        }
                        assert forall|r: int, k: int|
                            0 <= r < g.cells@.len() && 0 <= k < g.cells@[r]@.len() implies (
                        #[trigger] h.cells@[r]@[k]).trigger == g.cells@[r]@[k].trigger by {
                            assert(h.at(r, k).trigger == g.at(r, k).trigger);
                        }
                        assert(akin_cells(g.cells@, h.cells@));
                    },
                    None => {},
                }
            },
            _ => {},
        }
    }
    if crate::ui::route::names(before.spec_trigger(), uid) {
        lemma_based_akin(before, base);
    }
}

/// A widget with another common record is of the same shape and has
/// the same triggers.
pub proof fn lemma_based_akin(node: WidgetNode, base: BaseWidget)
    ensures
        akin(node, node.with_base(base)),
{
    lemma_akin_same(node);
    match node {
        WidgetNode::Container(c) => {
            let d = node.with_base(base)->Container_0;
            assert forall|i: int| 0 <= i < c.children@.len() implies akin(
                c.children@[i],
                #[trigger] d.children@[i],
            ) by {
                lemma_akin_same(c.children@[i]);
            }
        },
        _ => {},
    }
}

/// Trees among which a common record has been replaced still have all
/// their triggers, and layout can be resolved for them as before.
pub proof fn lemma_replaced_among_keeps(
    before: Seq<WidgetNode>,
    after: Seq<WidgetNode>,
    uid: UID,
    base: BaseWidget,
)
    requires
        replaced_among(before, after, uid, base),
        forall|i: int| 0 <= i < before.len() ==> rooted(#[trigger] before[i]) && resolvable(before[i]),
    ensures
        forall|i: int| 0 <= i < after.len() ==> rooted(#[trigger] after[i]) && resolvable(after[i]),
        ids_among(after, after.len()) == ids_among(before, before.len()),
{
    assert forall|i: int| 0 <= i < after.len() implies rooted(#[trigger] after[i]) && resolvable(
        after[i],
    ) && ids(after[i]) == ids(before[i]) by {
        assert(rooted(before[i]));
        if leads(before, uid, i) {
            lemma_replaced_keeps(before[i], after[i], uid, base);
            lemma_akin_ids(before[i], after[i]);
        }
    }
    lemma_ids_among(before, after, before.len());
}

/// Callbacks take effect one by one, in the order in which their
/// signals are taken up.
///
/// Where two signals carry callbacks for one widget, the widget ends up
/// as the second callback leaves what the first made of it: each
/// callback is carried out exactly once, and none is lost or undone. A
/// color set by the second callback is the color of the widget
/// afterwards, whatever the first had set. Each turn asks for the
/// widget to be painted over the rectangle that it has after the
/// callback, and asks for nothing else.
pub proof fn lemma_callbacks_in_order(
    start: DOM,
    middle: DOM,
    end: DOM,
    uid: UID,
    first: WidgetCallback,
    second: WidgetCallback,
    one: Reaction,
    two: Reaction,
)
    requires
        found_among(start.trees(), uid, 0) is Some,
        start.turned(&middle, Event::User(Signal::Callback((uid, first))), one),
        middle.turned(&end, Event::User(Signal::Callback((uid, second))), two),
    ensures
        ({
            let base = found_among(start.trees(), uid, 0)->0;
            &&& found_among(middle.trees(), uid, 0) == Some(first.applied(base))
            &&& found_among(end.trees(), uid, 0) == Some(second.applied(first.applied(base)))
            &&& one.paint == Some(Paint::Widget(uid, first.applied(base).layout))
            &&& two.paint == Some(Paint::Widget(uid, second.applied(first.applied(base)).layout))
            &&& one.effects@.len() == 0
            &&& two.effects@.len() == 0
            &&& second matches WidgetCallback::SetColor(color) ==> found_among(
                end.trees(),
                uid,
                0,
            )->0.style.color.color == color
        }),
{
    let base = found_among(start.trees(), uid, 0)->0;
    lemma_replaced_among_found(start.trees(), middle.trees(), uid, first.applied(base));
    lemma_replaced_among_found(
        middle.trees(),
        end.trees(),
        uid,
        second.applied(first.applied(base)),
    );
}

} // verus!
