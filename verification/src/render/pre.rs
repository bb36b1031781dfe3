//! Layout resolution: what is settled about a tree of widgets before it
//! is drawn.
//!
//! Resolution has two phases. The first fits every widget to its text
//! and so settles the natural sizes. The second walks the tree from the
//! top: a container arranges its children and sizes its scrollbars, a
//! canvas fits its grid.
use vstd::prelude::*;
use crate::action::scroll::{
    bar_placed,
    bottom_edge,
    content_bottom,
    content_right,
    reach_bottom,
    reach_right,
    right_edge,
};
use crate::scalar::Scalar;
use crate::ui::layout::{centered, FlexLayout, Grid, Layout, Point};
use crate::ui::text::Text;
use crate::ui::widget::canvas::Canvas;
use crate::ui::widget::container::{col_slot, grid_slot, layouts_of, plain_slot, Container};
use crate::ui::widget::scrollbar::ScrollBar;
use crate::ui::widget::{
    depth,
    lemma_deepest_bounds,
    lemma_depth_of_moved,
    BaseWidget,
    WidgetNode,
};

verus! {

/// Resolves layout.
#[derive(Debug, Clone, Copy)]
pub struct PreRenderer;

/// A widget fitted to its text.
///
/// A widget without a label stays as it is. Otherwise the label is put
/// in the middle of the widget along each axis for which that is asked,
/// and a width or height of zero is replaced by that of the label.
pub open spec fn text_fitted(base: BaseWidget) -> BaseWidget {
    if base.text.label@.len() == 0 {
        base
    } else {
        BaseWidget {
            text: Text {
                pos: Point {
                    x: if base.text.halign {
                        centered(base.layout.w, base.text.extent.x)
                    } else {
                        base.text.pos.x
                    },
                    y: if base.text.valign {
                        centered(base.layout.h, base.text.extent.y)
                    } else {
                        base.text.pos.y
                    },
                },
                ..base.text
            },
            layout: Layout {
                w: if base.layout.w.raw == 0 {
                    base.text.extent.x
                } else {
                    base.layout.w
                },
                h: if base.layout.h.raw == 0 {
                    base.text.extent.y
                } else {
                    base.layout.h
                },
                ..base.layout
            },
            ..base
        }
    }
}

/// Where the policy of a container puts its `i`-th child.
pub open spec fn slot_of(c: Container, i: int) -> Layout {
    match c.flex {
        FlexLayout::Plain => plain_slot(c.frame(), c.children@[i].spec_base().layout),
        FlexLayout::Col => col_slot(c.frame(), layouts_of(c.children@), i),
        FlexLayout::Grid(cols) => grid_slot(c.frame(), cols, layouts_of(c.children@), i),
    }
}

/// Length of a thumb on a track `track` long, where `shown` of `reach`
/// is in view.
///
/// Where `shown` is not less than `reach`, nothing overflows and the
/// thumb spans the whole track. Otherwise it takes the part of the
/// track that `shown` is of `reach`, held between nothing and the whole
/// track. A track below zero counts as a track of no length.
pub open spec fn thumb_length(track: Scalar, shown: Scalar, reach: Scalar) -> Scalar {
    let whole = track.spec_most(Scalar { raw: 0 });
    if shown.raw >= reach.raw {
        whole
    } else {
        shown.spec_over(reach).spec_times(track).spec_within(Scalar { raw: 0 }, whole)
    }
}

fn length_of_thumb(track: Scalar, shown: Scalar, reach: Scalar) -> (length: Scalar)
    ensures
        length == thumb_length(track, shown, reach),
        0 <= length.raw,
        length.raw <= track.spec_most(Scalar { raw: 0 }).raw,
{
    let whole = track.most(Scalar::zero());
    if shown.raw >= reach.raw {
        whole
    } else {
        shown.over(reach).times(track).within(Scalar::zero(), whole)
    }
}

/// The thumbs of the scrollbars of a container with the common record
/// `base` and the children `children`.
///
/// The horizontal thumb lies along the bottom edge and the vertical one
/// along the right edge, each by its thickness, which is not taken to
/// be less than zero. A thumb that is at zero along its track is
/// brought to the start of the track. The length of a thumb is
/// [`thumb_length`] of the container's extent, for the far edge of the
/// container against how far the content reaches.
pub open spec fn thumbs(
    base: BaseWidget,
    bars: (ScrollBar, ScrollBar),
    children: Seq<WidgetNode>,
) -> (ScrollBar, ScrollBar) {
    let x = bars.0.base.layout;
    let y = bars.1.base.layout;
    (
        bar_placed(
            bars.0,
            Layout {
                x: if x.x.raw == 0 {
                    base.layout.x
                } else {
                    x.x
                },
                y: bottom_edge(base).spec_minus(x.h),
                w: thumb_length(base.layout.w, right_edge(base), content_right(base, children)),
                h: x.h.spec_most(Scalar { raw: 0 }),
            },
        ),
        bar_placed(
            bars.1,
            Layout {
                x: right_edge(base).spec_minus(y.w),
                y: if y.y.raw == 0 {
                    base.layout.y
                } else {
                    y.y
                },
                w: y.w.spec_most(Scalar { raw: 0 }),
                h: thumb_length(base.layout.h, bottom_edge(base), content_bottom(base, children)),
            },
        ),
    )
}

/// Whether layout can be resolved for a tree: no container asks for a
/// grid of no columns, and the table of every canvas grid is as large
/// as the grid says.
pub open spec fn resolvable(node: WidgetNode) -> bool
    decreases node,
{
    match node {
        WidgetNode::Container(c) => {
            &&& c.flex != FlexLayout::Grid(0)
            &&& forall|i: int| 0 <= i < c.children@.len() ==> resolvable(#[trigger] c.children@[i])
        },
        WidgetNode::Canvas(c) => c.grid matches Some(grid) ==> grid.wf(),
        _ => true,
    }
}

/// Whether `after` is the tree `before` with every widget fitted to
/// its text: the widget itself and, below a container, each child in the
/// same way.
pub open spec fn measured(before: WidgetNode, after: WidgetNode) -> bool
    decreases before,
{
    match before {
        WidgetNode::Container(c) => {
            &&& after matches WidgetNode::Container(d)
            &&& d == (Container { base: text_fitted(c.base), children: d.children, ..c })
            &&& d.children@.len() == c.children@.len()
            &&& forall|i: int|
                0 <= i < c.children@.len() ==> measured(c.children@[i], #[trigger] d.children@[i])
        },
        _ => after == before.with_base(text_fitted(before.spec_base())),
    }
}

/// Whether `after` is the tree `before` arranged from the top, the top
/// widget itself sitting at `entry`.
///
/// A container puts each child where its policy says, then sizes its
/// scrollbars around the children so placed, and each child arranges
/// what is below it. A canvas with a grid fits the grid to its
/// rectangle. Any other widget only takes its place.
pub open spec fn arranged(before: WidgetNode, entry: Layout, after: WidgetNode) -> bool
    decreases before,
{
    match before {
        WidgetNode::Container(c) => {
            let here = Container { base: c.base.with_layout(entry), ..c };
            &&& after matches WidgetNode::Container(d)
            &&& d.children@.len() == c.children@.len()
            &&& forall|i: int|
                0 <= i < c.children@.len() ==> arranged(
                    c.children@[i],
                    slot_of(here, i),
                    #[trigger] d.children@[i],
                )
            &&& d == (Container {
                children: d.children,
                scrollbar: match c.scrollbar {
                    Some(bars) => Some(
                        thumbs(
                            here.base,
                            bars,
                            Seq::new(
                                c.children@.len(),
                                |i: int| c.children@[i].with_layout(slot_of(here, i)),
                            ),
                        ),
                    ),
                    None => None,
                },
                ..here
            })
        },
        WidgetNode::Canvas(c) => {
            &&& after matches WidgetNode::Canvas(d)
            &&& d == (Canvas { base: c.base.with_layout(entry), grid: d.grid, ..c })
            &&& match c.grid {
                Some(grid) => d.grid matches Some(fitted) && grid.tiles(&fitted, entry),
                None => d.grid is None,
            }
        },
        _ => after == before.with_layout(entry),
    }
}

/// The rectangle `layout` with a width or height below zero raised to
/// zero.
pub open spec fn floored(layout: Layout) -> Layout {
    Layout {
        w: layout.w.spec_most(Scalar { raw: 0 }),
        h: layout.h.spec_most(Scalar { raw: 0 }),
        ..layout
    }
}

/// Whether `after` is the tree `before` with its layout resolved: first
/// measured, then arranged from where the measured top widget sits,
/// which is taken to be no less than zero wide and high.
pub open spec fn resolved(before: WidgetNode, after: WidgetNode) -> bool {
    exists|between: WidgetNode|
        measured(before, between) && #[trigger] arranged(
            between,
            floored(between.spec_base().layout),
            after,
        )
}

/// Layout can be resolved for a measured tree as before.
pub proof fn lemma_measured_keeps_resolvable(before: WidgetNode, after: WidgetNode)
    requires
        measured(before, after),
        resolvable(before),
    ensures
        resolvable(after),
    decreases before,
{
    match before {
        WidgetNode::Container(c) => {
            let d = after->Container_0;
            assert forall|i: int| 0 <= i < d.children@.len() implies resolvable(
                #[trigger] d.children@[i],
            ) by {
                lemma_measured_keeps_resolvable(c.children@[i], d.children@[i]);
            }
        },
        _ => {},
    }
}

/// Whether the table of `grid` is as large as the grid says.
pub fn is_tabled(grid: &Grid) -> (yes: bool)
    ensures
        yes == grid.wf(),
{
    if grid.cells.len() != grid.rows {
        return false;
    }
    let mut r: usize = 0;
    while r < grid.rows
        invariant
            r <= grid.rows,
            grid.cells@.len() == grid.rows,
            forall|k: int| 0 <= k < r ==> (#[trigger] grid.cells@[k])@.len() == grid.cols,
        decreases grid.rows - r,
    {
        if grid.cells[r].len() != grid.cols {
            return false;
        }
        r = r + 1;
    }
    true
}

/// Whether layout can be resolved for the tree below `node`.
pub fn is_resolvable(node: &WidgetNode) -> (yes: bool)
    ensures
        yes == resolvable(*node),
    decreases node,
{
    match node {
        WidgetNode::Container(c) => {
            match c.flex {
                FlexLayout::Grid(cols) => {
                    if cols == 0 {
                        return false;
                    }
                },
                _ => {},
            }
            let mut i: usize = 0;
            while i < c.children.len()
                invariant
                    i <= c.children.len(),
                    *node == WidgetNode::Container(*c),
                    forall|j: int| 0 <= j < i ==> resolvable(#[trigger] c.children@[j]),
                decreases c.children.len() - i,
            {
                proof {
                    assert((*node)->Container_0.children == c.children);
                    vstd::std_specs::vec::axiom_vec_index_decreases(c.children, i as int);
                    assert(decreases_to!(*node => c.children));
                }
                if !is_resolvable(&c.children[i]) {
                    return false;
                }
                i = i + 1;
            }
            true
        },
        WidgetNode::Canvas(c) => match &c.grid {
            Some(grid) => is_tabled(grid),
            None => true,
        },
        _ => true,
    }
}

impl PreRenderer {
    pub fn new() -> (p: PreRenderer) {
        PreRenderer {  }
    }

    /// Fits `widget` to its text as [`text_fitted`] says. Nothing below
    /// the widget changes.
    pub fn adjust_text_layout(&self, widget: &mut WidgetNode)
        ensures
            *final(widget) == old(widget).with_base(text_fitted(old(widget).spec_base())),
    {
        let base = widget.base_mut();
        if !base.text.label.as_str().is_empty() {
            let extent = base.text.get_true_dimensions();
            if base.text.halign {
                base.text.pos.x = base.layout.horizontal_center(extent.x);
            }
            if base.text.valign {
                base.text.pos.y = base.layout.vertical_center(extent.y);
            }
            if base.layout.w.raw == 0 {
                base.layout.w = extent.x;
            }
            if base.layout.h.raw == 0 {
                base.layout.h = extent.y;
            }
        }
    }

    /// Arranges the children of `widget` by its policy.
    pub fn adjust_layout(&self, widget: &mut Container)
        requires
            old(widget).flex != FlexLayout::Grid(0),
        ensures
            old(widget).rearranged(final(widget), |i: int| slot_of(*old(widget), i)),
    {
        match widget.flex {
            FlexLayout::Plain => widget.create_normal_layout(),
            FlexLayout::Col => widget.create_flex_col_layout(),
            FlexLayout::Grid(cols) => widget.create_flex_grid_layout(cols),
        }
    }

    /// Places and sizes the thumbs of the scrollbars of `widget` as
    /// [`thumbs`] says. A container without scrollbars stays as it is.
    pub fn adjust_scrolling(&self, widget: &mut Container)
        ensures
            *final(widget) == (Container {
                scrollbar: match old(widget).scrollbar {
                    Some(bars) => Some(thumbs(old(widget).base, bars, old(widget).children@)),
                    None => None,
                },
                ..*old(widget)
            }),
    {
        let right = widget.base.layout.w.plus(widget.base.layout.x);
        let bottom = widget.base.layout.h.plus(widget.base.layout.y);
        let overflow_x = reach_right(&widget.base, &widget.children);
        let overflow_y = reach_bottom(&widget.base, &widget.children);
        let none = Scalar::zero();
        let wide = length_of_thumb(widget.base.layout.w, right, overflow_x);
        let tall = length_of_thumb(widget.base.layout.h, bottom, overflow_y);
        let left = widget.base.layout.x;
        let top = widget.base.layout.y;
        match &mut widget.scrollbar {
            Some(bars) => {
                bars.0.base.layout.y = bottom.minus(bars.0.base.layout.h);
                if bars.0.base.layout.x.raw == 0 {
                    bars.0.base.layout.x = left;
                }
                bars.0.base.layout.w = wide;
                bars.0.base.layout.h = bars.0.base.layout.h.most(none);
                bars.1.base.layout.x = right.minus(bars.1.base.layout.w);
                if bars.1.base.layout.y.raw == 0 {
                    bars.1.base.layout.y = top;
                }
                bars.1.base.layout.h = tall;
                bars.1.base.layout.w = bars.1.base.layout.w.most(none);
            },
            None => {},
        }
    }

    /// Fits `widget` and every widget below it to its text.
    #[verifier::rlimit(50)]
    pub fn adjust_children(&self, widget: &mut WidgetNode)
        ensures
            measured(*old(widget), *final(widget)),
        decreases *old(widget),
    {
        self.adjust_text_layout(widget);
        match widget {
            WidgetNode::Container(c) => {
                let ghost orig = c.children;
                let n = c.children.len();
                let mut i: usize = 0;
                while i < n
                    invariant
                        i <= n,
                        n == c.children@.len(),
                        n == orig@.len(),
                        (*old(widget))->Container_0.children == orig,
                        *old(widget) is Container,
                        *c == (Container {
                            base: text_fitted((*old(widget))->Container_0.base),
                            children: c.children,
                            ..(*old(widget))->Container_0
                        }),
                        forall|j: int| 0 <= j < i ==> measured(orig@[j], #[trigger] c.children@[j]),
                        forall|j: int| i <= j < n ==> #[trigger] c.children@[j] == orig@[j],
                    decreases n - i,
                {
                    proof {
                        vstd::std_specs::vec::axiom_vec_index_decreases(orig, i as int);
                        assert(decreases_to!(*old(widget) => orig));
                    }
                    self.adjust_children(&mut c.children[i]);
                    i = i + 1;
                }
            },
            _ => {},
        }
    }

    /// Arranges the tree below `widget` from the top, the widget itself
    /// staying where it is.
    #[verifier::rlimit(50)]
    pub fn arrange(&self, widget: &mut WidgetNode)
        requires
            resolvable(*old(widget)),
        ensures
            arranged(*old(widget), old(widget).spec_base().layout, *final(widget)),
        decreases depth(*old(widget)),
    {
        match widget {
            WidgetNode::Container(c) => {
                let ghost before = *c;
                self.adjust_layout(c);
                let ghost placed = c.children@;
                self.adjust_scrolling(c);
                let n = c.children.len();
                let mut i: usize = 0;
                while i < n
                    invariant
                        i <= n,
                        n == c.children@.len(),
                        n == before.children@.len(),
                        n == placed.len(),
                        *old(widget) == WidgetNode::Container(before),
                        resolvable(*old(widget)),
                        forall|j: int|
                            0 <= j < n ==> #[trigger] placed[j] == before.children@[j].with_layout(
                                slot_of(before, j),
                            ),
                        *c == (Container {
                            children: c.children,
                            scrollbar: match before.scrollbar {
                                Some(bars) => Some(thumbs(before.base, bars, placed)),
                                None => None,
                            },
                            ..before
                        }),
                        forall|j: int|
                            0 <= j < i ==> arranged(
                                before.children@[j],
                                slot_of(before, j),
                                #[trigger] c.children@[j],
                            ),
                        forall|j: int| i <= j < n ==> #[trigger] c.children@[j] == placed[j],
                    decreases n - i,
                {
                    proof {
                        let child = before.children@[i as int];
                        assert(c.children@[i as int] == placed[i as int]);
                        lemma_depth_of_moved(child, slot_of(before, i as int));
                        lemma_deepest_bounds(before.children@, n as int, i as int);
                        assert(resolvable(child));
                        lemma_moved_keeps_resolvable(child, slot_of(before, i as int));
                    }
                    let ghost entering = c.children@[i as int];
                    self.arrange(&mut c.children[i]);
                    proof {
                        lemma_arranged_from(
                            before.children@[i as int],
                            slot_of(before, i as int),
                            c.children@[i as int],
                        );
                    }
                    i = i + 1;
                }
                proof {
                    assert(placed =~= Seq::new(
                        before.children@.len(),
                        |i: int| before.children@[i].with_layout(slot_of(before, i)),
                    ));
                    assert(before.base.with_layout(before.base.layout) == before.base);
                }
            },
            WidgetNode::Canvas(c) => {
                let area = c.base.layout;
                match &mut c.grid {
                    Some(grid) => {
                        grid.resize(area.x, area.y, area.h, area.w);
                    },
                    None => {},
                }
            },
            _ => {},
        }
    }

    /// Resolves the layout of the tree below `widget`: measures it, then
    /// arranges it.
    pub fn adjust(&self, widget: &mut WidgetNode)
        requires
            resolvable(*old(widget)),
        ensures
            resolved(*old(widget), *final(widget)),
    {
        self.adjust_children(widget);
        let ghost between = *widget;
        proof {
            lemma_measured_keeps_resolvable(*old(widget), between);
        }
        let base = widget.base_mut();
        base.layout.w = base.layout.w.most(Scalar::zero());
        base.layout.h = base.layout.h.most(Scalar::zero());
        proof {
            lemma_moved_keeps_resolvable(between, floored(between.spec_base().layout));
        }
        self.arrange(widget);
        proof {
            lemma_arranged_from(between, floored(between.spec_base().layout), *widget);
        }
    }
}

proof fn lemma_moved_keeps_resolvable(node: WidgetNode, layout: Layout)
    requires
        resolvable(node),
    ensures
        resolvable(node.with_layout(layout)),
{
}

/// A widget that has been moved to `entry` and then arranged from there
/// is the widget arranged from `entry`.
proof fn lemma_arranged_from(node: WidgetNode, entry: Layout, after: WidgetNode)
    requires
        arranged(node.with_layout(entry), entry, after),
    ensures
        arranged(node, entry, after),
{
}

/// Whether the rectangle `layout` is no less than zero wide and high.
pub open spec fn extended(layout: Layout) -> bool {
    layout.w.raw >= 0 && layout.h.raw >= 0
}

/// Whether no widget of a tree is less than zero wide or high: the
/// widget itself, below a container its scrollbars and every child, and
/// every cell of a canvas grid.
pub open spec fn sized(node: WidgetNode) -> bool
    decreases node,
{
    &&& extended(node.spec_base().layout)
    &&& match node {
        WidgetNode::Container(c) => {
            &&& forall|i: int| 0 <= i < c.children@.len() ==> sized(#[trigger] c.children@[i])
            &&& c.scrollbar matches Some(bars) ==> extended(bars.0.base.layout) && extended(
                bars.1.base.layout,
            )
        },
        WidgetNode::Canvas(c) => c.grid matches Some(grid) ==> forall|r: int, k: int|
            0 <= r < grid.rows && 0 <= k < grid.cols ==> extended(
                (#[trigger] grid.at(r, k)).base.layout,
            ),
        _ => true,
    }
}

/// Arranging a tree from a rectangle that is no less than zero wide and
/// high leaves no widget in it less than zero wide or high.
pub proof fn lemma_arranged_sized(before: WidgetNode, entry: Layout, after: WidgetNode)
    requires
        arranged(before, entry, after),
        extended(entry),
    ensures
        sized(after),
    decreases before,
{
    match before {
        WidgetNode::Container(c) => {
            let d = after->Container_0;
            let here = Container { base: c.base.with_layout(entry), ..c };
            assert forall|i: int| 0 <= i < d.children@.len() implies sized(
                #[trigger] d.children@[i],
            ) by {
                lemma_arranged_sized(c.children@[i], slot_of(here, i), d.children@[i]);
            }
        },
        WidgetNode::Canvas(c) => {
            match c.grid {
                Some(g) => {
                    let h = after->Canvas_0.grid->0;
                    assert forall|r: int, k: int| 0 <= r < h.rows && 0 <= k < h.cols implies extended(
                        (#[trigger] h.at(r, k)).base.layout,
                    ) by {
                        assert(h.at(r, k) == crate::ui::layout::cell_fitted(
                            g.at(r, k),
                            crate::ui::layout::cell_rect(
                                g.cols,
                                g.rows,
                                g.thickness,
                                entry,
                                k as usize,
                                r as usize,
                            ),
                            g.color,
                        ));
                    }
                },
                None => {},
            }
        },
        _ => {},
    }
}

/// Resolving layout never leaves a widget less than zero wide or high,
/// whatever sizes the widgets had before.
pub proof fn lemma_resolved_sized(before: WidgetNode, after: WidgetNode)
    requires
        resolved(before, after),
    ensures
        sized(after),
{
    let between = choose|between: WidgetNode|
        measured(before, between) && #[trigger] arranged(
            between,
            floored(between.spec_base().layout),
            after,
        );
    lemma_arranged_sized(between, floored(between.spec_base().layout), after);
}

/// Where nothing overflows, each thumb spans its whole track: the
/// horizontal thumb is as long as the container is wide where no child
/// is wider than the container reaches to the right, and the vertical
/// thumb as long as the container is high where the last child ends no
/// further down than the container does.
pub proof fn lemma_thumbs_span(base: BaseWidget, bars: (ScrollBar, ScrollBar), children: Seq<WidgetNode>)
    ensures
        content_right(base, children).raw <= right_edge(base).raw ==> thumbs(
            base,
            bars,
            children,
        ).0.base.layout.w == base.layout.w.spec_most(Scalar { raw: 0 }),
        content_bottom(base, children).raw <= bottom_edge(base).raw ==> thumbs(
            base,
            bars,
            children,
        ).1.base.layout.h == base.layout.h.spec_most(Scalar { raw: 0 }),
        0 <= thumbs(base, bars, children).0.base.layout.w.raw <= base.layout.w.spec_most(
            Scalar { raw: 0 },
        ).raw,
        0 <= thumbs(base, bars, children).1.base.layout.h.raw <= base.layout.h.spec_most(
            Scalar { raw: 0 },
        ).raw,
{
}

} // verus!
