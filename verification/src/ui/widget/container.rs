//! The `Container` widget and the arrangement of its children.
//!
//! A container places its children relative to its own top-left corner.
//! Where a policy limits the size of children, a child keeps its size if
//! it is between zero and the limit and is held to the nearer of the
//! two otherwise.
use vstd::prelude::*;
use crate::action::Action;
use crate::scalar::Scalar;
use crate::ui::layout::{centered, Col, FlexLayout, Layout};
use crate::ui::sync::Trigger;
use crate::action::scroll::Scroll;
use crate::ui::widget::scrollbar::{ScrollBar, SCROLLBAR_HIDDEN, SCROLLBAR_SIZE};
use crate::ui::widget::{BaseWidget, EmitterId, Widget, WidgetNode};

verus! {

/// A widget that holds other widgets and arranges them.
///
/// `scrollbar` holds the horizontal bar first and the vertical bar
/// second.
#[derive(Debug)]
pub struct Container {
    pub base: BaseWidget,
    pub actions: Vec<Action>,
    pub emitter: Option<EmitterId>,
    pub trigger: Option<Trigger>,
    pub children: Vec<WidgetNode>,
    pub flex: FlexLayout,
    pub valign: bool,
    pub halign: bool,
    pub gap: Scalar,
    pub scrollbar: Option<(ScrollBar, ScrollBar)>,
}

/// What an arrangement depends on besides the children: the container's
/// rectangle, the gap between children and the two alignment flags.
pub struct Frame {
    pub parent: Layout,
    pub gap: Scalar,
    pub halign: bool,
    pub valign: bool,
}

/// The rectangles of a list of widgets.
pub open spec fn layouts_of(children: Seq<WidgetNode>) -> Seq<Layout> {
    Seq::new(children.len(), |i: int| children[i].spec_base().layout)
}

/// `size` held between zero and `limit`.
pub open spec fn fitted(size: Scalar, limit: Scalar) -> Scalar {
    size.spec_within(Scalar { raw: 0 }, limit)
}

/// The most that one of `parts` children may take of `extent`: an equal
/// part of it less all the gaps along the axis, and never less than
/// zero.
pub open spec fn share(extent: Scalar, parts: i64, gap: Scalar) -> Scalar {
    extent.spec_shared(parts).spec_minus(gap.spec_scaled((parts - 1) as i64)).spec_most(
        Scalar { raw: 0 },
    )
}

/// Number of rows that `n` children fill at `cols` children per row.
pub open spec fn rows_of(n: int, cols: int) -> int {
    if cols <= 0 {
        0
    } else if n % cols == 0 {
        n / cols
    } else {
        n / cols + 1
    }
}

/// Where a child of a plain container comes to sit: at the container's
/// origin, moved to the middle along each axis that is aligned. Its
/// size stays, but for a width or height below zero, which becomes
/// zero.
pub open spec fn plain_slot(f: Frame, child: Layout) -> Layout {
    Layout {
        x: f.parent.x.spec_plus(
            if f.halign {
                centered(f.parent.w, child.w.spec_most(Scalar { raw: 0 }))
            } else {
                Scalar { raw: 0 }
            },
        ),
        y: f.parent.y.spec_plus(
            if f.valign {
                centered(f.parent.h, child.h.spec_most(Scalar { raw: 0 }))
            } else {
                Scalar { raw: 0 }
            },
        ),
        w: child.w.spec_most(Scalar { raw: 0 }),
        h: child.h.spec_most(Scalar { raw: 0 }),
    }
}

/// Distance from the top of a column to the top of its `i`-th child:
/// the fitted heights of the children before it and a gap after each.
pub open spec fn col_top(sizes: Seq<Layout>, limit: Scalar, gap: Scalar, i: int) -> Scalar
    decreases i,
{
    if i <= 0 {
        Scalar { raw: 0 }
    } else {
        col_top(sizes, limit, gap, i - 1).spec_plus(fitted(sizes[i - 1].h, limit)).spec_plus(gap)
    }
}

/// Height of a column of children: from the top of the first to the
/// bottom of the last, and zero without children.
pub open spec fn col_height(sizes: Seq<Layout>, limit: Scalar, gap: Scalar) -> Scalar {
    if sizes.len() == 0 {
        Scalar { raw: 0 }
    } else {
        col_top(sizes, limit, gap, sizes.len() - 1).spec_plus(fitted(sizes.last().h, limit))
    }
}

/// Where the `i`-th child of a column container comes to sit.
///
/// Children are stacked downward in their order with a gap between
/// neighbours. Each height is fitted to [`share`] of the container's
/// height among all children; a width stays, but for one below zero,
/// which becomes zero. With vertical alignment the whole stack sits in
/// the middle of the container; with horizontal alignment each child
/// sits in the middle by its own width.
pub open spec fn col_slot(f: Frame, sizes: Seq<Layout>, i: int) -> Layout {
    let limit = share(f.parent.h, Scalar::spec_count(sizes.len() as usize), f.gap);
    Layout {
        x: f.parent.x.spec_plus(
            if f.halign {
                centered(f.parent.w, sizes[i].w.spec_most(Scalar { raw: 0 }))
            } else {
                Scalar { raw: 0 }
            },
        ),
        y: f.parent.y.spec_plus(
            if f.valign {
                centered(f.parent.h, col_height(sizes, limit, f.gap))
            } else {
                Scalar { raw: 0 }
            },
        ).spec_plus(col_top(sizes, limit, f.gap, i)),
        w: sizes[i].w.spec_most(Scalar { raw: 0 }),
        h: fitted(sizes[i].h, limit),
    }
}

/// Distance from the left edge of a grid to the left edge of its `i`-th
/// child: zero for the first child of a row, else the right edge of the
/// child before it and a gap.
pub open spec fn grid_left(sizes: Seq<Layout>, cols: int, limit: Scalar, gap: Scalar, i: int) -> Scalar
    decreases i,
{
    if i <= 0 || cols <= 0 || i % cols == 0 {
        Scalar { raw: 0 }
    } else {
        grid_left(sizes, cols, limit, gap, i - 1).spec_plus(fitted(sizes[i - 1].w, limit)).spec_plus(
            gap,
        )
    }
}

/// Distance from the top edge of a grid to the top edge of its `i`-th
/// child: zero in the first row, else the bottom edge of the child
/// above it and a gap.
pub open spec fn grid_top(sizes: Seq<Layout>, cols: int, limit: Scalar, gap: Scalar, i: int) -> Scalar
    decreases i,
{
    if cols <= 0 || i < cols {
        Scalar { raw: 0 }
    } else {
        grid_top(sizes, cols, limit, gap, i - cols).spec_plus(
            fitted(sizes[i - cols].h, limit),
        ).spec_plus(gap)
    }
}

/// Width of the block that the first `k` children of a grid take up:
/// the largest distance from the grid's left edge to a right edge.
pub open spec fn grid_width(sizes: Seq<Layout>, cols: int, limit: Scalar, gap: Scalar, k: int) -> Scalar
    decreases k,
{
    if k <= 0 {
        Scalar { raw: 0 }
    } else {
        grid_width(sizes, cols, limit, gap, k - 1).spec_most(
            grid_left(sizes, cols, limit, gap, k - 1).spec_plus(fitted(sizes[k - 1].w, limit)),
        )
    }
}

/// Height of the block that the first `k` children of a grid take up:
/// the largest distance from the grid's top edge to a bottom edge.
pub open spec fn grid_height(sizes: Seq<Layout>, cols: int, limit: Scalar, gap: Scalar, k: int) -> Scalar
    decreases k,
{
    if k <= 0 {
        Scalar { raw: 0 }
    } else {
        grid_height(sizes, cols, limit, gap, k - 1).spec_most(
            grid_top(sizes, cols, limit, gap, k - 1).spec_plus(fitted(sizes[k - 1].h, limit)),
        )
    }
}

/// Widest a child of a grid with `cols` columns may be.
pub open spec fn grid_limit_w(f: Frame, cols: Col) -> Scalar {
    share(f.parent.w, Scalar::spec_count(cols), f.gap)
}

/// Tallest a child of a grid may be where `n` children fill rows of
/// `cols`.
pub open spec fn grid_limit_h(f: Frame, cols: Col, n: nat) -> Scalar {
    share(f.parent.h, Scalar::spec_count(rows_of(n as int, cols as int) as usize), f.gap)
}

/// Where the `i`-th child of a grid container comes to sit.
///
/// Children fill rows of `cols` from left to right, row after row. Each
/// width and height is fitted to [`share`] of the container's extent
/// among the columns and among the rows. A child starts a gap after the
/// right edge of the child before it in its row and a gap below the
/// child above it. With alignment along an axis, the block of all
/// children sits in the middle of the container along that axis.
pub open spec fn grid_slot(f: Frame, cols: Col, sizes: Seq<Layout>, i: int) -> Layout {
    let limit_w = grid_limit_w(f, cols);
    let limit_h = grid_limit_h(f, cols, sizes.len());
    Layout {
        x: f.parent.x.spec_plus(
            if f.halign {
                centered(f.parent.w, grid_width(sizes, cols as int, limit_w, f.gap, sizes.len() as int))
            } else {
                Scalar { raw: 0 }
            },
        ).spec_plus(grid_left(sizes, cols as int, limit_w, f.gap, i)),
        y: f.parent.y.spec_plus(
            if f.valign {
                centered(
                    f.parent.h,
                    grid_height(sizes, cols as int, limit_h, f.gap, sizes.len() as int),
                )
            } else {
                Scalar { raw: 0 }
            },
        ).spec_plus(grid_top(sizes, cols as int, limit_h, f.gap, i)),
        w: fitted(sizes[i].w, limit_w),
        h: fitted(sizes[i].h, limit_h),
    }
}

fn share_of(extent: Scalar, parts: i64, gap: Scalar) -> (limit: Scalar)
    requires
        parts >= 1,
    ensures
        limit == share(extent, parts, gap),
        limit.raw >= 0,
{
    extent.shared(parts).minus(gap.scaled(parts - 1)).most(Scalar::zero())
}

impl Container {
    /// An empty container that aligns nothing and leaves no gaps.
    pub fn new() -> (c: Container)
        ensures
            c.base.is_blank(),
            c.actions@.len() == 0,
            c.emitter is None,
            c.trigger is None,
            c.children@.len() == 0,
            c.flex == FlexLayout::Plain,
            !c.valign,
            !c.halign,
            c.gap.raw == 0,
            c.scrollbar is None,
    {
        Container {
            base: BaseWidget::default(),
            actions: Vec::new(),
            emitter: None,
            trigger: None,
            children: Vec::new(),
            flex: FlexLayout::Plain,
            valign: false,
            halign: false,
            gap: Scalar::zero(),
            scrollbar: None,
        }
    }

    /// Asks for the children to sit in the middle vertically.
    pub fn set_vertical(self) -> (c: Container)
        ensures
            c == (Container { valign: true, ..self }),
    {
        let mut c = self;
        c.valign = true;
        c
    }

    /// Asks for the children to sit in the middle horizontally.
    pub fn set_horizontal(self) -> (c: Container)
        ensures
            c == (Container { halign: true, ..self }),
    {
        let mut c = self;
        c.halign = true;
        c
    }

    /// Makes the container scrollable: it gets a pair of new scrollbars
    /// and, behind the actions it has, an idle scroll action.
    pub fn on_scroll(self) -> (c: Container)
        ensures
            c == (Container { scrollbar: c.scrollbar, actions: c.actions, ..self }),
            c.scrollbar matches Some(bars) && bars.0.is_fresh() && bars.1.is_fresh()
                && bars.0.base.layout.h.raw == SCROLLBAR_SIZE && bars.0.base.layout.w.raw
                == SCROLLBAR_HIDDEN && bars.1.base.layout.w.raw == SCROLLBAR_SIZE
                && bars.1.base.layout.h.raw == SCROLLBAR_HIDDEN,
            c.actions@ == self.actions@.push(Action::Scroll(Scroll::idle())),
    {
        let mut c = self;
        c.scrollbar = Some((ScrollBar::new_x(), ScrollBar::new_y()));
        c.actions.push(Action::Scroll(Scroll::new()));
        c
    }

    /// Sets the gap between neighbouring children.
    pub fn set_gap(self, gap: Scalar) -> (c: Container)
        ensures
            c == (Container { gap, ..self }),
    {
        let mut c = self;
        c.gap = gap;
        c
    }

    /// Sets the policy by which children are arranged. Positions that
    /// children were given by hand do not survive an arrangement.
    pub fn set_flex_layout(self, layout: FlexLayout) -> (c: Container)
        ensures
            c == (Container { flex: layout, ..self }),
    {
        let mut c = self;
        c.flex = layout;
        c
    }

    /// The region that the children of a container with the rectangle
    /// `parent` and the scrollbars `bars` may be drawn in.
    ///
    /// The region starts at the container's corner. Its `w` and `h` are
    /// not extents but its right and bottom edges: the container's far
    /// edges, moved in by the room that each scrollbar keeps free and, for
    /// a scrollbar whose thumb has a length, by its thickness. An edge
    /// that would come to lie before zero is mirrored at zero.
    pub open spec fn clip_of(parent: Layout, bars: (ScrollBar, ScrollBar)) -> Layout {
        let x = bars.0.base.layout;
        let y = bars.1.base.layout;
        Layout {
            x: parent.x,
            y: parent.y,
            w: parent.x.spec_plus(parent.w).spec_minus(
                (if y.h.raw > 0 {
                    y.w
                } else {
                    Scalar { raw: 0 }
                }).spec_plus(bars.1.buffer),
            ).spec_magnitude(),
            h: parent.y.spec_plus(parent.h).spec_minus(
                (if x.w.raw > 0 {
                    x.h
                } else {
                    Scalar { raw: 0 }
                }).spec_plus(bars.0.buffer),
            ).spec_magnitude(),
        }
    }

    /// The region that the children may be drawn in, as
    /// [`Container::clip_of`] says, for a container with scrollbars; none
    /// for a container without.
    pub fn clipping_region(&self) -> (region: Option<Layout>)
        ensures
            region == match self.scrollbar {
                Some(bars) => Some(Container::clip_of(self.base.layout, bars)),
                None => None,
            },
    {
        match &self.scrollbar {
            Some((x, y)) => {
                let x_buffer = if x.base.layout.w.raw > 0 {
                    x.base.layout.h
                } else {
                    Scalar::zero()
                }.plus(x.buffer);
                let buffered_h = self.base.layout.y.plus(self.base.layout.h).minus(x_buffer).magnitude();
                let y_buffer = if y.base.layout.h.raw > 0 {
                    y.base.layout.w
                } else {
                    Scalar::zero()
                }.plus(y.buffer);
                let buffered_w = self.base.layout.x.plus(self.base.layout.w).minus(y_buffer).magnitude();
                Some(
                    Layout { x: self.base.layout.x, y: self.base.layout.y, w: buffered_w, h: buffered_h },
                )
            },
            None => None,
        }
    }

    /// What the arrangement of the children depends on.
    pub open spec fn frame(&self) -> Frame {
        Frame { parent: self.base.layout, gap: self.gap, halign: self.halign, valign: self.valign }
    }

    /// Whether `after` is this container with its children laid out as
    /// `slot` says, and nothing else changed.
    pub open spec fn rearranged(&self, after: &Container, slot: spec_fn(int) -> Layout) -> bool {
        &&& *after == (Container { children: after.children, ..*self })
        &&& after.children@.len() == self.children@.len()
        &&& forall|i: int|
            0 <= i < self.children@.len() ==> #[trigger] after.children@[i]
                == self.children@[i].with_layout(slot(i))
    }

    /// Puts `child` at the container's top-left corner.
    pub fn snap_to_parent(&self, child: &mut WidgetNode)
        ensures
            *final(child) == old(child).with_layout(
                Layout { x: self.base.layout.x, y: self.base.layout.y, ..old(child).spec_base().layout },
            ),
    {
        let base = child.base_mut();
        base.layout.x = self.base.layout.x;
        base.layout.y = self.base.layout.y;
    }

    /// Arranges the children of a plain container: every child at the
    /// container's origin, in the middle along each aligned axis.
    pub fn create_normal_layout(&mut self)
        ensures
            old(self).rearranged(
                final(self),
                |i: int| plain_slot(old(self).frame(), old(self).children@[i].spec_base().layout),
            ),
    {
        let n = self.children.len();
        let mut i: usize = 0;
        while i < n
            invariant
                i <= n,
                n == self.children@.len(),
                n == old(self).children@.len(),
                *self == (Container { children: self.children, ..*old(self) }),
                forall|j: int|
                    0 <= j < i ==> #[trigger] self.children@[j] == old(self).children@[j].with_layout(
                        plain_slot(old(self).frame(), old(self).children@[j].spec_base().layout),
                    ),
                forall|j: int| i <= j < n ==> #[trigger] self.children@[j] == old(self).children@[j],
            decreases n - i,
        {
            let cur = self.children[i].base().layout;
            let w = cur.w.most(Scalar::zero());
            let h = cur.h.most(Scalar::zero());
            let dx = if self.halign {
                self.base.layout.horizontal_center(w)
            } else {
                Scalar::zero()
            };
            let dy = if self.valign {
                self.base.layout.vertical_center(h)
            } else {
                Scalar::zero()
            };
            let x = self.base.layout.x.plus(dx);
            let y = self.base.layout.y.plus(dy);
            let base = self.children[i].base_mut();
            base.layout = Layout { x, y, w, h };
            i = i + 1;
        }
    }

    /// Arranges the children of a column container as [`col_slot`] says.
    #[verifier::rlimit(50)]
    pub fn create_flex_col_layout(&mut self)
        ensures
            old(self).rearranged(
                final(self),
                |i: int| col_slot(old(self).frame(), layouts_of(old(self).children@), i),
            ),
    {
        let n = self.children.len();
        if n == 0 {
            return ;
        }
        let ghost sizes = layouts_of(old(self).children@);
        let gap = self.gap;
        let limit = share_of(self.base.layout.h, Scalar::count(n), gap);
        let mut top = Scalar::zero();
        let mut i: usize = 0;
        while i < n
            invariant
                i <= n,
                n >= 1,
                n == self.children@.len(),
                n == old(self).children@.len(),
                sizes == layouts_of(old(self).children@),
                gap == old(self).gap,
                limit == share(old(self).base.layout.h, Scalar::spec_count(n), gap),
                *self == (Container { children: self.children, ..*old(self) }),
                top == col_top(sizes, limit, gap, i as int),
                forall|j: int|
                    0 <= j < i ==> #[trigger] self.children@[j] == old(self).children@[j].with_layout(
                        Layout {
                            x: sizes[j].x,
                            y: col_top(sizes, limit, gap, j),
                            w: sizes[j].w.spec_most(Scalar { raw: 0 }),
                            h: fitted(sizes[j].h, limit),
                        },
                    ),
                forall|j: int| i <= j < n ==> #[trigger] self.children@[j] == old(self).children@[j],
            decreases n - i,
        {
            let cur = self.children[i].base().layout;
            let h = cur.h.within(Scalar::zero(), limit);
            let base = self.children[i].base_mut();
            base.layout = Layout { x: cur.x, y: top, w: cur.w.most(Scalar::zero()), h };
            top = top.plus(h).plus(gap);
            i = i + 1;
        }
        let last = self.children[n - 1].base().layout;
        let height = last.y.plus(last.h);
        assert(height == col_height(sizes, limit, gap));
        let dy = if self.valign {
            self.base.layout.vertical_center(height)
        } else {
            Scalar::zero()
        };
        let y0 = self.base.layout.y.plus(dy);
        let mut k: usize = 0;
        while k < n
            invariant
                k <= n,
                n == self.children@.len(),
                n == old(self).children@.len(),
                sizes == layouts_of(old(self).children@),
                gap == old(self).gap,
                limit == share(old(self).base.layout.h, Scalar::spec_count(n), gap),
                *self == (Container { children: self.children, ..*old(self) }),
                y0 == old(self).base.layout.y.spec_plus(
                    if old(self).valign {
                        centered(old(self).base.layout.h, col_height(sizes, limit, gap))
                    } else {
                        Scalar { raw: 0 }
                    },
                ),
                forall|j: int|
                    0 <= j < k ==> #[trigger] self.children@[j] == old(self).children@[j].with_layout(
                        col_slot(old(self).frame(), sizes, j),
                    ),
                forall|j: int|
                    k <= j < n ==> #[trigger] self.children@[j] == old(self).children@[j].with_layout(
                        Layout {
                            x: sizes[j].x,
                            y: col_top(sizes, limit, gap, j),
                            w: sizes[j].w.spec_most(Scalar { raw: 0 }),
                            h: fitted(sizes[j].h, limit),
                        },
                    ),
            decreases n - k,
        {
            let cur = self.children[k].base().layout;
            let dx = if self.halign {
                self.base.layout.horizontal_center(cur.w)
            } else {
                Scalar::zero()
            };
            let x = self.base.layout.x.plus(dx);
            let y = y0.plus(cur.y);
            let base = self.children[k].base_mut();
            base.layout = Layout { x, y, w: cur.w, h: cur.h };
            k = k + 1;
        }
    }

    /// Arranges the children of a grid container with `cols` columns as
    /// [`grid_slot`] says.
    #[verifier::rlimit(40)]
    pub fn create_flex_grid_layout(&mut self, cols: Col)
        requires
            cols > 0,
        ensures
            old(self).rearranged(
                final(self),
                |i: int| grid_slot(old(self).frame(), cols, layouts_of(old(self).children@), i),
            ),
    {
        let n = self.children.len();
        if n == 0 {
            return ;
        }
        let ghost sizes = layouts_of(old(self).children@);
        let ghost f = old(self).frame();
        let gap = self.gap;
        assert(n % cols == 0 ==> n / cols >= 1) by (nonlinear_arith)
            requires
                n >= 1,
                cols >= 1,
        ;
        assert(n % cols != 0 ==> n / cols + 1 <= n) by (nonlinear_arith)
            requires
                n >= 1,
                cols >= 1,
        ;
        let rows: usize = if n % cols == 0 {
            n / cols
        } else {
            n / cols + 1
        };
        let limit_w = share_of(self.base.layout.w, Scalar::count(cols), gap);
        let limit_h = share_of(self.base.layout.h, Scalar::count(rows), gap);
        let mut width = Scalar::zero();
        let mut height = Scalar::zero();
        let mut i: usize = 0;
        while i < n
            invariant
                i <= n,
                cols > 0,
                n == self.children@.len(),
                n == old(self).children@.len(),
                sizes == layouts_of(old(self).children@),
                gap == old(self).gap,
                *self == (Container { children: self.children, ..*old(self) }),
                width == grid_width(sizes, cols as int, limit_w, gap, i as int),
                height == grid_height(sizes, cols as int, limit_h, gap, i as int),
                forall|j: int|
                    0 <= j < i ==> #[trigger] self.children@[j] == old(self).children@[j].with_layout(
                        Layout {
                            x: grid_left(sizes, cols as int, limit_w, gap, j),
                            y: grid_top(sizes, cols as int, limit_h, gap, j),
                            w: fitted(sizes[j].w, limit_w),
                            h: fitted(sizes[j].h, limit_h),
                        },
                    ),
                forall|j: int| i <= j < n ==> #[trigger] self.children@[j] == old(self).children@[j],
            decreases n - i,
        {
            let cur = self.children[i].base().layout;
            let w = cur.w.within(Scalar::zero(), limit_w);
            let h = cur.h.within(Scalar::zero(), limit_h);
            let left = if i == 0 || i % cols == 0 {
                Scalar::zero()
            } else {
                let before = self.children[i - 1].base().layout;
                before.x.plus(before.w).plus(gap)
            };
            let top = if i < cols {
                Scalar::zero()
            } else {
                let above = self.children[i - cols].base().layout;
                above.y.plus(above.h).plus(gap)
            };
            proof {
                assert(cur == sizes[i as int]);
                assert(w == fitted(sizes[i as int].w, limit_w));
                assert(h == fitted(sizes[i as int].h, limit_h));
                assert(left == grid_left(sizes, cols as int, limit_w, gap, i as int));
                assert(top == grid_top(sizes, cols as int, limit_h, gap, i as int));
            }
            let base = self.children[i].base_mut();
            base.layout = Layout { x: left, y: top, w, h };
            width = width.most(left.plus(w));
            height = height.most(top.plus(h));
            i = i + 1;
        }
        let dx = if self.halign {
            self.base.layout.horizontal_center(width)
        } else {
            Scalar::zero()
        };
        let dy = if self.valign {
            self.base.layout.vertical_center(height)
        } else {
            Scalar::zero()
        };
        let x0 = self.base.layout.x.plus(dx);
        let y0 = self.base.layout.y.plus(dy);
        let mut k: usize = 0;
        while k < n
            invariant
                k <= n,
                cols > 0,
                n == self.children@.len(),
                n == old(self).children@.len(),
                n == sizes.len(),
                sizes == layouts_of(old(self).children@),
                f == old(self).frame(),
                gap == f.gap,
                limit_w == grid_limit_w(f, cols),
                limit_h == grid_limit_h(f, cols, n as nat),
                *self == (Container { children: self.children, ..*old(self) }),
                x0 == f.parent.x.spec_plus(
                    if f.halign {
                        centered(f.parent.w, grid_width(sizes, cols as int, limit_w, gap, n as int))
                    } else {
                        Scalar { raw: 0 }
                    },
                ),
                y0 == f.parent.y.spec_plus(
                    if f.valign {
                        centered(f.parent.h, grid_height(sizes, cols as int, limit_h, gap, n as int))
                    } else {
                        Scalar { raw: 0 }
                    },
                ),
                forall|j: int|
                    0 <= j < k ==> #[trigger] self.children@[j] == old(self).children@[j].with_layout(
                        grid_slot(f, cols, sizes, j),
                    ),
                forall|j: int|
                    k <= j < n ==> #[trigger] self.children@[j] == old(self).children@[j].with_layout(
                        Layout {
                            x: grid_left(sizes, cols as int, limit_w, gap, j),
                            y: grid_top(sizes, cols as int, limit_h, gap, j),
                            w: fitted(sizes[j].w, limit_w),
                            h: fitted(sizes[j].h, limit_h),
                        },
                    ),
            decreases n - k,
        {
            let cur = self.children[k].base().layout;
            let base = self.children[k].base_mut();
            base.layout = Layout { x: x0.plus(cur.x), y: y0.plus(cur.y), w: cur.w, h: cur.h };
            k = k + 1;
        }
    }

    /// Appends `widget` to the children.
    pub fn add_widget(&mut self, widget: WidgetNode)
        ensures
            *final(self) == (Container { children: final(self).children, ..*old(self) }),
            final(self).children@ == old(self).children@.push(widget),
    {
        self.children.push(widget);
    }
}

impl Widget for Container {
    open spec fn node(self) -> WidgetNode {
        WidgetNode::Container(self)
    }

    fn into_node(self) -> (node: WidgetNode) {
        WidgetNode::Container(self)
    }

    fn base(&self) -> (base: &BaseWidget) {
        &self.base
    }

    fn base_mut(&mut self) -> (base: &mut BaseWidget) {
        &mut self.base
    }

    fn action_mut(&mut self) -> (actions: &mut Vec<Action>) {
        &mut self.actions
    }

    fn emitter(&self) -> (emitter: Option<EmitterId>) {
        self.emitter
    }

    fn connect(self, emitter: EmitterId) -> (widget: Self) {
        let mut widget = self;
        widget.emitter = Some(emitter);
        widget
    }

    fn internal_trigger(&self) -> (trigger: Option<Trigger>) {
        self.trigger
    }
}

} // verus!
