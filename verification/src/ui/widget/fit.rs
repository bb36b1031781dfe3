//! Children of columns and grids stay inside their container.
//!
//! The share that a column or a grid allows each child is chosen so
//! that all children and the gaps between them fit into the container.
//! This holds wherever the numbers involved are modest enough not to
//! reach the ends of the fixed-point range, and the gaps are not so
//! wide that nothing is left to share.
use vstd::prelude::*;
use crate::scalar::{quotient, Scalar};
use crate::ui::layout::{centered, Col, Layout};
use crate::ui::widget::container::{
    col_height,
    col_slot,
    col_top,
    fitted,
    grid_height,
    grid_left,
    grid_limit_h,
    grid_limit_w,
    grid_slot,
    grid_top,
    grid_width,
    rows_of,
    share,
    Frame,
};

verus! {

/// The largest coordinate, extent or gap, in raw steps, for which the
/// laws of this module are stated: two to the power of forty.
pub const MODEST: i64 = 0x100_0000_0000;

/// The largest number of children for which the laws of this module
/// are stated: two to the power of twenty.
pub const CROWD: usize = 0x10_0000;

/// Whether a container is modest: its corner, its extent and its gap are
/// within [`MODEST`], and extent and gap are not below zero.
pub open spec fn modest(f: Frame) -> bool {
    &&& -MODEST <= f.parent.x.raw <= MODEST
    &&& -MODEST <= f.parent.y.raw <= MODEST
    &&& 0 <= f.parent.w.raw <= MODEST
    &&& 0 <= f.parent.h.raw <= MODEST
    &&& 0 <= f.gap.raw <= MODEST
}

/// Whether `extent` leaves something to share among `parts` children
/// once the gaps between them are taken away.
pub open spec fn shareable(extent: Scalar, parts: int, gap: Scalar) -> bool {
    parts >= 1 && (extent.raw as int) / parts >= (parts - 1) * gap.raw
}

/// The share where something is left to share: an equal part less the
/// gaps, and with it all parts and gaps fit into the extent.
pub proof fn lemma_share(extent: Scalar, parts: int, gap: Scalar)
    requires
        0 <= extent.raw <= MODEST,
        0 <= gap.raw <= MODEST,
        1 <= parts <= CROWD,
        shareable(extent, parts, gap),
    ensures
        share(extent, parts as i64, gap).raw == (extent.raw as int) / parts - (parts - 1) * gap.raw,
        0 <= share(extent, parts as i64, gap).raw <= MODEST,
        parts * share(extent, parts as i64, gap).raw + (parts - 1) * gap.raw <= extent.raw,
{
    let e = extent.raw as int;
    let g = gap.raw as int;
    let q = e / parts;
    assert(quotient(e, parts) == q);
    assert(0 <= q <= e && parts * q <= e) by (nonlinear_arith)
        requires
            e >= 0,
            parts >= 1,
            q == e / parts,
    ;
    assert(0 <= (parts - 1) * g <= 0x10_0000 * 0x100_0000_0000) by (nonlinear_arith)
        requires
            0 <= g <= 0x100_0000_0000,
            1 <= parts <= 0x10_0000,
    ;
    let l = q - (parts - 1) * g;
    let p = parts as i64;
    let fewer = (p - 1) as i64;
    assert(g * fewer == (parts - 1) * g) by (nonlinear_arith)
        requires
            fewer == parts - 1,
    ;
    assert(extent.spec_shared(p).raw == q);
    assert(gap.spec_scaled(fewer).raw == (parts - 1) * g);
    assert(extent.spec_shared(p).spec_minus(gap.spec_scaled(fewer)).raw == l);
    assert(share(extent, p, gap).raw == l);
    assert(parts * l + (parts - 1) * g <= e) by (nonlinear_arith)
        requires
            l == q - (parts - 1) * g,
            parts * q <= e,
            parts >= 1,
            g >= 0,
            l >= 0,
    ;
}

/// In a column, the top of the `i`-th child lies no further down than
/// `i` shares and gaps, and tops do not come nearer going down the
/// column.
pub proof fn lemma_col_top(sizes: Seq<Layout>, limit: Scalar, gap: Scalar, i: int)
    requires
        0 <= limit.raw <= MODEST,
        0 <= gap.raw <= MODEST,
        0 <= i <= sizes.len() <= CROWD,
    ensures
        0 <= col_top(sizes, limit, gap, i).raw <= i * (limit.raw + gap.raw),
        i >= 1 ==> col_top(sizes, limit, gap, i).raw == col_top(sizes, limit, gap, i - 1).raw + fitted(
            sizes[i - 1].h,
            limit,
        ).raw + gap.raw,
    decreases i,
{
    if i > 0 {
        lemma_col_top(sizes, limit, gap, i - 1);
        let c = limit.raw + gap.raw;
        assert((i - 1) * c + c == i * c) by (nonlinear_arith);
        assert(0 <= i * c <= 0x10_0000 * 0x200_0000_0000) by (nonlinear_arith)
            requires
                0 <= i <= 0x10_0000,
                0 <= c <= 0x200_0000_0000,
        ;
    } else {
        assert(0 * (limit.raw + gap.raw) == 0) by (nonlinear_arith);
    }
}

/// In a column, a child ends no further down than any child after it
/// begins.
pub proof fn lemma_col_order(sizes: Seq<Layout>, limit: Scalar, gap: Scalar, i: int, j: int)
    requires
        0 <= limit.raw <= MODEST,
        0 <= gap.raw <= MODEST,
        0 <= i < j <= sizes.len() <= CROWD,
    ensures
        col_top(sizes, limit, gap, i).raw + fitted(sizes[i].h, limit).raw <= col_top(
            sizes,
            limit,
            gap,
            j,
        ).raw,
    decreases j - i,
{
    lemma_col_top(sizes, limit, gap, j);
    if i + 1 < j {
        lemma_col_order(sizes, limit, gap, i, j - 1);
    }
}

/// The children of a column stay between the top and the bottom of
/// their container, aligned or not.
pub proof fn lemma_col_contained(f: Frame, sizes: Seq<Layout>, i: int)
    requires
        modest(f),
        0 <= i < sizes.len() <= CROWD,
        shareable(f.parent.h, sizes.len() as int, f.gap),
    ensures
        f.parent.y.raw <= col_slot(f, sizes, i).y.raw,
        col_slot(f, sizes, i).y.raw + col_slot(f, sizes, i).h.raw <= f.parent.y.raw + f.parent.h.raw,
        col_slot(f, sizes, i).h.raw >= 0,
{
    let n = sizes.len() as int;
    let limit = share(f.parent.h, Scalar::spec_count(sizes.len() as usize), f.gap);
    assert(Scalar::spec_count(sizes.len() as usize) == n);
    lemma_share(f.parent.h, n, f.gap);
    lemma_col_top(sizes, limit, f.gap, i);
    lemma_col_top(sizes, limit, f.gap, n - 1);
    if i < n - 1 {
        lemma_col_order(sizes, limit, f.gap, i, n - 1);
    }
    let c = limit.raw + f.gap.raw;
    let height = col_height(sizes, limit, f.gap);
    assert((n - 1) * c + limit.raw == n * limit.raw + (n - 1) * f.gap.raw) by (nonlinear_arith)
        requires
            c == limit.raw + f.gap.raw,
    ;
    assert(0 <= (n - 1) * c) by (nonlinear_arith)
        requires
            n >= 1,
            c >= 0,
    ;
    assert(height.raw == col_top(sizes, limit, f.gap, n - 1).raw + fitted(sizes[n - 1].h, limit).raw);
    assert(0 <= height.raw <= f.parent.h.raw);
    let room = f.parent.h.raw - height.raw;
    assert(quotient(room as int, 2) == room / 2);
    assert(0 <= centered(f.parent.h, height).raw <= room);
}

/// In a grid, the left edge of the `i`-th child lies no further right
/// than one share and gap for each child before it in its row.
pub proof fn lemma_grid_left(sizes: Seq<Layout>, cols: int, limit: Scalar, gap: Scalar, i: int)
    requires
        0 <= limit.raw <= MODEST,
        0 <= gap.raw <= MODEST,
        1 <= cols <= CROWD,
        0 <= i <= sizes.len(),
    ensures
        0 <= grid_left(sizes, cols, limit, gap, i).raw <= (i % cols) * (limit.raw + gap.raw),
        (i % cols) * (limit.raw + gap.raw) <= (cols - 1) * (limit.raw + gap.raw),
    decreases i,
{
    let c = limit.raw + gap.raw;
    let k = i % cols;
    assert(0 <= k <= cols - 1);
    assert(0 <= k * c <= (cols - 1) * c && (cols - 1) * c <= 0x10_0000 * 0x200_0000_0000)
        by (nonlinear_arith)
        requires
            0 <= k <= cols - 1,
            cols <= 0x10_0000,
            0 <= c <= 0x200_0000_0000,
    ;
    if i > 0 && k != 0 {
        lemma_grid_left(sizes, cols, limit, gap, i - 1);
        assert((i - 1) % cols == k - 1) by (nonlinear_arith)
            requires
                i >= 1,
                cols >= 1,
                k == i % cols,
                k != 0,
        ;
        assert((k - 1) * c + c == k * c) by (nonlinear_arith);
    } else {
        assert(grid_left(sizes, cols, limit, gap, i).raw == 0);
    }
}

/// In a grid, the top edge of the `i`-th child lies no further down
/// than one share and gap for each row above it.
pub proof fn lemma_grid_top(sizes: Seq<Layout>, cols: int, limit: Scalar, gap: Scalar, i: int)
    requires
        0 <= limit.raw <= MODEST,
        0 <= gap.raw <= MODEST,
        1 <= cols,
        0 <= i < sizes.len() <= CROWD,
    ensures
        0 <= grid_top(sizes, cols, limit, gap, i).raw <= (i / cols) * (limit.raw + gap.raw),
        0 <= i / cols <= i,
    decreases i,
{
    let c = limit.raw + gap.raw;
    let r = i / cols;
    assert(0 <= r <= i) by (nonlinear_arith)
        requires
            i >= 0,
            cols >= 1,
            r == i / cols,
    ;
    assert(0 <= r * c <= 0x10_0000 * 0x200_0000_0000) by (nonlinear_arith)
        requires
            0 <= r <= 0x10_0000,
            0 <= c <= 0x200_0000_0000,
    ;
    if i >= cols {
        lemma_grid_top(sizes, cols, limit, gap, i - cols);
        assert((i - cols) / cols == r - 1) by (nonlinear_arith)
            requires
                i >= cols,
                cols >= 1,
                r == i / cols,
        ;
        assert((r - 1) * c + c == r * c) by (nonlinear_arith);
    } else {
        assert(r == 0) by (nonlinear_arith)
            requires
                0 <= i < cols,
                r == i / cols,
        ;
        assert(0 * c == 0) by (nonlinear_arith);
    }
}

/// Every row of a grid but the last is full: a child in row `r` leaves
/// the grid at least `r + 1` rows high.
pub proof fn lemma_rows(n: int, cols: int, i: int)
    requires
        1 <= cols,
        0 <= i < n,
    ensures
        i / cols <= rows_of(n, cols) - 1,
        1 <= rows_of(n, cols) <= n,
{
    assert(i / cols <= (n - 1) / cols) by (nonlinear_arith)
        requires
            0 <= i <= n - 1,
            cols >= 1,
    ;
    assert((n - 1) / cols <= rows_of(n, cols) - 1 && 1 <= rows_of(n, cols) <= n) by (nonlinear_arith)
        requires
            n >= 1,
            cols >= 1,
            rows_of(n, cols) == (if n % cols == 0 {
                n / cols
            } else {
                n / cols + 1
            }),
    ;
}

/// The block that the first `k` children of a grid take up is no wider
/// than `bound` where no child ends further right than that, and no
/// child among them ends further right than the block.
pub proof fn lemma_grid_width(
    sizes: Seq<Layout>,
    cols: int,
    limit: Scalar,
    gap: Scalar,
    k: int,
    bound: int,
)
    requires
        0 <= limit.raw <= MODEST,
        0 <= gap.raw <= MODEST,
        1 <= cols <= CROWD,
        0 <= k <= sizes.len(),
        (cols - 1) * (limit.raw + gap.raw) + limit.raw <= bound <= MODEST,
        0 <= bound,
    ensures
        0 <= grid_width(sizes, cols, limit, gap, k).raw <= bound,
        forall|i: int|
            0 <= i < k ==> (#[trigger] grid_left(sizes, cols, limit, gap, i)).raw + fitted(
                sizes[i].w,
                limit,
            ).raw <= grid_width(sizes, cols, limit, gap, k).raw,
    decreases k,
{
    if k > 0 {
        lemma_grid_width(sizes, cols, limit, gap, k - 1, bound);
        lemma_grid_left(sizes, cols, limit, gap, k - 1);
    }
}

/// The block that the first `k` children of a grid take up is no higher
/// than `bound` where no child ends further down than that, and no
/// child among them ends further down than the block.
pub proof fn lemma_grid_height(
    sizes: Seq<Layout>,
    cols: int,
    limit: Scalar,
    gap: Scalar,
    k: int,
    rows: int,
    bound: int,
)
    requires
        0 <= limit.raw <= MODEST,
        0 <= gap.raw <= MODEST,
        1 <= cols,
        0 <= k <= sizes.len() <= CROWD,
        rows == rows_of(sizes.len() as int, cols),
        (rows - 1) * (limit.raw + gap.raw) + limit.raw <= bound <= MODEST,
        0 <= bound,
    ensures
        0 <= grid_height(sizes, cols, limit, gap, k).raw <= bound,
        forall|i: int|
            0 <= i < k ==> (#[trigger] grid_top(sizes, cols, limit, gap, i)).raw + fitted(
                sizes[i].h,
                limit,
            ).raw <= grid_height(sizes, cols, limit, gap, k).raw,
    decreases k,
{
    if k > 0 {
        lemma_grid_height(sizes, cols, limit, gap, k - 1, rows, bound);
        lemma_grid_top(sizes, cols, limit, gap, k - 1);
        lemma_rows(sizes.len() as int, cols, k - 1);
        let c = limit.raw + gap.raw;
        let r = (k - 1) / cols;
        assert(r * c <= (rows - 1) * c) by (nonlinear_arith)
            requires
                0 <= r <= rows - 1,
                c >= 0,
        ;
        let top = grid_top(sizes, cols, limit, gap, k - 1).raw;
        let high = fitted(sizes[k - 1].h, limit).raw;
        assert(0 <= top <= r * c);
        assert(0 <= high <= limit.raw);
        assert(top + high <= bound);
    }
}

/// The children of a grid stay inside their container, aligned or not.
pub proof fn lemma_grid_contained(f: Frame, cols: Col, sizes: Seq<Layout>, i: int)
    requires
        modest(f),
        1 <= cols <= CROWD,
        0 <= i < sizes.len() <= CROWD,
        shareable(f.parent.w, cols as int, f.gap),
        shareable(f.parent.h, rows_of(sizes.len() as int, cols as int), f.gap),
    ensures
        ({
            let slot = grid_slot(f, cols, sizes, i);
            &&& f.parent.x.raw <= slot.x.raw
            &&& f.parent.y.raw <= slot.y.raw
            &&& slot.w.raw >= 0
            &&& slot.h.raw >= 0
            &&& slot.x.raw + slot.w.raw <= f.parent.x.raw + f.parent.w.raw
            &&& slot.y.raw + slot.h.raw <= f.parent.y.raw + f.parent.h.raw
        }),
{
    let n = sizes.len() as int;
    let rows = rows_of(n, cols as int);
    lemma_rows(n, cols as int, i);
    let limit_w = grid_limit_w(f, cols);
    let limit_h = grid_limit_h(f, cols, sizes.len());
    assert(Scalar::spec_count(cols) == cols);
    assert(Scalar::spec_count(rows as usize) == rows);
    lemma_share(f.parent.w, cols as int, f.gap);
    lemma_share(f.parent.h, rows, f.gap);
    let cw = limit_w.raw + f.gap.raw;
    let ch = limit_h.raw + f.gap.raw;
    assert((cols - 1) * cw + limit_w.raw == cols * limit_w.raw + (cols - 1) * f.gap.raw)
        by (nonlinear_arith)
        requires
            cw == limit_w.raw + f.gap.raw,
    ;
    assert((rows - 1) * ch + limit_h.raw == rows * limit_h.raw + (rows - 1) * f.gap.raw)
        by (nonlinear_arith)
        requires
            ch == limit_h.raw + f.gap.raw,
    ;
    lemma_grid_width(sizes, cols as int, limit_w, f.gap, n, f.parent.w.raw as int);
    lemma_grid_height(sizes, cols as int, limit_h, f.gap, n, rows, f.parent.h.raw as int);
    lemma_grid_left(sizes, cols as int, limit_w, f.gap, i);
    lemma_grid_top(sizes, cols as int, limit_h, f.gap, i);
    let width = grid_width(sizes, cols as int, limit_w, f.gap, n);
    let height = grid_height(sizes, cols as int, limit_h, f.gap, n);
    assert(grid_left(sizes, cols as int, limit_w, f.gap, i).raw + fitted(sizes[i].w, limit_w).raw
        <= width.raw);
    assert(grid_top(sizes, cols as int, limit_h, f.gap, i).raw + fitted(sizes[i].h, limit_h).raw
        <= height.raw);
    let room_w = f.parent.w.raw - width.raw;
    let room_h = f.parent.h.raw - height.raw;
    assert(quotient(room_w as int, 2) == room_w / 2);
    assert(quotient(room_h as int, 2) == room_h / 2);
    assert(0 <= centered(f.parent.w, width).raw <= room_w);
    assert(0 <= centered(f.parent.h, height).raw <= room_h);
}

} // verus!
