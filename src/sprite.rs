//! The proof that drawing a sprite pixel by pixel yields the planes and the
//! collision flag that `machine::draw` states at once.
use vstd::arithmetic::div_mod::lemma_fundamental_div_mod_converse;
use vstd::prelude::*;

use crate::display::{grid_has_size, plane_selected};
use crate::machine::{
    axis_offset, collides, drawn_planes, flips, plane_data_offset, sprite_pixel, sprite_rows,
    sprite_width, Machine,
};

verus! {

/// Whether sprite cell (`dy`, `dx`) of plane `q` comes before the cell
/// (`row`, `col`) of plane `p`, planes first, then rows, then columns.
pub open spec fn before_cursor(q: int, dy: int, dx: int, p: int, row: int, col: int) -> bool {
    q < p || (q == p && (dy < row || (dy == row && dx < col)))
}

/// Whether pixel (`tx`, `ty`) of plane `q` is flipped by a sprite cell before the cursor.
pub open spec fn flipped_before(
    m: Machine,
    sx: int,
    sy: int,
    n: u8,
    q: int,
    tx: int,
    ty: int,
    p: int,
    row: int,
    col: int,
) -> bool {
    &&& flips(m, sx, sy, n, q, tx, ty)
    &&& before_cursor(
        q,
        axis_offset(sy, ty, m.res.spec_height() as int, m.quirks.wrap_sprites),
        axis_offset(sx, tx, m.res.spec_width() as int, m.quirks.wrap_sprites),
        p,
        row,
        col,
    )
}

/// The planes once the cells before the cursor are drawn.
pub open spec fn partial_planes(
    m: Machine,
    sx: int,
    sy: int,
    n: u8,
    p: int,
    row: int,
    col: int,
) -> Seq<Seq<Seq<bool>>> {
    Seq::new(
        2,
        |q: int|
            Seq::new(
                m.res.spec_height(),
                |ty: int|
                    Seq::new(
                        m.res.spec_width(),
                        |tx: int|
                            m.planes[q][ty][tx] != flipped_before(m, sx, sy, n, q, tx, ty, p, row, col),
                    ),
            ),
    )
}

/// Whether a cell before the cursor flipped a pixel that was set.
pub open spec fn partial_collision(
    m: Machine,
    sx: int,
    sy: int,
    n: u8,
    p: int,
    row: int,
    col: int,
) -> bool {
    exists|q: int, ty: int, tx: int|
        0 <= q < 2 && 0 <= ty < m.res.spec_height() && 0 <= tx < m.res.spec_width()
            && #[trigger] flipped_before(m, sx, sy, n, q, tx, ty, p, row, col) && m.planes[q][ty][tx]
}

/// The pixel that sprite column (or row) `c` lands on, before clipping.
pub open spec fn landing(start: int, c: int, size: int, wrap: bool) -> int {
    if wrap {
        (start + c) % size
    } else {
        start + c
    }
}

/// What the drawing needs of the machine and of the start point.
pub open spec fn drawable(m: Machine, sx: int, sy: int) -> bool {
    &&& m.planes.len() == 2
    &&& grid_has_size(m.planes[0], m.res.spec_width(), m.res.spec_height())
    &&& grid_has_size(m.planes[1], m.res.spec_width(), m.res.spec_height())
    &&& 0 <= sx < m.res.spec_width()
    &&& 0 <= sy < m.res.spec_height()
    &&& m.res.spec_width() >= 64
    &&& m.res.spec_height() >= 32
}

/// A pixel is reached from `start` by offset `c` exactly when it is where `c` lands.
pub proof fn lemma_axis(start: int, c: int, size: int, wrap: bool, t: int)
    requires
        0 <= start < size,
        0 <= c < size,
        0 <= t < size,
    ensures
        (axis_offset(start, t, size, wrap) == c) <==> (t == landing(start, c, size, wrap)),
{
    if wrap {
        if start + c < size {
            lemma_fundamental_div_mod_converse(start + c, size, 0, start + c);
        } else {
            lemma_fundamental_div_mod_converse(start + c, size, 1, start + c - size);
        }
        if t >= start {
            lemma_fundamental_div_mod_converse(t - start, size, 0, t - start);
        } else {
            lemma_fundamental_div_mod_converse(t - start, size, -1, t - start + size);
        }
    }
}

/// Before the first cell nothing is drawn.
pub proof fn lemma_draw_start(m: Machine, sx: int, sy: int, n: u8)
    requires
        drawable(m, sx, sy),
    ensures
        partial_planes(m, sx, sy, n, 0, 0, 0) == m.planes,
        !partial_collision(m, sx, sy, n, 0, 0, 0),
{
    assert(partial_planes(m, sx, sy, n, 0, 0, 0) =~~= m.planes);
}

/// After the last plane everything is drawn.
pub proof fn lemma_draw_end(m: Machine, sx: int, sy: int, n: u8)
    requires
        drawable(m, sx, sy),
    ensures
        partial_planes(m, sx, sy, n, 2, 0, 0) == drawn_planes(m, sx, sy, n),
        partial_collision(m, sx, sy, n, 2, 0, 0) == collides(m, sx, sy, n),
{
    assert(partial_planes(m, sx, sy, n, 2, 0, 0) =~~= drawn_planes(m, sx, sy, n));
    if partial_collision(m, sx, sy, n, 2, 0, 0) {
        let (q, ty, tx) = choose|q: int, ty: int, tx: int|
            0 <= q < 2 && 0 <= ty < m.res.spec_height() && 0 <= tx < m.res.spec_width()
                && #[trigger] flipped_before(m, sx, sy, n, q, tx, ty, 2, 0, 0) && m.planes[q][ty][tx];
        assert(flips(m, sx, sy, n, q, tx, ty));
    }
    if collides(m, sx, sy, n) {
        let (q, ty, tx) = choose|q: int, ty: int, tx: int|
            0 <= q < 2 && 0 <= ty < m.res.spec_height() && 0 <= tx < m.res.spec_width()
                && #[trigger] flips(m, sx, sy, n, q, tx, ty) && m.planes[q][ty][tx];
        assert(flipped_before(m, sx, sy, n, q, tx, ty, 2, 0, 0));
    }
}

/// Two cursors that agree on every flipped pixel give the same partial drawing.
pub proof fn lemma_same_progress(
    m: Machine,
    sx: int,
    sy: int,
    n: u8,
    p: int,
    row: int,
    col: int,
    p2: int,
    row2: int,
    col2: int,
)
    requires
        drawable(m, sx, sy),
        forall|q: int, ty: int, tx: int|
            0 <= q < 2 && 0 <= ty < m.res.spec_height() && 0 <= tx < m.res.spec_width() ==> (
            flipped_before(m, sx, sy, n, q, tx, ty, p, row, col) <==> #[trigger] flipped_before(
                m,
                sx,
                sy,
                n,
                q,
                tx,
                ty,
                p2,
                row2,
                col2,
            )),
    ensures
        partial_planes(m, sx, sy, n, p, row, col) == partial_planes(m, sx, sy, n, p2, row2, col2),
        partial_collision(m, sx, sy, n, p, row, col) == partial_collision(
            m,
            sx,
            sy,
            n,
            p2,
            row2,
            col2,
        ),
{
    assert(partial_planes(m, sx, sy, n, p, row, col) =~~= partial_planes(
        m,
        sx,
        sy,
        n,
        p2,
        row2,
        col2,
    ));
    if partial_collision(m, sx, sy, n, p, row, col) {
        let (q, ty, tx) = choose|q: int, ty: int, tx: int|
            0 <= q < 2 && 0 <= ty < m.res.spec_height() && 0 <= tx < m.res.spec_width()
                && #[trigger] flipped_before(m, sx, sy, n, q, tx, ty, p, row, col)
                && m.planes[q][ty][tx];
        assert(flipped_before(m, sx, sy, n, q, tx, ty, p2, row2, col2));
    }
    if partial_collision(m, sx, sy, n, p2, row2, col2) {
        let (q, ty, tx) = choose|q: int, ty: int, tx: int|
            0 <= q < 2 && 0 <= ty < m.res.spec_height() && 0 <= tx < m.res.spec_width()
                && #[trigger] flipped_before(m, sx, sy, n, q, tx, ty, p2, row2, col2)
                && m.planes[q][ty][tx];
        assert(flipped_before(m, sx, sy, n, q, tx, ty, p, row, col));
    }
}

/// A full row of cells leads to the start of the next row.
pub proof fn lemma_next_row(m: Machine, sx: int, sy: int, n: u8, p: int, row: int)
    requires
        drawable(m, sx, sy),
    ensures
        partial_planes(m, sx, sy, n, p, row, sprite_width(n)) == partial_planes(
            m,
            sx,
            sy,
            n,
            p,
            row + 1,
            0,
        ),
        partial_collision(m, sx, sy, n, p, row, sprite_width(n)) == partial_collision(
            m,
            sx,
            sy,
            n,
            p,
            row + 1,
            0,
        ),
{
    lemma_same_progress(m, sx, sy, n, p, row, sprite_width(n), p, row + 1, 0);
}

/// All rows of a plane lead to the start of the next plane; so does a plane
/// that is not selected, from its start.
pub proof fn lemma_next_plane(m: Machine, sx: int, sy: int, n: u8, p: int, row: int)
    requires
        drawable(m, sx, sy),
        row == sprite_rows(n) || (row == 0 && !plane_selected(m.active, p)),
    ensures
        partial_planes(m, sx, sy, n, p, row, 0) == partial_planes(m, sx, sy, n, p + 1, 0, 0),
        partial_collision(m, sx, sy, n, p, row, 0) == partial_collision(m, sx, sy, n, p + 1, 0, 0),
{
    lemma_same_progress(m, sx, sy, n, p, row, 0, p + 1, 0, 0);
}

/// A cell that flips no pixel: its bit is clear, or it lands off the display.
pub proof fn lemma_cell_skipped(m: Machine, sx: int, sy: int, n: u8, p: int, row: int, col: int)
    requires
        drawable(m, sx, sy),
        n < 16,
        0 <= row < sprite_rows(n),
        0 <= col < sprite_width(n),
        !plane_selected(m.active, p) || !sprite_pixel(
            m.mem,
            m.i + plane_data_offset(m.active, p, n),
            n,
            row,
            col,
        ) || landing(sx, col, m.res.spec_width() as int, m.quirks.wrap_sprites)
            >= m.res.spec_width() || landing(sy, row, m.res.spec_height() as int, m.quirks.wrap_sprites)
            >= m.res.spec_height(),
    ensures
        partial_planes(m, sx, sy, n, p, row, col + 1) == partial_planes(m, sx, sy, n, p, row, col),
        partial_collision(m, sx, sy, n, p, row, col + 1) == partial_collision(
            m,
            sx,
            sy,
            n,
            p,
            row,
            col,
        ),
{
    let w = m.res.spec_width() as int;
    let h = m.res.spec_height() as int;
    let wrap = m.quirks.wrap_sprites;
    assert forall|q: int, ty: int, tx: int|
        0 <= q < 2 && 0 <= ty < h && 0 <= tx < w implies (flipped_before(
        m,
        sx,
        sy,
        n,
        q,
        tx,
        ty,
        p,
        row,
        col + 1,
    ) <==> #[trigger] flipped_before(m, sx, sy, n, q, tx, ty, p, row, col)) by {
        lemma_axis(sx, col, w, wrap, tx);
        lemma_axis(sy, row, h, wrap, ty);
    }
    lemma_same_progress(m, sx, sy, n, p, row, col + 1, p, row, col);
}

/// A cell that flips pixel (`tx0`, `ty0`) of plane `p`.
pub proof fn lemma_cell_drawn(
    m: Machine,
    sx: int,
    sy: int,
    n: u8,
    p: int,
    row: int,
    col: int,
    tx0: int,
    ty0: int,
)
    requires
        drawable(m, sx, sy),
        0 <= p < 2,
        n < 16,
        0 <= row < sprite_rows(n),
        0 <= col < sprite_width(n),
        0 <= tx0 < m.res.spec_width(),
        0 <= ty0 < m.res.spec_height(),
        tx0 == landing(sx, col, m.res.spec_width() as int, m.quirks.wrap_sprites),
        ty0 == landing(sy, row, m.res.spec_height() as int, m.quirks.wrap_sprites),
        plane_selected(m.active, p),
        sprite_pixel(m.mem, m.i + plane_data_offset(m.active, p, n), n, row, col),
    ensures
        partial_planes(m, sx, sy, n, p, row, col)[p][ty0][tx0] == m.planes[p][ty0][tx0],
        ({
            let cur = partial_planes(m, sx, sy, n, p, row, col);
            partial_planes(m, sx, sy, n, p, row, col + 1) == cur.update(
                p,
                cur[p].update(ty0, cur[p][ty0].update(tx0, !cur[p][ty0][tx0])),
            )
        }),
        partial_collision(m, sx, sy, n, p, row, col + 1) == (partial_collision(
            m,
            sx,
            sy,
            n,
            p,
            row,
            col,
        ) || m.planes[p][ty0][tx0]),
{
    let w = m.res.spec_width() as int;
    let h = m.res.spec_height() as int;
    let wrap = m.quirks.wrap_sprites;
    lemma_axis(sx, col, w, wrap, tx0);
    lemma_axis(sy, row, h, wrap, ty0);
    assert(flips(m, sx, sy, n, p, tx0, ty0));
    assert forall|q: int, ty: int, tx: int|
        0 <= q < 2 && 0 <= ty < h && 0 <= tx < w implies (#[trigger] flipped_before(
        m,
        sx,
        sy,
        n,
        q,
        tx,
        ty,
        p,
        row,
        col + 1,
    ) <==> (flipped_before(m, sx, sy, n, q, tx, ty, p, row, col) || (q == p && tx == tx0 && ty
        == ty0))) && !(flipped_before(m, sx, sy, n, q, tx, ty, p, row, col) && q == p && tx == tx0
        && ty == ty0) by {
        lemma_axis(sx, col, w, wrap, tx);
        lemma_axis(sy, row, h, wrap, ty);
    }
    let cur = partial_planes(m, sx, sy, n, p, row, col);
    assert(partial_planes(m, sx, sy, n, p, row, col + 1) =~~= cur.update(
        p,
        cur[p].update(ty0, cur[p][ty0].update(tx0, !cur[p][ty0][tx0])),
    ));
    if partial_collision(m, sx, sy, n, p, row, col + 1) {
        let (q, ty, tx) = choose|q: int, ty: int, tx: int|
            0 <= q < 2 && 0 <= ty < h && 0 <= tx < w && #[trigger] flipped_before(
                m,
                sx,
                sy,
                n,
                q,
                tx,
                ty,
                p,
                row,
                col + 1,
            ) && m.planes[q][ty][tx];
        if !(q == p && tx == tx0 && ty == ty0) {
            assert(flipped_before(m, sx, sy, n, q, tx, ty, p, row, col));
        }
    }
    if partial_collision(m, sx, sy, n, p, row, col) {
        let (q, ty, tx) = choose|q: int, ty: int, tx: int|
            0 <= q < 2 && 0 <= ty < h && 0 <= tx < w && #[trigger] flipped_before(
                m,
                sx,
                sy,
                n,
                q,
                tx,
                ty,
                p,
                row,
                col,
            ) && m.planes[q][ty][tx];
        assert(flipped_before(m, sx, sy, n, q, tx, ty, p, row, col + 1));
    }
    if m.planes[p][ty0][tx0] {
        assert(flipped_before(m, sx, sy, n, p, tx0, ty0, p, row, col + 1));
    }
}

} // verus!
