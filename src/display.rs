use vstd::prelude::*;

verus! {

/// The two display resolutions of SuperChip: 64x32 and 128x64 pixels.
#[derive(Clone, Copy, PartialEq, Eq, Structural, Debug)]
pub enum Resolution {
    Low,
    High,
}

impl Resolution {
    pub open spec fn spec_width(self) -> nat {
        match self {
            Resolution::Low => 64,
            Resolution::High => 128,
        }
    }

    pub open spec fn spec_height(self) -> nat {
        match self {
            Resolution::Low => 32,
            Resolution::High => 64,
        }
    }

    /// Number of pixel columns.
    pub fn width(&self) -> (r: usize)
        ensures
            r == self.spec_width(),
    {
        match self {
            Resolution::Low => 64,
            Resolution::High => 128,
        }
    }

    /// Number of pixel rows.
    pub fn height(&self) -> (r: usize)
        ensures
            r == self.spec_height(),
    {
        match self {
            Resolution::Low => 32,
            Resolution::High => 64,
        }
    }
}

impl Default for Resolution {
    fn default() -> (r: Self)
        ensures
            r == Resolution::Low,
    {
        Resolution::Low
    }
}

/// A grid of `height` rows of `width` pixels, all unset.
pub open spec fn blank(width: nat, height: nat) -> Seq<Seq<bool>> {
    Seq::new(height, |y: int| Seq::new(width, |x: int| false))
}

/// Whether `g` has `height` rows of `width` pixels each.
pub open spec fn grid_has_size(g: Seq<Seq<bool>>, width: nat, height: nat) -> bool {
    &&& g.len() == height
    &&& forall|y: int| 0 <= y < height ==> (#[trigger] g[y]).len() == width
}

/// `g` with every row moved right by `n` columns; the `n` leftmost columns unset.
pub open spec fn shifted_right(g: Seq<Seq<bool>>, n: int) -> Seq<Seq<bool>> {
    Seq::new(g.len(), |y: int| Seq::new(g[y].len(), |x: int| if x < n { false } else { g[y][x - n] }))
}

/// `g` with every row moved left by `n` columns; the `n` rightmost columns unset.
pub open spec fn shifted_left(g: Seq<Seq<bool>>, n: int) -> Seq<Seq<bool>> {
    Seq::new(
        g.len(),
        |y: int| Seq::new(g[y].len(), |x: int| if x + n >= g[y].len() { false } else { g[y][x + n] }),
    )
}

/// `g` moved up by `n` rows; the `n` bottom rows unset.
pub open spec fn shifted_up(g: Seq<Seq<bool>>, n: int) -> Seq<Seq<bool>> {
    Seq::new(
        g.len(),
        |y: int| if y + n >= g.len() { Seq::new(g[0].len(), |x: int| false) } else { g[y + n] },
    )
}

/// `g` moved down by `n` rows; the `n` top rows unset.
pub open spec fn shifted_down(g: Seq<Seq<bool>>, n: int) -> Seq<Seq<bool>> {
    Seq::new(g.len(), |y: int| if y < n { Seq::new(g[0].len(), |x: int| false) } else { g[y - n] })
}

/// One independent boolean pixel grid.
#[derive(Clone, Debug)]
pub struct Plane {
    /// Rows of pixels, top row first.
    pub pixels: Vec<Vec<bool>>,
    pub resolution: Resolution,
}

impl View for Plane {
    type V = Seq<Seq<bool>>;

    open spec fn view(&self) -> Seq<Seq<bool>> {
        Seq::new(self.pixels@.len(), |y: int| self.pixels@[y]@)
    }
}

/// A row of `width` unset pixels.
fn blank_row(width: usize) -> (r: Vec<bool>)
    ensures
        r@ == Seq::new(width as nat, |x: int| false),
{
    let mut row: Vec<bool> = Vec::new();
    let mut x: usize = 0;
    while x < width
        invariant
            x <= width,
            row@ == Seq::new(x as nat, |i: int| false),
        decreases width - x,
    {
        row.push(false);
        x = x + 1;
        assert(row@ =~= Seq::new(x as nat, |i: int| false));
    }
    row
}

/// A grid of `height` rows of `width` unset pixels.
fn blank_grid(width: usize, height: usize) -> (r: Vec<Vec<bool>>)
    ensures
        Seq::new(r@.len(), |y: int| r@[y]@) == blank(width as nat, height as nat),
{
    let mut rows: Vec<Vec<bool>> = Vec::new();
    let mut y: usize = 0;
    while y < height
        invariant
            y <= height,
            rows@.len() == y,
            forall|i: int| 0 <= i < y ==> (#[trigger] rows@[i])@ == Seq::new(width as nat, |x: int| false),
        decreases height - y,
    {
        let row = blank_row(width);
        rows.push(row);
        y = y + 1;
    }
    assert(Seq::new(rows@.len(), |y: int| rows@[y]@) =~= blank(width as nat, height as nat));
    rows
}

impl Plane {
    /// The plane's pixel grid matches its resolution.
    pub open spec fn wf(&self) -> bool {
        grid_has_size(self@, self.resolution.spec_width(), self.resolution.spec_height())
    }

    /// A blank plane at the given resolution.
    pub fn new(resolution: Resolution) -> (r: Plane)
        ensures
            r.resolution == resolution,
            r@ == blank(resolution.spec_width(), resolution.spec_height()),
            r.wf(),
    {
        let pixels = blank_grid(resolution.width(), resolution.height());
        Plane { pixels, resolution }
    }

    /// Scroll the plane to the right by 4. The 4 leftmost columns are reset.
    pub fn scroll_right(&mut self)
        requires
            old(self).wf(),
        ensures
            final(self).resolution == old(self).resolution,
            final(self)@ == shifted_right(old(self)@, 4),
            final(self).wf(),
    {
        let ghost pre = self@;
        let width = self.resolution.width();
        let height = self.resolution.height();
        let mut rows: Vec<Vec<bool>> = Vec::new();
        let mut y: usize = 0;
        while y < height
            invariant
                y <= height,
                height == self.resolution.spec_height(),
                width == self.resolution.spec_width(),
                self@ == pre,
                grid_has_size(pre, width as nat, height as nat),
                rows@.len() == y,
                forall|i: int| 0 <= i < y ==> (#[trigger] rows@[i])@ == shifted_right(pre, 4)[i],
            decreases height - y,
        {
            let mut row: Vec<bool> = Vec::new();
            let mut x: usize = 0;
            while x < width
                invariant
                    x <= width,
                    y < height,
                    height == self.resolution.spec_height(),
                    width == self.resolution.spec_width(),
                    self@ == pre,
                    grid_has_size(pre, width as nat, height as nat),
                    row@.len() == x,
                    forall|j: int| 0 <= j < x ==> #[trigger] row@[j] == shifted_right(pre, 4)[y as int][j],
                decreases width - x,
            {
                let v = if x < 4 {
                    false
                } else {
                    assert(self.pixels@[y as int]@ == pre[y as int]);
                    self.pixels[y][x - 4]
                };
                row.push(v);
                x = x + 1;
            }
            assert(row@ =~= shifted_right(pre, 4)[y as int]);
            rows.push(row);
            y = y + 1;
        }
        self.pixels = rows;
        assert(self@ =~= shifted_right(pre, 4));
    }

    /// Scroll the plane to the left by 4. The 4 rightmost columns are reset.
    pub fn scroll_left(&mut self)
        requires
            old(self).wf(),
        ensures
            final(self).resolution == old(self).resolution,
            final(self)@ == shifted_left(old(self)@, 4),
            final(self).wf(),
    {
        let ghost pre = self@;
        let width = self.resolution.width();
        let height = self.resolution.height();
        let mut rows: Vec<Vec<bool>> = Vec::new();
        let mut y: usize = 0;
        while y < height
            invariant
                y <= height,
                height == self.resolution.spec_height(),
                width == self.resolution.spec_width(),
                self@ == pre,
                grid_has_size(pre, width as nat, height as nat),
                rows@.len() == y,
                forall|i: int| 0 <= i < y ==> (#[trigger] rows@[i])@ == shifted_left(pre, 4)[i],
            decreases height - y,
        {
            let mut row: Vec<bool> = Vec::new();
            let mut x: usize = 0;
            while x < width
                invariant
                    x <= width,
                    y < height,
                    height == self.resolution.spec_height(),
                    width == self.resolution.spec_width(),
                    self@ == pre,
                    grid_has_size(pre, width as nat, height as nat),
                    row@.len() == x,
                    forall|j: int| 0 <= j < x ==> #[trigger] row@[j] == shifted_left(pre, 4)[y as int][j],
                decreases width - x,
            {
                let v = if x + 4 >= width {
                    false
                } else {
                    assert(self.pixels@[y as int]@ == pre[y as int]);
                    self.pixels[y][x + 4]
                };
                row.push(v);
                x = x + 1;
            }
            assert(row@ =~= shifted_left(pre, 4)[y as int]);
            rows.push(row);
            y = y + 1;
        }
        self.pixels = rows;
        assert(self@ =~= shifted_left(pre, 4));
    }

    /// Scroll the plane up by `amount` rows. The bottom `amount` rows are reset.
    pub fn scroll_up(&mut self, amount: usize)
        requires
            old(self).wf(),
            amount <= old(self).resolution.spec_height(),
        ensures
            final(self).resolution == old(self).resolution,
            final(self)@ == shifted_up(old(self)@, amount as int),
            final(self).wf(),
    {
        let ghost pre = self@;
        let width = self.resolution.width();
        let height = self.resolution.height();
        let mut rows: Vec<Vec<bool>> = Vec::new();
        let mut y: usize = 0;
        while y < height
            invariant
                y <= height,
                amount <= height,
                height == self.resolution.spec_height(),
                width == self.resolution.spec_width(),
                self@ == pre,
                grid_has_size(pre, width as nat, height as nat),
                rows@.len() == y,
                forall|i: int| 0 <= i < y ==> (#[trigger] rows@[i])@ == shifted_up(pre, amount as int)[i],
            decreases height - y,
        {
            let row = if y + amount >= height {
                blank_row(width)
            } else {
                self.pixels[y + amount].clone()
            };
            assert(row@ =~= shifted_up(pre, amount as int)[y as int]);
            rows.push(row);
            y = y + 1;
        }
        self.pixels = rows;
        assert(self@ =~= shifted_up(pre, amount as int));
    }

    /// Scroll the plane down by `amount` rows. The top `amount` rows are reset.
    pub fn scroll_down(&mut self, amount: usize)
        requires
            old(self).wf(),
            amount <= old(self).resolution.spec_height(),
        ensures
            final(self).resolution == old(self).resolution,
            final(self)@ == shifted_down(old(self)@, amount as int),
            final(self).wf(),
    {
        let ghost pre = self@;
        let width = self.resolution.width();
        let height = self.resolution.height();
        let mut rows: Vec<Vec<bool>> = Vec::new();
        let mut y: usize = 0;
        while y < height
            invariant
                y <= height,
                amount <= height,
                height == self.resolution.spec_height(),
                width == self.resolution.spec_width(),
                self@ == pre,
                grid_has_size(pre, width as nat, height as nat),
                rows@.len() == y,
                forall|i: int| 0 <= i < y ==> (#[trigger] rows@[i])@ == shifted_down(pre, amount as int)[i],
            decreases height - y,
        {
            let row = if y < amount {
                blank_row(width)
            } else {
                self.pixels[y - amount].clone()
            };
            assert(row@ =~= shifted_down(pre, amount as int)[y as int]);
            rows.push(row);
            y = y + 1;
        }
        self.pixels = rows;
        assert(self@ =~= shifted_down(pre, amount as int));
    }

    /// Set all pixels to false.
    pub fn clear(&mut self)
        ensures
            final(self).resolution == old(self).resolution,
            final(self)@ == blank(old(self).resolution.spec_width(), old(self).resolution.spec_height()),
            final(self).wf(),
    {
        self.pixels = blank_grid(self.resolution.width(), self.resolution.height());
    }
}

impl Default for Plane {
    fn default() -> (r: Self)
        ensures
            r.resolution == Resolution::Low,
            r@ == blank(64, 32),
            r.wf(),
    {
        Plane::new(Resolution::Low)
    }
}

/// An operation on a whole plane, applied by `Display::for_active_plane`.
#[derive(Clone, Copy, PartialEq, Eq, Structural, Debug)]
pub enum PlaneOp {
    Clear,
    ScrollUp(u8),
    ScrollDown(u8),
    ScrollLeft,
    ScrollRight,
}

/// The grid `g` of a plane at resolution `res` after `op`.
pub open spec fn apply_plane_op(g: Seq<Seq<bool>>, res: Resolution, op: PlaneOp) -> Seq<Seq<bool>> {
    match op {
        PlaneOp::Clear => blank(res.spec_width(), res.spec_height()),
        PlaneOp::ScrollUp(n) => shifted_up(g, n as int),
        PlaneOp::ScrollDown(n) => shifted_down(g, n as int),
        PlaneOp::ScrollLeft => shifted_left(g, 4),
        PlaneOp::ScrollRight => shifted_right(g, 4),
    }
}

/// Whether plane `p` (0 or 1) is selected by the plane mask.
pub open spec fn plane_selected(mask: u8, p: int) -> bool {
    if p == 0 {
        mask & 1 != 0
    } else {
        mask & 2 != 0
    }
}

/// Up to two pixel planes at a shared resolution, with a mask of the planes
/// that drawing, clearing and scrolling affect.
#[derive(Clone, Debug)]
pub struct Display {
    /// XO-Chip has a second plane, for four colours instead of two.
    pub planes: [Plane; 2],
    /// Bit 0 selects the first plane, bit 1 the second.
    pub active_planes: u8,
    pub resolution: Resolution,
}

impl Display {
    /// Both planes match the display's resolution.
    pub open spec fn wf(&self) -> bool {
        &&& self.planes@.len() == 2
        &&& forall|p: int|
            0 <= p < 2 ==> (#[trigger] self.planes@[p]).wf() && self.planes@[p].resolution
                == self.resolution
    }

    /// The pixel grids of both planes.
    pub open spec fn grids(&self) -> Seq<Seq<Seq<bool>>> {
        seq![self.planes@[0]@, self.planes@[1]@]
    }

    /// A display at the given resolution with both planes blank and the first one selected.
    pub fn new(resolution: Resolution) -> (r: Display)
        ensures
            r.wf(),
            r.resolution == resolution,
            r.active_planes == 1,
            r.grids() == seq![
                blank(resolution.spec_width(), resolution.spec_height()),
                blank(resolution.spec_width(), resolution.spec_height()),
            ],
    {
        let r = Display {
            planes: [Plane::new(resolution), Plane::new(resolution)],
            active_planes: 1,
            resolution,
        };
        assert(r.grids() =~= seq![
            blank(resolution.spec_width(), resolution.spec_height()),
            blank(resolution.spec_width(), resolution.spec_height()),
        ]);
        r
    }

    /// Apply `op` to every selected plane.
    pub fn for_active_plane(&mut self, op: PlaneOp)
        requires
            old(self).wf(),
            op matches PlaneOp::ScrollUp(n) ==> n <= old(self).resolution.spec_height(),
            op matches PlaneOp::ScrollDown(n) ==> n <= old(self).resolution.spec_height(),
        ensures
            final(self).wf(),
            final(self).resolution == old(self).resolution,
            final(self).active_planes == old(self).active_planes,
            forall|p: int|
                0 <= p < 2 ==> #[trigger] final(self).grids()[p] == if plane_selected(
                    old(self).active_planes,
                    p,
                ) {
                    apply_plane_op(old(self).grids()[p], old(self).resolution, op)
                } else {
                    old(self).grids()[p]
                },
    {
        if self.active_planes & 1 != 0 {
            apply_op(&mut self.planes[0], op);
        }
        if self.active_planes & 2 != 0 {
            apply_op(&mut self.planes[1], op);
        }
    }

    /// Invert pixel (`x`, `y`) of plane `p`; tells whether it was set.
    pub fn flip(&mut self, p: usize, x: usize, y: usize) -> (was_set: bool)
        requires
            old(self).wf(),
            p < 2,
            x < old(self).resolution.spec_width(),
            y < old(self).resolution.spec_height(),
        ensures
            final(self).wf(),
            final(self).resolution == old(self).resolution,
            final(self).active_planes == old(self).active_planes,
            was_set == old(self).grids()[p as int][y as int][x as int],
            final(self).grids() == old(self).grids().update(
                p as int,
                old(self).grids()[p as int].update(
                    y as int,
                    old(self).grids()[p as int][y as int].update(x as int, !was_set),
                ),
            ),
    {
        let ghost pre = self.grids();
        proof {
            let plane = self.planes@[p as int];
            assert(plane.wf());
            assert(plane@[y as int] == plane.pixels@[y as int]@);
        }
        let was_set = self.planes[p].pixels[y][x];
        self.planes[p].pixels[y][x] = !was_set;
        assert(self.grids() =~~= pre.update(
            p as int,
            pre[p as int].update(y as int, pre[p as int][y as int].update(x as int, !was_set)),
        ));
        was_set
    }

    /// Set the active resolution; the planes are cleared only if it changes.
    pub fn set_resolution(&mut self, resolution: Resolution)
        requires
            old(self).wf(),
        ensures
            final(self).wf(),
            final(self).resolution == resolution,
            final(self).active_planes == old(self).active_planes,
            resolution == old(self).resolution ==> final(self).grids() == old(self).grids(),
            resolution != old(self).resolution ==> final(self).grids() == seq![
                blank(resolution.spec_width(), resolution.spec_height()),
                blank(resolution.spec_width(), resolution.spec_height()),
            ],
    {
        if resolution == self.resolution {
            return;
        }
        self.resolution = resolution;
        self.planes = [Plane::new(resolution), Plane::new(resolution)];
        assert(self.grids() =~= seq![
            blank(resolution.spec_width(), resolution.spec_height()),
            blank(resolution.spec_width(), resolution.spec_height()),
        ]);
    }

    /// Pair the two planes pixel by pixel: `r[y][x]` is the pixel at column `x`
    /// of row `y` in the first plane and in the second.
    pub fn zip_planes(&self) -> (r: Vec<Vec<(bool, bool)>>)
        requires
            self.wf(),
        ensures
            r@.len() == self.resolution.spec_height(),
            forall|y: int|
                0 <= y < r@.len() ==> (#[trigger] r@[y])@.len() == self.resolution.spec_width(),
            forall|y: int, x: int|
                0 <= y < r@.len() && 0 <= x < r@[y]@.len() ==> #[trigger] r@[y]@[x] == (
                    self.grids()[0][y][x],
                    self.grids()[1][y][x],
                ),
    {
        let width = self.resolution.width();
        let height = self.resolution.height();
        let mut rows: Vec<Vec<(bool, bool)>> = Vec::new();
        let mut y: usize = 0;
        while y < height
            invariant
                self.wf(),
                y <= height,
                height == self.resolution.spec_height(),
                width == self.resolution.spec_width(),
                rows@.len() == y,
                forall|i: int| 0 <= i < y ==> (#[trigger] rows@[i])@.len() == width,
                forall|i: int, x: int|
                    0 <= i < y && 0 <= x < width ==> #[trigger] rows@[i]@[x] == (
                        self.grids()[0][i][x],
                        self.grids()[1][i][x],
                    ),
            decreases height - y,
        {
            let first = &self.planes[0].pixels[y];
            let second = &self.planes[1].pixels[y];
            assert(first@ == self.grids()[0][y as int]);
            assert(second@ == self.grids()[1][y as int]);
            let mut row: Vec<(bool, bool)> = Vec::new();
            let mut x: usize = 0;
            while x < width
                invariant
                    x <= width,
                    first@.len() == width,
                    second@.len() == width,
                    row@.len() == x,
                    forall|j: int| 0 <= j < x ==> #[trigger] row@[j] == (first@[j], second@[j]),
                decreases width - x,
            {
                row.push((first[x], second[x]));
                x = x + 1;
            }
            rows.push(row);
            y = y + 1;
        }
        rows
    }
}

impl Default for Display {
    fn default() -> (r: Self)
        ensures
            r.wf(),
            r.resolution == Resolution::Low,
            r.active_planes == 1,
            r.grids() == seq![blank(64, 32), blank(64, 32)],
    {
        Display::new(Resolution::Low)
    }
}

/// Apply `op` to one plane.
fn apply_op(plane: &mut Plane, op: PlaneOp)
    requires
        old(plane).wf(),
        op matches PlaneOp::ScrollUp(n) ==> n <= old(plane).resolution.spec_height(),
        op matches PlaneOp::ScrollDown(n) ==> n <= old(plane).resolution.spec_height(),
    ensures
        final(plane).wf(),
        final(plane).resolution == old(plane).resolution,
        final(plane)@ == apply_plane_op(old(plane)@, old(plane).resolution, op),
{
    match op {
        PlaneOp::Clear => plane.clear(),
        PlaneOp::ScrollUp(n) => plane.scroll_up(n as usize),
        PlaneOp::ScrollDown(n) => plane.scroll_down(n as usize),
        PlaneOp::ScrollLeft => plane.scroll_left(),
        PlaneOp::ScrollRight => plane.scroll_right(),
    }
}

} // verus!
