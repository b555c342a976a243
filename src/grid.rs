use vstd::prelude::*;

verus! {

/// What one cell of a grid holds: an opaque identifier, `-1` when empty.
#[derive(Clone, Copy, Debug, PartialEq, Eq, Structural)]
pub struct Tile {
    pub value: i32,
}

/// The mathematical content of a grid: its dimensions and its cells in row-major order.
pub struct GridModel {
    pub width: nat,
    pub height: nat,
    pub tiles: Seq<i32>,
}

impl GridModel {
    /// The buffer holds exactly one value per cell.
    pub open spec fn wf(self) -> bool {
        self.tiles.len() == self.width * self.height
    }

    /// A grid of the given size with every cell empty (`-1`).
    pub open spec fn empty(width: nat, height: nat) -> GridModel {
        GridModel { width, height, tiles: Seq::new(width * height, |i: int| -1i32) }
    }

    pub open spec fn in_range(self, x: int, y: int) -> bool {
        0 <= x < self.width && 0 <= y < self.height
    }

    /// Row-major position of the cell in column `x`, row `y`.
    pub open spec fn index(self, x: int, y: int) -> int {
        y * self.width + x
    }

    /// The value at `(x, y)`, or `-1` outside the grid.
    pub open spec fn read(self, x: int, y: int) -> i32 {
        if self.in_range(x, y) {
            self.tiles[self.index(x, y)]
        } else {
            -1i32
        }
    }

    /// The grid with `(x, y)` set to `v`; unchanged when `(x, y)` lies outside.
    pub open spec fn write(self, x: int, y: int, v: i32) -> GridModel {
        if self.in_range(x, y) {
            GridModel { tiles: self.tiles.update(self.index(x, y), v), ..self }
        } else {
            self
        }
    }

    /// The grid after writing `v` at each coordinate of `coords`, in order.
    pub open spec fn write_all(self, coords: Seq<(i32, i32)>, v: i32) -> GridModel
        decreases coords.len(),
    {
        if coords.len() == 0 {
            self
        } else {
            let last = coords.last();
            self.write_all(coords.drop_last(), v).write(last.0 as int, last.1 as int, v)
        }
    }
}

/// A grid of any size starts well formed.
pub proof fn law_empty_is_wf(width: nat, height: nat)
    ensures
        GridModel::empty(width, height).wf(),
{
}

/// Every cell of a new grid reads as empty.
pub proof fn law_empty_reads_empty(width: nat, height: nat, x: int, y: int)
    requires
        0 <= x < width,
        0 <= y < height,
    ensures
        GridModel::empty(width, height).read(x, y) == -1,
{
    lemma_index_in_bounds(width as int, height as int, x, y);
}

/// A single write keeps the dimensions and the buffer length.
pub proof fn law_write_keeps_shape(m: GridModel, x: int, y: int, v: i32)
    requires
        m.wf(),
    ensures
        m.write(x, y, v).wf(),
        m.write(x, y, v).width == m.width,
        m.write(x, y, v).height == m.height,
{
    if m.in_range(x, y) {
        lemma_index_in_bounds(m.width as int, m.height as int, x, y);
    }
}

/// Any sequence of writes keeps the dimensions and the buffer length.
pub proof fn law_write_all_keeps_shape(m: GridModel, coords: Seq<(i32, i32)>, v: i32)
    requires
        m.wf(),
    ensures
        m.write_all(coords, v).wf(),
        m.write_all(coords, v).width == m.width,
        m.write_all(coords, v).height == m.height,
    decreases coords.len(),
{
    if coords.len() > 0 {
        let last = coords.last();
        law_write_all_keeps_shape(m, coords.drop_last(), v);
        law_write_keeps_shape(m.write_all(coords.drop_last(), v), last.0 as int, last.1 as int, v);
    }
}

/// Reading a cell just written gives the value written; every other cell keeps its value.
pub proof fn law_read_after_write(m: GridModel, x: int, y: int, v: i32, x2: int, y2: int)
    requires
        m.wf(),
        m.in_range(x, y),
    ensures
        m.write(x, y, v).read(x, y) == v,
        (x2, y2) != (x, y) ==> m.write(x, y, v).read(x2, y2) == m.read(x2, y2),
{
    lemma_index_in_bounds(m.width as int, m.height as int, x, y);
    if (x2, y2) != (x, y) && m.in_range(x2, y2) {
        lemma_index_in_bounds(m.width as int, m.height as int, x2, y2);
        lemma_index_injective(m.width as int, x, y, x2, y2);
    }
}

/// A read past the right or bottom edge gives `-1`.
pub proof fn law_read_outside(m: GridModel, x: int, y: int)
    requires
        0 <= x,
        0 <= y,
        x >= m.width || y >= m.height,
    ensures
        m.read(x, y) == -1,
{
}

/// A write past the right or bottom edge changes no cell.
pub proof fn law_write_outside(m: GridModel, x: int, y: int, v: i32)
    requires
        x >= m.width || y >= m.height,
    ensures
        m.write(x, y, v) == m,
        forall|i: int, j: int| #[trigger] m.write(x, y, v).read(i, j) == m.read(i, j),
{
}

proof fn lemma_index_injective(w: int, x: int, y: int, x2: int, y2: int)
    requires
        0 <= x < w,
        0 <= x2 < w,
        0 <= y,
        0 <= y2,
        (x2, y2) != (x, y),
    ensures
        y * w + x != y2 * w + x2,
{
    if y == y2 {
    } else if y < y2 {
        assert(y * w + w <= y2 * w) by (nonlinear_arith)
            requires
                y < y2,
                0 <= w,
        ;
    } else {
        assert(y2 * w + w <= y * w) by (nonlinear_arith)
            requires
                y2 < y,
                0 <= w,
        ;
    }
}

/// The name under which the exporting side knows a grid.
pub type Grid = Tilegrid;

/// A fixed-size rectangular grid of tile values, stored row-major.
pub struct Tilegrid {
    width: u32,
    height: u32,
    tiles: Vec<i32>,
}

impl View for Tilegrid {
    type V = GridModel;

    closed spec fn view(&self) -> GridModel {
        GridModel { width: self.width as nat, height: self.height as nat, tiles: self.tiles@ }
    }
}

proof fn lemma_index_in_bounds(w: int, h: int, x: int, y: int)
    requires
        0 <= x < w,
        0 <= y < h,
    ensures
        0 <= y * w + x < w * h,
{
    assert(y * w + x < w * h) by (nonlinear_arith)
        requires
            0 <= x < w,
            0 <= y < h,
    ;
    assert(0 <= y * w) by (nonlinear_arith)
        requires
            0 <= y,
            0 <= w,
    ;
}

impl Tilegrid {
    pub open spec fn wf(&self) -> bool {
        self@.wf()
    }

    /// A `width` by `height` grid with every cell empty.
    pub fn new(width: u32, height: u32) -> (r: Tilegrid)
        requires
            width as int * height as int <= usize::MAX,
        ensures
            r.wf(),
            r@ == GridModel::empty(width as nat, height as nat),
    {
        let n: usize = width as usize * height as usize;
        let mut tiles: Vec<i32> = Vec::with_capacity(n);
        let mut i: usize = 0;
        while i < n
            invariant
                i <= n,
                tiles@ == Seq::new(i as nat, |k: int| -1i32),
            decreases n - i,
        {
            tiles.push(-1);
            i = i + 1;
            assert(tiles@ =~= Seq::new(i as nat, |k: int| -1i32));
        }
        let r = Tilegrid { width, height, tiles };
        assert(r@.tiles =~= GridModel::empty(width as nat, height as nat).tiles);
        r
    }

    pub fn width(&self) -> (r: u32)
        ensures
            r == self@.width,
    {
        self.width
    }

    pub fn height(&self) -> (r: u32)
        ensures
            r == self@.height,
    {
        self.height
    }

    /// The whole buffer, row-major.
    pub fn get_all_tiles(&self) -> (r: &[i32])
        ensures
            r@ == self@.tiles,
    {
        self.tiles.as_slice()
    }

    /// Row-major position of `(x, y)`, when it lies inside the grid.
    fn index_of(&self, x: i32, y: i32) -> (r: Option<usize>)
        requires
            self.wf(),
        ensures
            r is Some <==> self@.in_range(x as int, y as int),
            r is Some ==> r->0 == self@.index(x as int, y as int) && r->0 < self.tiles@.len(),
    {
        if x < 0 || y < 0 || x as u32 >= self.width || y as u32 >= self.height {
            return None;
        }
        let n: usize = self.tiles.len();
        proof {
            lemma_index_in_bounds(self.width as int, self.height as int, x as int, y as int);
            assert(y as int * self.width as int <= n);
        }
        Some(y as usize * self.width as usize + x as usize)
    }

    /// Writes `value` at `(x, y)`; a coordinate outside the grid is ignored.
    pub fn set(&mut self, x: i32, y: i32, value: i32)
        requires
            old(self).wf(),
        ensures
            final(self).wf(),
            final(self)@ == old(self)@.write(x as int, y as int, value),
    {
        match self.index_of(x, y) {
            Some(idx) => {
                self.tiles.set(idx, value);
            },
            None => {},
        }
    }

    /// The value at `(x, y)`, or `-1` when it lies outside the grid.
    pub fn get(&self, x: i32, y: i32) -> (r: i32)
        requires
            self.wf(),
        ensures
            r == self@.read(x as int, y as int),
    {
        match self.index_of(x, y) {
            Some(idx) => self.tiles[idx],
            None => -1,
        }
    }

    /// Writes `value` at each of `coords` in turn, skipping those outside the grid.
    pub fn set_tiles(&mut self, coords: &[(i32, i32)], value: i32)
        requires
            old(self).wf(),
        ensures
            final(self).wf(),
            final(self)@ == old(self)@.write_all(coords@, value),
    {
        let mut i: usize = 0;
        while i < coords.len()
            invariant
                i <= coords@.len(),
                self.wf(),
                self@ == old(self)@.write_all(coords@.subrange(0, i as int), value),
            decreases coords@.len() - i,
        {
            let (x, y) = coords[i];
            self.set(x, y, value);
            assert(coords@.subrange(0, i + 1).drop_last() =~= coords@.subrange(0, i as int));
            i = i + 1;
        }
        assert(coords@.subrange(0, i as int) =~= coords@);
    }
}

} // verus!
