use vstd::prelude::*;
use vstd::math::abs;
use vstd::arithmetic::div_mod::{
    lemma_fundamental_div_mod, lemma_fundamental_div_mod_converse, lemma_div_denominator,
};
use crate::registry::{BlockRegistry, BlockTypeId, AIR, STONE, DIRT, GRASS};

verus! {

/// Side length of a generated chunk, in blocks.
pub const CHUNK_SIZE: usize = 32;

/// Largest side length a chunk may have.
pub const MAX_CHUNK_SIZE: usize = 64;

pub open spec fn cube(n: int) -> int {
    n * n * n
}

/// Position of local cell `(x, y, z)` in the cell sequence of a chunk of side `n`.
pub open spec fn linear(n: int, x: int, y: int, z: int) -> int {
    x + n * (y + n * z)
}

pub open spec fn cell_x(n: int, i: int) -> int {
    i % n
}

pub open spec fn cell_y(n: int, i: int) -> int {
    (i / n) % n
}

pub open spec fn cell_z(n: int, i: int) -> int {
    i / (n * n)
}

pub open spec fn in_bounds(n: int, x: int, y: int, z: int) -> bool {
    0 <= x < n && 0 <= y < n && 0 <= z < n
}

/// Cell `i` sits at the coordinates that the `cell_*` functions give, and
/// those coordinates lead back to `i`.
pub proof fn lemma_cell_coords(n: int, i: int)
    requires
        n >= 1,
        0 <= i < cube(n),
    ensures
        in_bounds(n, cell_x(n, i), cell_y(n, i), cell_z(n, i)),
        linear(n, cell_x(n, i), cell_y(n, i), cell_z(n, i)) == i,
{
    lemma_fundamental_div_mod(i, n);
    lemma_fundamental_div_mod(i / n, n);
    lemma_div_denominator(i, n, n);
    let q = i / n;
    assert(0 <= q) by (nonlinear_arith)
        requires
            n >= 1,
            0 <= i,
            q == i / n,
    ;
    assert(i / (n * n) < n) by (nonlinear_arith)
        requires
            n >= 1,
            0 <= i < n * n * n,
    ;
    assert(0 <= i / (n * n)) by (nonlinear_arith)
        requires
            n >= 1,
            0 <= i,
    ;
}

/// The position of an in-bounds cell decodes back to its coordinates.
pub proof fn lemma_coords_of_linear(n: int, x: int, y: int, z: int)
    requires
        in_bounds(n, x, y, z),
    ensures
        cell_x(n, linear(n, x, y, z)) == x,
        cell_y(n, linear(n, x, y, z)) == y,
        cell_z(n, linear(n, x, y, z)) == z,
{
    let i = linear(n, x, y, z);
    let q = y + n * z;
    assert(i == q * n + x) by (nonlinear_arith)
        requires
            i == x + n * q,
    ;
    lemma_fundamental_div_mod_converse(i, n, q, x);
    assert(q == z * n + y) by (nonlinear_arith)
        requires
            q == y + n * z,
    ;
    lemma_fundamental_div_mod_converse(q, n, z, y);
    lemma_div_denominator(i, n, n);
}

/// A cell in bounds has a position in bounds.
pub proof fn lemma_linear_bounds(n: int, x: int, y: int, z: int)
    requires
        in_bounds(n, x, y, z),
    ensures
        0 <= linear(n, x, y, z) < cube(n),
{
    assert(0 <= x + n * (y + n * z) < n * n * n) by (nonlinear_arith)
        requires
            0 <= x < n,
            0 <= y < n,
            0 <= z < n,
    ;
}

/// Height of the terrain column at world column `(wx, wz)`: an island that
/// slopes down away from the origin.
pub open spec fn terrain_height(wx: int, wz: int) -> int {
    4 - (abs(wx) + abs(wz)) / 16
}

/// The block that the terrain rule puts at world cell `(wx, wy, wz)`.
pub open spec fn terrain_block(wx: int, wy: int, wz: int) -> BlockTypeId {
    let h = terrain_height(wx, wz);
    if wy >= h {
        AIR
    } else if wy == h - 1 {
        GRASS
    } else if wy >= h - 4 {
        DIRT
    } else {
        STONE
    }
}

/// What a chunk stores for `id`: the id itself when the registry knows it, else `AIR`.
pub open spec fn stored_id(reg: &BlockRegistry, id: BlockTypeId) -> BlockTypeId {
    if reg.spec_contains(id) {
        id
    } else {
        AIR
    }
}

/// The cell sequence of the generated chunk at chunk coordinates `(cx, cy, cz)`.
pub open spec fn generated_cells(reg: &BlockRegistry, cx: int, cy: int, cz: int) -> Seq<
    BlockTypeId,
> {
    let n = CHUNK_SIZE as int;
    Seq::new(
        cube(n) as nat,
        |i: int|
            stored_id(
                reg,
                terrain_block(
                    cx * n + cell_x(n, i),
                    cy * n + cell_y(n, i),
                    cz * n + cell_z(n, i),
                ),
            ),
    )
}

fn abs_i64(v: i64) -> (r: i64)
    requires
        v > i64::MIN,
    ensures
        r == abs(v as int),
{
    if v < 0 {
        -v
    } else {
        v
    }
}

/// The block that the terrain rule puts at world cell `(wx, wy, wz)`.
pub fn terrain_block_at(wx: i64, wy: i64, wz: i64) -> (r: BlockTypeId)
    requires
        -0x1_0000_0000_0000 <= wx <= 0x1_0000_0000_0000,
        -0x1_0000_0000_0000 <= wz <= 0x1_0000_0000_0000,
    ensures
        r == terrain_block(wx as int, wy as int, wz as int),
{
    let h: i64 = 4 - (abs_i64(wx) + abs_i64(wz)) / 16;
    if wy >= h {
        AIR
    } else if wy == h - 1 {
        GRASS
    } else if wy >= h - 4 {
        DIRT
    } else {
        STONE
    }
}

/// A cubic grid of block ids, tagged with its chunk coordinates.
pub struct Chunk {
    size: usize,
    cx: i32,
    cy: i32,
    cz: i32,
    blocks: Vec<BlockTypeId>,
}

impl Chunk {
    /// Side length, in blocks.
    pub closed spec fn side(&self) -> int {
        self.size as int
    }

    /// Chunk coordinates in the world grid.
    pub closed spec fn coords(&self) -> (int, int, int) {
        (self.cx as int, self.cy as int, self.cz as int)
    }

    /// The cells, `x` fastest and `z` slowest (see `linear`).
    pub closed spec fn cells(&self) -> Seq<BlockTypeId> {
        self.blocks@
    }

    /// A chunk holds one cell per position of its cube.
    pub open spec fn wf(&self) -> bool {
        &&& 1 <= self.side() <= MAX_CHUNK_SIZE
        &&& self.cells().len() == cube(self.side())
    }

    pub open spec fn block_at(&self, x: int, y: int, z: int) -> BlockTypeId {
        self.cells()[linear(self.side(), x, y, z)]
    }

    /// Builds a chunk of side `size` from its cells; `None` when `size` is 0 or
    /// above `MAX_CHUNK_SIZE`, or when `blocks` does not hold `size³` cells.
    pub fn from_blocks(size: usize, cx: i32, cy: i32, cz: i32, blocks: Vec<BlockTypeId>) -> (r:
        Option<Chunk>)
        ensures
            r is Some <==> (1 <= size <= MAX_CHUNK_SIZE && blocks@.len() == cube(size as int)),
            r matches Some(c) ==> c.wf() && c.side() == size && c.coords() == (
            cx as int,
            cy as int,
            cz as int,
        ) && c.cells() == blocks@,
    {
        if size == 0 || size > MAX_CHUNK_SIZE {
            return None;
        }
        assert(size * size <= 64 * 64 && size * size * size <= 64 * 64 * 64) by (nonlinear_arith)
            requires
                size <= 64,
        ;
        let n3 = size * size * size;
        if blocks.len() != n3 {
            return None;
        }
        Some(Chunk { size, cx, cy, cz, blocks })
    }

    /// A chunk of side `size` whose every cell holds `id`.
    pub fn filled(size: usize, cx: i32, cy: i32, cz: i32, id: BlockTypeId) -> (r: Chunk)
        requires
            1 <= size <= MAX_CHUNK_SIZE,
        ensures
            r.wf(),
            r.side() == size,
            r.coords() == (cx as int, cy as int, cz as int),
            r.cells() == Seq::new(cube(size as int) as nat, |i: int| id),
    {
        assert(size * size <= 64 * 64 && size * size * size <= 64 * 64 * 64) by (nonlinear_arith)
            requires
                size <= 64,
        ;
        let n3 = size * size * size;
        let mut blocks: Vec<BlockTypeId> = Vec::new();
        let mut i: usize = 0;
        while i < n3
            invariant
                i <= n3,
                blocks@ == Seq::new(i as nat, |k: int| id),
            decreases n3 - i,
        {
            blocks.push(id);
            i = i + 1;
            assert(blocks@ =~= Seq::new(i as nat, |k: int| id));
        }
        Chunk { size, cx, cy, cz, blocks }
    }

    /// Generates the chunk at chunk coordinates `(cx, cy, cz)` by the terrain
    /// rule; ids that `registry` does not know are stored as `AIR`.
    pub fn generate(registry: &BlockRegistry, cx: i32, cy: i32, cz: i32) -> (r: Chunk)
        ensures
            r.wf(),
            r.side() == CHUNK_SIZE,
            r.coords() == (cx as int, cy as int, cz as int),
            r.cells() == generated_cells(registry, cx as int, cy as int, cz as int),
    {
        let n: usize = CHUNK_SIZE;
        let n3: usize = n * n * n;
        let ghost target = generated_cells(registry, cx as int, cy as int, cz as int);
        let mut blocks: Vec<BlockTypeId> = Vec::new();
        let mut i: usize = 0;
        while i < n3
            invariant
                n == CHUNK_SIZE,
                n3 == cube(n as int),
                i <= n3,
                target == generated_cells(registry, cx as int, cy as int, cz as int),
                blocks@ =~= target.take(i as int),
            decreases n3 - i,
        {
            let x = i % n;
            let y = (i / n) % n;
            let z = i / (n * n);
            let wx: i64 = (cx as i64) * 32 + (x as i64);
            let wy: i64 = (cy as i64) * 32 + (y as i64);
            let wz: i64 = (cz as i64) * 32 + (z as i64);
            let id = terrain_block_at(wx, wy, wz);
            let stored = if registry.contains(id) {
                id
            } else {
                AIR
            };
            blocks.push(stored);
            i = i + 1;
            assert(blocks@ =~= target.take(i as int));
        }
        assert(target.take(n3 as int) =~= target);
        Chunk { size: n, cx, cy, cz, blocks }
    }

    pub fn size(&self) -> (r: usize)
        ensures
            r == self.side(),
    {
        self.size
    }

    pub fn chunk_coords(&self) -> (r: (i32, i32, i32))
        ensures
            (r.0 as int, r.1 as int, r.2 as int) == self.coords(),
    {
        (self.cx, self.cy, self.cz)
    }

    /// Cell `i` of the cell sequence.
    pub fn cell(&self, i: usize) -> (r: BlockTypeId)
        requires
            i < self.cells().len(),
        ensures
            r == self.cells()[i as int],
    {
        self.blocks[i]
    }

    /// The block at local coordinates `(x, y, z)`; `None` when they lie
    /// outside the chunk.
    pub fn get(&self, x: usize, y: usize, z: usize) -> (r: Option<BlockTypeId>)
        requires
            self.wf(),
        ensures
            r is Some <==> in_bounds(self.side(), x as int, y as int, z as int),
            r matches Some(id) ==> id == self.block_at(x as int, y as int, z as int),
    {
        let n = self.size;
        if x >= n || y >= n || z >= n {
            return None;
        }
        assert(n * z < 64 * 64 && y + n * z < 64 * 64 && n * (y + n * z) < 64 * 64 * 64)
            by (nonlinear_arith)
            requires
                y < n,
                z < n,
                n <= 64,
        ;
        proof {
            lemma_linear_bounds(n as int, x as int, y as int, z as int);
        }
        let i = x + n * (y + n * z);
        Some(self.blocks[i])
    }
}


/// Generation is deterministic: two chunks generated at the same chunk
/// coordinates from the same registry hold the same cells.
pub proof fn lemma_generate_deterministic(
    reg: &BlockRegistry,
    a: &Chunk,
    b: &Chunk,
    cx: i32,
    cy: i32,
    cz: i32,
)
    requires
        a.cells() == generated_cells(reg, cx as int, cy as int, cz as int),
        b.cells() == generated_cells(reg, cx as int, cy as int, cz as int),
    ensures
        a.cells() == b.cells(),
{
}

} // verus!
