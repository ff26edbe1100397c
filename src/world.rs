use vstd::prelude::*;
use crate::chunk::CHUNK_SIZE;

verus! {

/// Chunks placed at startup reach this many chunks from the origin along x and z.
pub const WORLD_RADIUS: i32 = 10;

/// Number of chunk columns along x (and along z) placed at startup.
pub const WORLD_SPAN: usize = 21;

/// Number of chunk layers along y placed at startup.
pub const WORLD_LAYERS: usize = 2;

/// World coordinate of the minimum corner of chunk coordinate `c`.
pub open spec fn spec_chunk_origin(c: int) -> int {
    c * CHUNK_SIZE
}

pub fn chunk_origin(c: i32) -> (r: i64)
    ensures
        r == spec_chunk_origin(c as int),
{
    (c as i64) * 32
}

/// Entry `k` of the startup chunk list: x from -10 to 10 slowest, then z from
/// -10 to 10, then y from -1 to 0 fastest.
pub open spec fn startup_coord(k: int) -> (int, int, int) {
    (-10 + k / 42, -1 + k % 2, -10 + (k / 2) % 21)
}

/// The chunk coordinates placed at startup, each `(x, y, z)` once.
pub fn startup_chunk_coords() -> (r: Vec<(i32, i32, i32)>)
    ensures
        r@.len() == WORLD_SPAN * WORLD_SPAN * WORLD_LAYERS,
        forall|k: int|
            0 <= k < r@.len() ==> {
                let c = #[trigger] r@[k];
                (c.0 as int, c.1 as int, c.2 as int) == startup_coord(k)
            },
{
    let total: usize = WORLD_SPAN * WORLD_SPAN * WORLD_LAYERS;
    let mut out: Vec<(i32, i32, i32)> = Vec::new();
    let mut k: usize = 0;
    while k < total
        invariant
            total == 882,
            k <= total,
            out@.len() == k,
            forall|j: int|
                0 <= j < k ==> {
                    let c = #[trigger] out@[j];
                    (c.0 as int, c.1 as int, c.2 as int) == startup_coord(j)
                },
        decreases total - k,
    {
        let x = -WORLD_RADIUS + (k / (WORLD_SPAN * WORLD_LAYERS)) as i32;
        let y = -1 + (k % WORLD_LAYERS) as i32;
        let z = -WORLD_RADIUS + ((k / WORLD_LAYERS) % WORLD_SPAN) as i32;
        out.push((x, y, z));
        k = k + 1;
    }
    out
}

} // verus!
