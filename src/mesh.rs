use vstd::prelude::*;
use crate::registry::{BlockRegistry, Rgba};
use crate::chunk::{
    Chunk, cube, linear, cell_x, cell_y, cell_z, in_bounds, lemma_cell_coords, lemma_coords_of_linear,
    lemma_linear_bounds,
};

verus! {

/// The six axis-aligned directions a block face can point in.
#[derive(Clone, Copy, Debug, PartialEq, Eq, Structural)]
pub enum FaceDir {
    PosX,
    NegX,
    PosY,
    NegY,
    PosZ,
    NegZ,
}

/// The directions in the order the baker visits them.
pub open spec fn dir_from_index(k: int) -> FaceDir {
    if k == 0 {
        FaceDir::PosX
    } else if k == 1 {
        FaceDir::NegX
    } else if k == 2 {
        FaceDir::PosY
    } else if k == 3 {
        FaceDir::NegY
    } else if k == 4 {
        FaceDir::PosZ
    } else {
        FaceDir::NegZ
    }
}

/// Outward unit normal of a face pointing in `d`.
pub open spec fn normal_of(d: FaceDir) -> (i8, i8, i8) {
    match d {
        FaceDir::PosX => (1, 0, 0),
        FaceDir::NegX => (-1i8, 0, 0),
        FaceDir::PosY => (0, 1, 0),
        FaceDir::NegY => (0, -1i8, 0),
        FaceDir::PosZ => (0, 0, 1),
        FaceDir::NegZ => (0, 0, -1i8),
    }
}

pub open spec fn pick4<T>(c: int, p0: T, p1: T, p2: T, p3: T) -> T {
    if c == 0 {
        p0
    } else if c == 1 {
        p1
    } else if c == 2 {
        p2
    } else {
        p3
    }
}

/// Corner `c` (0 to 3) of the unit-cube face pointing in `d`, as an offset
/// from the cell's minimum corner. The corners run counter-clockwise seen
/// from outside the cube.
pub open spec fn corner(d: FaceDir, c: int) -> (u32, u32, u32) {
    match d {
        FaceDir::PosX => pick4(c, (1, 0, 0), (1, 1, 0), (1, 1, 1), (1, 0, 1)),
        FaceDir::NegX => pick4(c, (0, 0, 0), (0, 0, 1), (0, 1, 1), (0, 1, 0)),
        FaceDir::PosY => pick4(c, (0, 1, 0), (0, 1, 1), (1, 1, 1), (1, 1, 0)),
        FaceDir::NegY => pick4(c, (0, 0, 0), (1, 0, 0), (1, 0, 1), (0, 0, 1)),
        FaceDir::PosZ => pick4(c, (0, 0, 1), (1, 0, 1), (1, 1, 1), (0, 1, 1)),
        FaceDir::NegZ => pick4(c, (0, 0, 0), (0, 1, 0), (1, 1, 0), (1, 0, 0)),
    }
}

/// Texture coordinate of corner `c` of a quad.
pub open spec fn corner_uv(c: int) -> (u8, u8) {
    pick4(c, (0, 0), (1, 0), (1, 1), (0, 1))
}

/// Offsets, within a quad's four vertices, of its two triangles' corners.
pub open spec fn quad_index_offset(r: int) -> int {
    if r == 0 {
        0
    } else if r == 1 {
        1
    } else if r == 2 {
        2
    } else if r == 3 {
        0
    } else if r == 4 {
        2
    } else {
        3
    }
}

impl FaceDir {
    pub fn from_index(k: usize) -> (r: FaceDir)
        requires
            k < 6,
        ensures
            r == dir_from_index(k as int),
    {
        if k == 0 {
            FaceDir::PosX
        } else if k == 1 {
            FaceDir::NegX
        } else if k == 2 {
            FaceDir::PosY
        } else if k == 3 {
            FaceDir::NegY
        } else if k == 4 {
            FaceDir::PosZ
        } else {
            FaceDir::NegZ
        }
    }

    pub fn normal(self) -> (r: (i8, i8, i8))
        ensures
            r == normal_of(self),
    {
        match self {
            FaceDir::PosX => (1, 0, 0),
            FaceDir::NegX => (-1, 0, 0),
            FaceDir::PosY => (0, 1, 0),
            FaceDir::NegY => (0, -1, 0),
            FaceDir::PosZ => (0, 0, 1),
            FaceDir::NegZ => (0, 0, -1),
        }
    }

    pub fn corner(self, c: usize) -> (r: (u32, u32, u32))
        requires
            c < 4,
        ensures
            r == corner(self, c as int),
    {
        let t: [(u32, u32, u32); 4] = match self {
            FaceDir::PosX => [(1, 0, 0), (1, 1, 0), (1, 1, 1), (1, 0, 1)],
            FaceDir::NegX => [(0, 0, 0), (0, 0, 1), (0, 1, 1), (0, 1, 0)],
            FaceDir::PosY => [(0, 1, 0), (0, 1, 1), (1, 1, 1), (1, 1, 0)],
            FaceDir::NegY => [(0, 0, 0), (1, 0, 0), (1, 0, 1), (0, 0, 1)],
            FaceDir::PosZ => [(0, 0, 1), (1, 0, 1), (1, 1, 1), (0, 1, 1)],
            FaceDir::NegZ => [(0, 0, 0), (0, 1, 0), (1, 1, 0), (1, 0, 0)],
        };
        t[c]
    }
}

/// One mesh vertex: position in block units relative to the chunk's minimum
/// corner, outward normal, texture coordinate and face color.
#[derive(Clone, Copy, Debug)]
pub struct Vertex {
    pub position: (u32, u32, u32),
    pub normal: (i8, i8, i8),
    pub uv: (u8, u8),
    pub color: Rgba,
}

/// A triangle list: four vertices and six indices per quad.
pub struct Mesh {
    pub vertices: Vec<Vertex>,
    pub indices: Vec<u32>,
}

/// A block face: the position of its cell in the chunk, and its direction.
pub type FaceRef = (int, FaceDir);

/// Whether the neighbour of cell `i` in direction `d` lies in the chunk and is solid.
pub open spec fn neighbor_solid(reg: &BlockRegistry, ch: &Chunk, i: int, d: FaceDir) -> bool {
    let n = ch.side();
    let o = normal_of(d);
    let x = cell_x(n, i) + o.0;
    let y = cell_y(n, i) + o.1;
    let z = cell_z(n, i) + o.2;
    in_bounds(n, x, y, z) && reg.spec_is_solid(ch.block_at(x, y, z))
}

/// A face is exposed when its cell is solid and the neighbour across it is
/// out of the chunk or not solid.
pub open spec fn face_exposed(reg: &BlockRegistry, ch: &Chunk, i: int, d: FaceDir) -> bool {
    reg.spec_is_solid(ch.cells()[i]) && !neighbor_solid(reg, ch, i, d)
}

/// The exposed faces of cell `i` among the first `k` directions.
pub open spec fn cell_faces(reg: &BlockRegistry, ch: &Chunk, i: int, k: nat) -> Seq<FaceRef>
    decreases k,
{
    if k == 0 {
        Seq::empty()
    } else {
        let d = dir_from_index(k - 1);
        let prev = cell_faces(reg, ch, i, (k - 1) as nat);
        if face_exposed(reg, ch, i, d) {
            prev.push((i, d))
        } else {
            prev
        }
    }
}

/// The exposed faces of the first `m` cells, cell by cell.
pub open spec fn faces_upto(reg: &BlockRegistry, ch: &Chunk, m: nat) -> Seq<FaceRef>
    decreases m,
{
    if m == 0 {
        Seq::empty()
    } else {
        faces_upto(reg, ch, (m - 1) as nat) + cell_faces(reg, ch, m - 1, 6)
    }
}

/// Every exposed face of the chunk, in cell order and then direction order.
pub open spec fn exposed_faces(reg: &BlockRegistry, ch: &Chunk) -> Seq<FaceRef> {
    faces_upto(reg, ch, cube(ch.side()) as nat)
}

/// Vertex `c` of the quad of face `f`.
pub open spec fn face_vertex(reg: &BlockRegistry, ch: &Chunk, f: FaceRef, c: int) -> Vertex {
    let n = ch.side();
    let k = corner(f.1, c);
    Vertex {
        position: (
            (cell_x(n, f.0) + k.0) as u32,
            (cell_y(n, f.0) + k.1) as u32,
            (cell_z(n, f.0) + k.2) as u32,
        ),
        normal: normal_of(f.1),
        uv: corner_uv(c),
        color: reg.spec_lookup(ch.cells()[f.0]).color,
    }
}

/// The vertex buffer for the quads of `fs`, four vertices per face.
pub open spec fn mesh_vertices(reg: &BlockRegistry, ch: &Chunk, fs: Seq<FaceRef>) -> Seq<Vertex> {
    Seq::new(4 * fs.len(), |j: int| face_vertex(reg, ch, fs[j / 4], j % 4))
}

/// The index buffer for `q` quads: two triangles per quad.
pub open spec fn mesh_indices(q: nat) -> Seq<u32> {
    Seq::new(6 * q, |j: int| (4 * (j / 6) + quad_index_offset(j % 6)) as u32)
}

impl Mesh {
    pub fn quad_count(&self) -> (r: usize)
        ensures
            r == self.vertices@.len() / 4,
    {
        self.vertices.len() / 4
    }

    pub fn triangle_count(&self) -> (r: usize)
        ensures
            r == self.indices@.len() / 3,
    {
        self.indices.len() / 3
    }
}

fn neighbor_is_solid(
    registry: &BlockRegistry,
    chunk: &Chunk,
    i: usize,
    x: usize,
    y: usize,
    z: usize,
    d: FaceDir,
) -> (r: bool)
    requires
        chunk.wf(),
        0 <= i < cube(chunk.side()),
        x == cell_x(chunk.side(), i as int),
        y == cell_y(chunk.side(), i as int),
        z == cell_z(chunk.side(), i as int),
    ensures
        r == neighbor_solid(registry, chunk, i as int, d),
{
    proof {
        lemma_cell_coords(chunk.side(), i as int);
    }
    let found = match d {
        FaceDir::PosX => chunk.get(x + 1, y, z),
        FaceDir::NegX => if x == 0 {
            None
        } else {
            chunk.get(x - 1, y, z)
        },
        FaceDir::PosY => chunk.get(x, y + 1, z),
        FaceDir::NegY => if y == 0 {
            None
        } else {
            chunk.get(x, y - 1, z)
        },
        FaceDir::PosZ => chunk.get(x, y, z + 1),
        FaceDir::NegZ => if z == 0 {
            None
        } else {
            chunk.get(x, y, z - 1)
        },
    };
    match found {
        Some(id) => registry.is_solid(id),
        None => false,
    }
}

fn quad_vertex(
    registry: &BlockRegistry,
    chunk: &Chunk,
    i: usize,
    x: usize,
    y: usize,
    z: usize,
    d: FaceDir,
    c: usize,
) -> (r: Vertex)
    requires
        chunk.wf(),
        0 <= i < cube(chunk.side()),
        c < 4,
        x == cell_x(chunk.side(), i as int),
        y == cell_y(chunk.side(), i as int),
        z == cell_z(chunk.side(), i as int),
    ensures
        r == face_vertex(registry, chunk, (i as int, d), c as int),
{
    proof {
        lemma_cell_coords(chunk.side(), i as int);
    }
    let k = d.corner(c);
    let uv: (u8, u8) = if c == 0 {
        (0, 0)
    } else if c == 1 {
        (1, 0)
    } else if c == 2 {
        (1, 1)
    } else {
        (0, 1)
    };
    Vertex {
        position: (x as u32 + k.0, y as u32 + k.1, z as u32 + k.2),
        normal: d.normal(),
        uv,
        color: registry.lookup(chunk.cell(i)).color,
    }
}


/// Bakes `chunk` into one mesh: a quad for every exposed face, in cell order
/// and then direction order, all quads sharing one vertex and one index buffer.
/// Faces on the chunk's boundary count as exposed.
pub fn bake(registry: &BlockRegistry, chunk: &Chunk) -> (r: Mesh)
    requires
        chunk.wf(),
    ensures
        r.vertices@ == mesh_vertices(registry, chunk, exposed_faces(registry, chunk)),
        r.indices@ == mesh_indices(exposed_faces(registry, chunk).len()),
{
    let n = chunk.size();
    assert(1 <= n * n <= 64 * 64 && n * n * n <= 64 * 64 * 64) by (nonlinear_arith)
        requires
            1 <= n <= 64,
    ;
    let n3 = n * n * n;
    let mut vertices: Vec<Vertex> = Vec::new();
    let mut indices: Vec<u32> = Vec::new();
    let ghost mut faces: Seq<FaceRef> = Seq::empty();
    let mut i: usize = 0;
    while i < n3
        invariant
            chunk.wf(),
            n == chunk.side(),
            n3 == cube(n as int),
            n3 <= 64 * 64 * 64,
            1 <= n * n <= 64 * 64,
            i <= n3,
            faces == faces_upto(registry, chunk, i as nat),
            faces.len() <= 6 * i,
            vertices@ == mesh_vertices(registry, chunk, faces),
            indices@ == mesh_indices(faces.len()),
        decreases n3 - i,
    {
        let x = i % n;
        let y = (i / n) % n;
        let z = i / (n * n);
        let solid = registry.is_solid(chunk.cell(i));
        let ghost before = faces;
        let mut k: usize = 0;
        while k < 6
            invariant
                chunk.wf(),
                n == chunk.side(),
                n3 == cube(n as int),
                n3 <= 64 * 64 * 64,
                i < n3,
                k <= 6,
                x == cell_x(n as int, i as int),
                y == cell_y(n as int, i as int),
                z == cell_z(n as int, i as int),
                solid == registry.spec_is_solid(chunk.cells()[i as int]),
                before == faces_upto(registry, chunk, i as nat),
                faces == before + cell_faces(registry, chunk, i as int, k as nat),
                faces.len() <= 6 * i + k,
                vertices@ == mesh_vertices(registry, chunk, faces),
                indices@ == mesh_indices(faces.len()),
            decreases 6 - k,
        {
            let d = FaceDir::from_index(k);
            let exposed = solid && !neighbor_is_solid(registry, chunk, i, x, y, z, d);
            if exposed {
                let ghost old_vertices = vertices@;
                let ghost old_indices = indices@;
                let base = vertices.len() as u32;
                vertices.push(quad_vertex(registry, chunk, i, x, y, z, d, 0));
                vertices.push(quad_vertex(registry, chunk, i, x, y, z, d, 1));
                vertices.push(quad_vertex(registry, chunk, i, x, y, z, d, 2));
                vertices.push(quad_vertex(registry, chunk, i, x, y, z, d, 3));
                indices.push(base);
                indices.push(base + 1);
                indices.push(base + 2);
                indices.push(base);
                indices.push(base + 2);
                indices.push(base + 3);
                let ghost f: FaceRef = (i as int, d);
                proof {
                    let old_faces = faces;
                    faces = faces.push(f);
                    assert(faces == before + cell_faces(registry, chunk, i as int, (k + 1) as nat));
                    assert(vertices@ =~= mesh_vertices(registry, chunk, faces)) by {
                        assert forall|j: int| 0 <= j < vertices@.len() implies vertices@[j]
                            == mesh_vertices(registry, chunk, faces)[j] by {
                            if j < old_vertices.len() {
                                assert(j / 4 < old_faces.len());
                                assert(faces[j / 4] == old_faces[j / 4]);
                            } else {
                                assert(j / 4 == old_faces.len());
                            }
                        }
                    }
                    assert(indices@ =~= mesh_indices(faces.len())) by {
                        assert forall|j: int| 0 <= j < indices@.len() implies indices@[j]
                            == mesh_indices(faces.len())[j] by {
                            if j >= old_indices.len() {
                                assert(j / 6 == old_faces.len());
                            }
                        }
                    }
                }
            } else {
                proof {
                    assert(faces =~= before + cell_faces(registry, chunk, i as int, (k + 1) as nat));
                }
            }
            k = k + 1;
        }
        i = i + 1;
    }
    Mesh { vertices, indices }
}


proof fn lemma_cell_faces_sound(reg: &BlockRegistry, ch: &Chunk, i: int, k: nat)
    ensures
        cell_faces(reg, ch, i, k).len() <= k,
        forall|j: int|
            0 <= j < cell_faces(reg, ch, i, k).len() ==> {
                let f = #[trigger] cell_faces(reg, ch, i, k)[j];
                f.0 == i && face_exposed(reg, ch, i, f.1)
            },
    decreases k,
{
    if k > 0 {
        lemma_cell_faces_sound(reg, ch, i, (k - 1) as nat);
    }
}

proof fn lemma_faces_upto_sound(reg: &BlockRegistry, ch: &Chunk, m: nat)
    ensures
        forall|j: int|
            0 <= j < faces_upto(reg, ch, m).len() ==> {
                let f = #[trigger] faces_upto(reg, ch, m)[j];
                0 <= f.0 < m && face_exposed(reg, ch, f.0, f.1)
            },
    decreases m,
{
    if m > 0 {
        lemma_faces_upto_sound(reg, ch, (m - 1) as nat);
        lemma_cell_faces_sound(reg, ch, m - 1, 6);
        let prev = faces_upto(reg, ch, (m - 1) as nat);
        let cur = cell_faces(reg, ch, m - 1, 6);
        assert forall|j: int| 0 <= j < faces_upto(reg, ch, m).len() implies {
            let f = #[trigger] faces_upto(reg, ch, m)[j];
            0 <= f.0 < m && face_exposed(reg, ch, f.0, f.1)
        } by {
            if j < prev.len() {
                assert(faces_upto(reg, ch, m)[j] == prev[j]);
            } else {
                assert(faces_upto(reg, ch, m)[j] == cur[j - prev.len()]);
            }
        }
    }
}

/// Every face the baker emits belongs to a cell of the chunk and is exposed:
/// its cell is solid and the neighbour across it is outside the chunk or not solid.
pub proof fn lemma_baked_faces_are_exposed(reg: &BlockRegistry, ch: &Chunk)
    requires
        ch.wf(),
    ensures
        forall|j: int|
            0 <= j < exposed_faces(reg, ch).len() ==> {
                let f = #[trigger] exposed_faces(reg, ch)[j];
                0 <= f.0 < cube(ch.side()) && face_exposed(reg, ch, f.0, f.1)
            },
{
    lemma_faces_upto_sound(reg, ch, cube(ch.side()) as nat);
}

/// A cell whose six neighbours all lie in the chunk and are solid contributes
/// no face to the baked mesh.
pub proof fn lemma_surrounded_cell_emits_nothing(
    reg: &BlockRegistry,
    ch: &Chunk,
    x: int,
    y: int,
    z: int,
)
    requires
        ch.wf(),
        in_bounds(ch.side(), x - 1, y, z),
        in_bounds(ch.side(), x + 1, y, z),
        in_bounds(ch.side(), x, y - 1, z),
        in_bounds(ch.side(), x, y + 1, z),
        in_bounds(ch.side(), x, y, z - 1),
        in_bounds(ch.side(), x, y, z + 1),
        reg.spec_is_solid(ch.block_at(x - 1, y, z)),
        reg.spec_is_solid(ch.block_at(x + 1, y, z)),
        reg.spec_is_solid(ch.block_at(x, y - 1, z)),
        reg.spec_is_solid(ch.block_at(x, y + 1, z)),
        reg.spec_is_solid(ch.block_at(x, y, z - 1)),
        reg.spec_is_solid(ch.block_at(x, y, z + 1)),
    ensures
        forall|j: int|
            0 <= j < exposed_faces(reg, ch).len() ==> (#[trigger] exposed_faces(reg, ch)[j]).0
                != linear(ch.side(), x, y, z),
{
    let n = ch.side();
    lemma_coords_of_linear(n, x, y, z);
    lemma_baked_faces_are_exposed(reg, ch);
    let i = linear(n, x, y, z);
    assert(forall|d: FaceDir| neighbor_solid(reg, ch, i, d));
}

proof fn lemma_non_solid_cell_no_faces(reg: &BlockRegistry, ch: &Chunk, i: int, k: nat)
    requires
        !reg.spec_is_solid(ch.cells()[i]),
    ensures
        cell_faces(reg, ch, i, k).len() == 0,
    decreases k,
{
    if k > 0 {
        lemma_non_solid_cell_no_faces(reg, ch, i, (k - 1) as nat);
    }
}

/// A chunk without a solid cell bakes to an empty mesh: no vertex, no triangle.
pub proof fn lemma_empty_chunk_bakes_nothing(reg: &BlockRegistry, ch: &Chunk)
    requires
        ch.wf(),
        forall|i: int| 0 <= i < cube(ch.side()) ==> !reg.spec_is_solid(#[trigger] ch.cells()[i]),
    ensures
        exposed_faces(reg, ch).len() == 0,
        mesh_vertices(reg, ch, exposed_faces(reg, ch)).len() == 0,
        mesh_indices(exposed_faces(reg, ch).len()).len() == 0,
{
    lemma_baked_faces_are_exposed(reg, ch);
    if exposed_faces(reg, ch).len() > 0 {
        let f = exposed_faces(reg, ch)[0];
        assert(face_exposed(reg, ch, f.0, f.1));
    }
}

proof fn lemma_lone_cell_faces(reg: &BlockRegistry, ch: &Chunk, x: int, y: int, z: int, k: nat)
    requires
        ch.wf(),
        in_bounds(ch.side(), x, y, z),
        reg.spec_is_solid(ch.block_at(x, y, z)),
        forall|i: int|
            0 <= i < cube(ch.side()) && i != linear(ch.side(), x, y, z) ==> !reg.spec_is_solid(
                #[trigger] ch.cells()[i],
            ),
        k <= 6,
    ensures
        cell_faces(reg, ch, linear(ch.side(), x, y, z), k).len() == k,
    decreases k,
{
    if k > 0 {
        lemma_lone_cell_faces(reg, ch, x, y, z, (k - 1) as nat);
        let n = ch.side();
        let i = linear(n, x, y, z);
        let d = dir_from_index(k - 1);
        let o = normal_of(d);
        lemma_coords_of_linear(n, x, y, z);
        let (nx, ny, nz) = (x + o.0, y + o.1, z + o.2);
        if in_bounds(n, nx, ny, nz) {
            lemma_linear_bounds(n, nx, ny, nz);
            lemma_coords_of_linear(n, nx, ny, nz);
            assert(linear(n, nx, ny, nz) != i);
        }
        assert(face_exposed(reg, ch, i, d));
    }
}

/// A chunk whose only solid cell is `(x, y, z)` bakes to exactly six quads,
/// twelve triangles: cells outside the chunk count as not solid, so a block on
/// the boundary or in a corner keeps all its faces.
pub proof fn lemma_lone_block_emits_six_faces(
    reg: &BlockRegistry,
    ch: &Chunk,
    x: int,
    y: int,
    z: int,
)
    requires
        ch.wf(),
        in_bounds(ch.side(), x, y, z),
        reg.spec_is_solid(ch.block_at(x, y, z)),
        forall|i: int|
            0 <= i < cube(ch.side()) && i != linear(ch.side(), x, y, z) ==> !reg.spec_is_solid(
                #[trigger] ch.cells()[i],
            ),
    ensures
        exposed_faces(reg, ch).len() == 6,
        mesh_vertices(reg, ch, exposed_faces(reg, ch)).len() == 24,
        mesh_indices(exposed_faces(reg, ch).len()).len() == 36,
{
    let n = ch.side();
    let i0 = linear(n, x, y, z);
    lemma_linear_bounds(n, x, y, z);
    lemma_lone_cell_faces(reg, ch, x, y, z, 6);
    lemma_lone_faces_upto(reg, ch, x, y, z, cube(n) as nat);
}

proof fn lemma_lone_faces_upto(reg: &BlockRegistry, ch: &Chunk, x: int, y: int, z: int, m: nat)
    requires
        ch.wf(),
        in_bounds(ch.side(), x, y, z),
        reg.spec_is_solid(ch.block_at(x, y, z)),
        forall|i: int|
            0 <= i < cube(ch.side()) && i != linear(ch.side(), x, y, z) ==> !reg.spec_is_solid(
                #[trigger] ch.cells()[i],
            ),
        m <= cube(ch.side()),
    ensures
        faces_upto(reg, ch, m).len() == if m > linear(ch.side(), x, y, z) {
            6int
        } else {
            0int
        },
    decreases m,
{
    if m > 0 {
        lemma_lone_faces_upto(reg, ch, x, y, z, (m - 1) as nat);
        if m - 1 == linear(ch.side(), x, y, z) {
            lemma_lone_cell_faces(reg, ch, x, y, z, 6);
        } else {
            lemma_non_solid_cell_no_faces(reg, ch, m - 1, 6);
        }
    }
}


proof fn lemma_dir_index(d: FaceDir) -> (k: int)
    ensures
        0 <= k < 6,
        dir_from_index(k) == d,
{
    match d {
        FaceDir::PosX => 0,
        FaceDir::NegX => 1,
        FaceDir::PosY => 2,
        FaceDir::NegY => 3,
        FaceDir::PosZ => 4,
        FaceDir::NegZ => 5,
    }
}

proof fn lemma_cell_faces_complete(reg: &BlockRegistry, ch: &Chunk, i: int, k: nat)
    ensures
        forall|kk: int|
            0 <= kk < k && face_exposed(reg, ch, i, #[trigger] dir_from_index(kk)) ==> cell_faces(
                reg,
                ch,
                i,
                k,
            ).contains((i, dir_from_index(kk))),
    decreases k,
{
    if k > 0 {
        lemma_cell_faces_complete(reg, ch, i, (k - 1) as nat);
        let prev = cell_faces(reg, ch, i, (k - 1) as nat);
        let cur = cell_faces(reg, ch, i, k);
        assert forall|kk: int|
            0 <= kk < k && face_exposed(
                reg,
                ch,
                i,
                #[trigger] dir_from_index(kk),
            ) implies cur.contains((i, dir_from_index(kk))) by {
            if kk < k - 1 {
                let j = choose|j: int| 0 <= j < prev.len() && prev[j] == (i, dir_from_index(kk));
                assert(cur[j] == prev[j]);
            } else {
                assert(cur[cur.len() - 1] == (i, dir_from_index(kk)));
            }
        }
    }
}

proof fn lemma_faces_upto_complete(reg: &BlockRegistry, ch: &Chunk, m: nat)
    ensures
        forall|i: int, kk: int|
            0 <= i < m && 0 <= kk < 6 && #[trigger] face_exposed(
                reg,
                ch,
                i,
                dir_from_index(kk),
            ) ==> faces_upto(reg, ch, m).contains((i, dir_from_index(kk))),
    decreases m,
{
    if m > 0 {
        lemma_faces_upto_complete(reg, ch, (m - 1) as nat);
        lemma_cell_faces_complete(reg, ch, m - 1, 6);
        let prev = faces_upto(reg, ch, (m - 1) as nat);
        let last = cell_faces(reg, ch, m - 1, 6);
        let all = faces_upto(reg, ch, m);
        assert(all == prev + last);
        assert forall|i: int, kk: int|
            0 <= i < m && 0 <= kk < 6 && #[trigger] face_exposed(
                reg,
                ch,
                i,
                dir_from_index(kk),
            ) implies all.contains((i, dir_from_index(kk))) by {
            if i < m - 1 {
                let j = choose|j: int| 0 <= j < prev.len() && prev[j] == (i, dir_from_index(kk));
                assert(all[j] == prev[j]);
            } else {
                let j = choose|j: int| 0 <= j < last.len() && last[j] == (i, dir_from_index(kk));
                assert(all[prev.len() + j] == last[j]);
            }
        }
    }
}

/// Every exposed face of the chunk is baked: together with
/// `lemma_baked_faces_are_exposed`, the baked quads are exactly the exposed faces.
pub proof fn lemma_exposed_faces_are_baked(reg: &BlockRegistry, ch: &Chunk)
    requires
        ch.wf(),
    ensures
        forall|i: int, d: FaceDir|
            0 <= i < cube(ch.side()) && #[trigger] face_exposed(reg, ch, i, d) ==> exposed_faces(
                reg,
                ch,
            ).contains((i, d)),
{
    lemma_faces_upto_complete(reg, ch, cube(ch.side()) as nat);
    assert forall|i: int, d: FaceDir|
        0 <= i < cube(ch.side()) && #[trigger] face_exposed(reg, ch, i, d) implies exposed_faces(
        reg,
        ch,
    ).contains((i, d)) by {
        let k = lemma_dir_index(d);
        assert(face_exposed(reg, ch, i, dir_from_index(k)));
    }
}


proof fn lemma_cell_faces_congruent(reg: &BlockRegistry, a: &Chunk, b: &Chunk, i: int, k: nat)
    requires
        a.side() == b.side(),
        a.cells() == b.cells(),
    ensures
        cell_faces(reg, a, i, k) == cell_faces(reg, b, i, k),
    decreases k,
{
    if k > 0 {
        lemma_cell_faces_congruent(reg, a, b, i, (k - 1) as nat);
        let d = dir_from_index(k - 1);
        assert(face_exposed(reg, a, i, d) == face_exposed(reg, b, i, d));
    }
}

proof fn lemma_faces_upto_congruent(reg: &BlockRegistry, a: &Chunk, b: &Chunk, m: nat)
    requires
        a.side() == b.side(),
        a.cells() == b.cells(),
    ensures
        faces_upto(reg, a, m) == faces_upto(reg, b, m),
    decreases m,
{
    if m > 0 {
        lemma_faces_upto_congruent(reg, a, b, (m - 1) as nat);
        lemma_cell_faces_congruent(reg, a, b, m - 1, 6);
    }
}

/// Baking is deterministic in the chunk's contents: two chunks of the same
/// side holding the same cells (wherever they sit in the world) bake to the
/// same vertex and index buffers.
pub proof fn lemma_same_cells_same_mesh(reg: &BlockRegistry, a: &Chunk, b: &Chunk)
    requires
        a.wf(),
        b.wf(),
        a.side() == b.side(),
        a.cells() == b.cells(),
    ensures
        mesh_vertices(reg, a, exposed_faces(reg, a)) == mesh_vertices(
            reg,
            b,
            exposed_faces(reg, b),
        ),
        mesh_indices(exposed_faces(reg, a).len()) == mesh_indices(exposed_faces(reg, b).len()),
{
    lemma_faces_upto_congruent(reg, a, b, cube(a.side()) as nat);
    let fs = exposed_faces(reg, a);
    assert(mesh_vertices(reg, a, fs) =~= mesh_vertices(reg, b, fs));
}

} // verus!
