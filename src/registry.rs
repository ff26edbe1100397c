use vstd::prelude::*;

verus! {

/// Identifier of a block type; `AIR` marks an empty cell.
pub type BlockTypeId = u16;

pub const AIR: BlockTypeId = 0;

pub const STONE: BlockTypeId = 1;

pub const DIRT: BlockTypeId = 2;

pub const GRASS: BlockTypeId = 3;

/// An 8-bit RGBA color.
#[derive(Clone, Copy, Debug, PartialEq, Eq, Structural)]
pub struct Rgba {
    pub r: u8,
    pub g: u8,
    pub b: u8,
    pub a: u8,
}

/// How the faces of a block type look, and whether the block culls the
/// faces of its neighbours.
#[derive(Clone, Copy, Debug, PartialEq, Eq, Structural)]
pub struct FaceAppearance {
    pub solid: bool,
    pub color: Rgba,
}

/// What every unknown id, and `AIR`, looks like: nothing, and not solid.
pub open spec fn empty_appearance() -> FaceAppearance {
    FaceAppearance { solid: false, color: Rgba { r: 0, g: 0, b: 0, a: 0 } }
}

pub open spec fn solid_color(r: u8, g: u8, b: u8) -> FaceAppearance {
    FaceAppearance { solid: true, color: Rgba { r, g, b, a: 255 } }
}

/// The catalog that `BlockRegistry::new` builds, indexed by id.
pub open spec fn default_catalog() -> Seq<FaceAppearance> {
    seq![
        empty_appearance(),
        solid_color(128, 128, 128),
        solid_color(134, 96, 67),
        solid_color(95, 159, 53),
    ]
}

/// Read-only catalog from block type id to face appearance.
pub struct BlockRegistry {
    entries: Vec<FaceAppearance>,
}

impl View for BlockRegistry {
    type V = Seq<FaceAppearance>;

    closed spec fn view(&self) -> Seq<FaceAppearance> {
        self.entries@
    }
}

impl BlockRegistry {
    /// The appearance of `id`: its entry when the catalog holds one and `id`
    /// is not `AIR`, else the empty appearance.
    pub open spec fn spec_lookup(&self, id: BlockTypeId) -> FaceAppearance {
        if id != AIR && (id as int) < self@.len() {
            self@[id as int]
        } else {
            empty_appearance()
        }
    }

    pub open spec fn spec_is_solid(&self, id: BlockTypeId) -> bool {
        self.spec_lookup(id).solid
    }

    /// Whether the catalog knows `id` (`AIR` always counts as known).
    pub open spec fn spec_contains(&self, id: BlockTypeId) -> bool {
        (id as int) < self@.len() || id == AIR
    }

    /// The built-in catalog: air, stone, dirt and grass.
    pub fn new() -> (r: BlockRegistry)
        ensures
            r@ == default_catalog(),
    {
        let entries = vec![
            FaceAppearance { solid: false, color: Rgba { r: 0, g: 0, b: 0, a: 0 } },
            FaceAppearance { solid: true, color: Rgba { r: 128, g: 128, b: 128, a: 255 } },
            FaceAppearance { solid: true, color: Rgba { r: 134, g: 96, b: 67, a: 255 } },
            FaceAppearance { solid: true, color: Rgba { r: 95, g: 159, b: 53, a: 255 } },
        ];
        let r = BlockRegistry { entries };
        assert(r@ =~= default_catalog());
        r
    }

    /// A catalog whose entry for id `k` is `appearances[k]`.
    pub fn from_appearances(appearances: Vec<FaceAppearance>) -> (r: BlockRegistry)
        ensures
            r@ == appearances@,
    {
        BlockRegistry { entries: appearances }
    }

    pub fn len(&self) -> (r: usize)
        ensures
            r == self@.len(),
    {
        self.entries.len()
    }

    pub fn lookup(&self, id: BlockTypeId) -> (r: FaceAppearance)
        ensures
            r == self.spec_lookup(id),
    {
        if id != AIR && (id as usize) < self.entries.len() {
            self.entries[id as usize]
        } else {
            FaceAppearance { solid: false, color: Rgba { r: 0, g: 0, b: 0, a: 0 } }
        }
    }

    pub fn is_solid(&self, id: BlockTypeId) -> (r: bool)
        ensures
            r == self.spec_is_solid(id),
    {
        self.lookup(id).solid
    }

    pub fn contains(&self, id: BlockTypeId) -> (r: bool)
        ensures
            r == self.spec_contains(id),
    {
        (id as usize) < self.entries.len() || id == AIR
    }
}

} // verus!
