use voxel_world::chunk::{terrain_block_at, Chunk, CHUNK_SIZE};
use voxel_world::controls::{look_enabled, move_axes, next_cursor_captured, MoveAxes, MoveKeys};
use voxel_world::mesh::bake;
use voxel_world::registry::{BlockRegistry, FaceAppearance, Rgba, AIR, DIRT, GRASS, STONE};
use voxel_world::texture::{texture_from_palette, uv_debug_texture_data};
use voxel_world::world::{chunk_origin, startup_chunk_coords};

#[test]
fn builtin_registry_lookups() {
    let registry = BlockRegistry::new();
    assert_eq!(registry.len(), 4);
    assert!(!registry.is_solid(AIR));
    assert!(registry.is_solid(STONE));
    assert!(registry.is_solid(GRASS));
    assert_eq!(registry.lookup(STONE).color, Rgba { r: 128, g: 128, b: 128, a: 255 });
    let unknown = registry.lookup(77);
    assert!(!unknown.solid);
    assert_eq!(unknown.color, Rgba { r: 0, g: 0, b: 0, a: 0 });
    assert!(registry.contains(3));
    assert!(!registry.contains(4));
}

#[test]
fn air_entry_never_solid() {
    let solid = FaceAppearance { solid: true, color: Rgba { r: 1, g: 1, b: 1, a: 1 } };
    let registry = BlockRegistry::from_appearances(vec![solid, solid]);
    assert!(!registry.is_solid(AIR));
    assert!(registry.is_solid(1));
}

#[test]
fn generate_is_deterministic() {
    let registry = BlockRegistry::new();
    for &(cx, cy, cz) in &[(0, 0, 0), (3, -1, -7), (-10, 0, 10)] {
        let a = Chunk::generate(&registry, cx, cy, cz);
        let b = Chunk::generate(&registry, cx, cy, cz);
        assert_eq!(a.size(), CHUNK_SIZE);
        assert_eq!(a.chunk_coords(), (cx, cy, cz));
        for i in 0..CHUNK_SIZE * CHUNK_SIZE * CHUNK_SIZE {
            assert_eq!(a.cell(i), b.cell(i));
        }
        let ma = bake(&registry, &a);
        let mb = bake(&registry, &b);
        assert_eq!(format!("{:?}", ma.vertices), format!("{:?}", mb.vertices));
        assert_eq!(ma.indices, mb.indices);
    }
}

#[test]
fn generated_terrain_layers() {
    let registry = BlockRegistry::new();
    let surface = Chunk::generate(&registry, 0, 0, 0);
    assert_eq!(surface.get(0, 4, 0), Some(AIR));
    assert_eq!(surface.get(0, 3, 0), Some(GRASS));
    assert_eq!(surface.get(0, 2, 0), Some(DIRT));
    assert_eq!(surface.get(0, 0, 0), Some(DIRT));
    assert_eq!(surface.get(16, 2, 0), Some(GRASS));
    let below = Chunk::generate(&registry, 0, -1, 0);
    assert_eq!(below.get(0, 31, 0), Some(STONE));
    let far = Chunk::generate(&registry, 20, 0, 0);
    assert_eq!(bake(&registry, &far).triangle_count(), 0);
}

#[test]
fn terrain_rule_values() {
    assert_eq!(terrain_block_at(0, 3, 0), GRASS);
    assert_eq!(terrain_block_at(0, -1, 0), STONE);
    assert_eq!(terrain_block_at(-17, 2, 0), GRASS);
    assert_eq!(terrain_block_at(-17, 3, 0), AIR);
    assert_eq!(terrain_block_at(100, -3, 100), AIR);
}

#[test]
fn generation_skips_unknown_ids() {
    let air = FaceAppearance { solid: false, color: Rgba { r: 0, g: 0, b: 0, a: 0 } };
    let stone = FaceAppearance { solid: true, color: Rgba { r: 9, g: 9, b: 9, a: 255 } };
    let registry = BlockRegistry::from_appearances(vec![air, stone, stone]);
    let chunk = Chunk::generate(&registry, 0, 0, 0);
    assert_eq!(chunk.get(0, 3, 0), Some(AIR));
    assert_eq!(chunk.get(0, 2, 0), Some(DIRT));
}

#[test]
fn get_refuses_out_of_bounds() {
    let chunk = Chunk::filled(2, 0, 0, 0, 1);
    assert_eq!(chunk.get(1, 1, 1), Some(1));
    assert_eq!(chunk.get(2, 0, 0), None);
    assert_eq!(chunk.get(0, 2, 0), None);
    assert_eq!(chunk.get(0, 0, 2), None);
}

#[test]
fn get_reads_the_right_cell() {
    let blocks: Vec<u16> = (0..27).collect();
    let chunk = Chunk::from_blocks(3, 1, 2, 3, blocks).unwrap();
    assert_eq!(chunk.get(2, 1, 0), Some(5));
    assert_eq!(chunk.get(0, 0, 2), Some(18));
    assert_eq!(chunk.chunk_coords(), (1, 2, 3));
}

#[test]
fn from_blocks_rejects_bad_dimensions() {
    assert!(Chunk::from_blocks(2, 0, 0, 0, vec![0; 7]).is_none());
    assert!(Chunk::from_blocks(0, 0, 0, 0, vec![]).is_none());
    assert!(Chunk::from_blocks(65, 0, 0, 0, vec![0; 65 * 65 * 65]).is_none());
    assert!(Chunk::from_blocks(64, 0, 0, 0, vec![0; 64 * 64 * 64]).is_some());
}

#[test]
fn debug_texture_rows_rotate() {
    let data = uv_debug_texture_data();
    assert_eq!(data.len(), 256);
    assert_eq!(&data[0..8], &[255, 102, 159, 255, 255, 159, 102, 255]);
    assert_eq!(&data[32..36], &[236, 102, 255, 255]);
    assert_eq!(&data[36..40], &[255, 102, 159, 255]);
}

#[test]
fn texture_from_counting_palette() {
    let mut palette = [0u8; 32];
    for (i, p) in palette.iter_mut().enumerate() {
        *p = i as u8;
    }
    let data = texture_from_palette(&palette);
    assert_eq!(data[0], 0);
    assert_eq!(data[31], 31);
    assert_eq!(data[32], 28);
    assert_eq!(data[36], 0);
    assert_eq!(data[7 * 32], 4);
    assert_eq!(data[255], 3);
}

#[test]
fn cursor_capture_rules() {
    assert!(next_cursor_captured(false, true, false));
    assert!(!next_cursor_captured(true, false, true));
    assert!(!next_cursor_captured(false, true, true));
    assert!(next_cursor_captured(true, false, false));
    assert!(!next_cursor_captured(false, false, false));
    assert!(look_enabled(true));
    assert!(!look_enabled(false));
}

#[test]
fn movement_axes() {
    let none = MoveKeys { forward: false, back: false, left: false, right: false, up: false, down: false };
    assert!(move_axes(none).is_still());
    let keys = MoveKeys { forward: true, back: false, left: false, right: true, up: true, down: true };
    assert_eq!(move_axes(keys), MoveAxes { forward: 1, left: -1, up: 0 });
    assert!(!move_axes(keys).is_still());
    let both = MoveKeys { forward: true, back: true, left: false, right: false, up: false, down: false };
    assert!(move_axes(both).is_still());
}

#[test]
fn startup_layout() {
    let coords = startup_chunk_coords();
    assert_eq!(coords.len(), 882);
    assert_eq!(coords[0], (-10, -1, -10));
    assert_eq!(coords[1], (-10, 0, -10));
    assert_eq!(coords[2], (-10, -1, -9));
    assert_eq!(coords[42], (-9, -1, -10));
    assert_eq!(coords[881], (10, 0, 10));
    assert_eq!(chunk_origin(-3), -96);
    assert_eq!(chunk_origin(10), 320);
}
