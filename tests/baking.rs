use voxel_world::chunk::Chunk;
use voxel_world::mesh::{bake, FaceDir, Mesh};
use voxel_world::registry::{BlockRegistry, FaceAppearance, Rgba, AIR};

fn air() -> FaceAppearance {
    FaceAppearance { solid: false, color: Rgba { r: 0, g: 0, b: 0, a: 0 } }
}

fn solid(r: u8) -> FaceAppearance {
    FaceAppearance { solid: true, color: Rgba { r, g: 10, b: 20, a: 255 } }
}

fn one_solid_registry() -> BlockRegistry {
    BlockRegistry::from_appearances(vec![air(), solid(200)])
}

fn lone_block(size: usize, x: usize, y: usize, z: usize) -> Chunk {
    let mut blocks = vec![AIR; size * size * size];
    blocks[x + size * (y + size * z)] = 1;
    Chunk::from_blocks(size, 0, 0, 0, blocks).unwrap()
}

fn positions(mesh: &Mesh) -> Vec<(u32, u32, u32)> {
    mesh.vertices.iter().map(|v| v.position).collect()
}

#[test]
fn full_two_cube_bakes_its_shell() {
    let registry = one_solid_registry();
    let chunk = Chunk::filled(2, 0, 0, 0, 1);
    let mesh = bake(&registry, &chunk);
    assert_eq!(mesh.quad_count(), 24);
    assert_eq!(mesh.triangle_count(), 48);
    assert_eq!(mesh.vertices.len(), 96);
    assert_eq!(mesh.indices.len(), 144);
}

#[test]
fn all_empty_chunk_bakes_no_triangles() {
    let registry = one_solid_registry();
    let chunk = Chunk::filled(4, 0, 0, 0, AIR);
    let mesh = bake(&registry, &chunk);
    assert_eq!(mesh.triangle_count(), 0);
    assert_eq!(mesh.quad_count(), 0);
}

#[test]
fn unknown_ids_bake_as_empty() {
    let registry = one_solid_registry();
    let chunk = Chunk::filled(3, 0, 0, 0, 9);
    let mesh = bake(&registry, &chunk);
    assert_eq!(mesh.triangle_count(), 0);
}

#[test]
fn solid_cube_hides_interior_faces() {
    let registry = one_solid_registry();
    let chunk = Chunk::filled(3, 0, 0, 0, 1);
    let mesh = bake(&registry, &chunk);
    assert_eq!(mesh.quad_count(), 54);
    assert_eq!(mesh.triangle_count(), 108);
    for p in positions(&mesh) {
        let on_shell = p.0 == 0 || p.0 == 3 || p.1 == 0 || p.1 == 3 || p.2 == 0 || p.2 == 3;
        assert!(on_shell, "vertex {:?} lies inside the cube", p);
    }
}

#[test]
fn lone_corner_block_keeps_all_faces() {
    let registry = one_solid_registry();
    for &(x, y, z) in &[(0, 0, 0), (3, 3, 3), (3, 0, 3)] {
        let mesh = bake(&registry, &lone_block(4, x, y, z));
        assert_eq!(mesh.quad_count(), 6);
        assert_eq!(mesh.triangle_count(), 12);
    }
}

#[test]
fn lone_inner_block_keeps_all_faces() {
    let registry = one_solid_registry();
    let mesh = bake(&registry, &lone_block(4, 1, 2, 1));
    assert_eq!(mesh.quad_count(), 6);
}

#[test]
fn two_touching_blocks_share_no_face() {
    let registry = one_solid_registry();
    let mut blocks = vec![AIR; 8];
    blocks[0] = 1;
    blocks[1] = 1;
    let chunk = Chunk::from_blocks(2, 0, 0, 0, blocks).unwrap();
    let mesh = bake(&registry, &chunk);
    assert_eq!(mesh.quad_count(), 10);
}

#[test]
fn non_solid_neighbour_exposes_faces() {
    let glass = FaceAppearance { solid: false, color: Rgba { r: 1, g: 2, b: 3, a: 128 } };
    let registry = BlockRegistry::from_appearances(vec![air(), solid(200), glass]);
    let mut blocks = vec![2; 8];
    blocks[0] = 1;
    let chunk = Chunk::from_blocks(2, 0, 0, 0, blocks).unwrap();
    let mesh = bake(&registry, &chunk);
    assert_eq!(mesh.quad_count(), 6);
}

#[test]
fn single_cell_quads_are_exact() {
    let registry = one_solid_registry();
    let chunk = Chunk::filled(1, 5, 6, 7, 1);
    let mesh = bake(&registry, &chunk);
    assert_eq!(mesh.quad_count(), 6);
    let p = positions(&mesh);
    assert_eq!(&p[0..4], &[(1, 0, 0), (1, 1, 0), (1, 1, 1), (1, 0, 1)]);
    assert_eq!(&p[4..8], &[(0, 0, 0), (0, 0, 1), (0, 1, 1), (0, 1, 0)]);
    assert_eq!(&p[20..24], &[(0, 0, 0), (0, 1, 0), (1, 1, 0), (1, 0, 0)]);
    assert_eq!(mesh.vertices[0].normal, (1, 0, 0));
    assert_eq!(mesh.vertices[5].normal, (-1, 0, 0));
    assert_eq!(mesh.vertices[23].normal, (0, 0, -1));
    let uvs: Vec<(u8, u8)> = mesh.vertices[0..4].iter().map(|v| v.uv).collect();
    assert_eq!(uvs, vec![(0, 0), (1, 0), (1, 1), (0, 1)]);
    assert_eq!(mesh.vertices[7].color, Rgba { r: 200, g: 10, b: 20, a: 255 });
    assert_eq!(&mesh.indices[0..12], &[0, 1, 2, 0, 2, 3, 4, 5, 6, 4, 6, 7]);
    assert_eq!(mesh.indices[35], 23);
}

#[test]
fn quads_sit_at_their_cell() {
    let registry = one_solid_registry();
    let mesh = bake(&registry, &lone_block(4, 2, 1, 3));
    let p = positions(&mesh);
    assert_eq!(p[0], (3, 1, 3));
    assert_eq!(p[4], (2, 1, 3));
}

#[test]
fn triangles_wind_outward() {
    let registry = one_solid_registry();
    let mesh = bake(&registry, &Chunk::filled(1, 0, 0, 0, 1));
    for q in 0..6 {
        let v = |k: usize| {
            let p = mesh.vertices[mesh.indices[6 * q + k] as usize].position;
            (p.0 as i64, p.1 as i64, p.2 as i64)
        };
        let (a, b, c) = (v(0), v(1), v(2));
        let e1 = (b.0 - a.0, b.1 - a.1, b.2 - a.2);
        let e2 = (c.0 - a.0, c.1 - a.1, c.2 - a.2);
        let cross = (
            e1.1 * e2.2 - e1.2 * e2.1,
            e1.2 * e2.0 - e1.0 * e2.2,
            e1.0 * e2.1 - e1.1 * e2.0,
        );
        let n = mesh.vertices[4 * q].normal;
        assert_eq!(cross, (n.0 as i64, n.1 as i64, n.2 as i64));
    }
}

#[test]
fn face_dirs_in_visiting_order() {
    assert_eq!(FaceDir::from_index(0), FaceDir::PosX);
    assert_eq!(FaceDir::from_index(3), FaceDir::NegY);
    assert_eq!(FaceDir::from_index(5), FaceDir::NegZ);
    assert_eq!(FaceDir::NegY.normal(), (0, -1, 0));
    assert_eq!(FaceDir::PosY.corner(2), (1, 1, 1));
}
