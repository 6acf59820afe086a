use rose_zone_converter::mesh::{
    generate_mesh, grid_indices, save_mesh, Bits2, Bits3, Bits4, BlockMesh, Vertex,
};

fn vertex(x: u32, y: u32) -> Vertex {
    let (fx, fy) = (x as f32, y as f32);
    Vertex {
        position: Bits3 {
            x: (fx * 2.5).to_bits(),
            y: (fx - fy).to_bits(),
            z: (fy * 2.5).to_bits(),
        },
        normal: Bits3 { x: 0f32.to_bits(), y: 1f32.to_bits(), z: (-0f32).to_bits() },
        uv: Bits2 { x: (fx / 64.0).to_bits(), y: (fy / 64.0).to_bits() },
    }
}

fn word(data: &[u8], k: usize) -> u32 {
    u32::from_le_bytes([data[4 * k], data[4 * k + 1], data[4 * k + 2], data[4 * k + 3]])
}

#[test]
fn grid_of_two_by_two() {
    assert_eq!(grid_indices(2, 2), vec![0, 2, 1, 1, 2, 3]);
}

#[test]
fn grid_of_three_by_two() {
    assert_eq!(grid_indices(3, 2), vec![0, 3, 1, 1, 3, 4, 1, 4, 2, 2, 4, 5]);
}

#[test]
fn grids_without_cells() {
    assert_eq!(grid_indices(1, 9), Vec::<u32>::new());
    assert_eq!(grid_indices(9, 1), Vec::<u32>::new());
    assert_eq!(grid_indices(0, 1), Vec::<u32>::new());
    let mesh = generate_mesh(0, 1, &vertex);
    assert!(mesh.positions.is_empty() && mesh.indices.is_empty());
}

#[test]
fn grid_triangles_use_three_vertices_of_the_grid() {
    let indices = grid_indices(5, 4);
    assert_eq!(indices.len(), 6 * 4 * 3);
    for t in indices.chunks(3) {
        assert!(t[0] != t[1] && t[1] != t[2] && t[0] != t[2]);
        assert!(t.iter().all(|i| *i < 20));
    }
}

#[test]
fn block_mesh_has_sixty_five_vertices_a_side() {
    let mesh = generate_mesh(65, 65, &vertex);
    assert_eq!(mesh.positions.len(), 4225);
    assert_eq!(mesh.normals.len(), 4225);
    assert_eq!(mesh.uvs.len(), 4225);
    assert_eq!(mesh.indices.len(), 24576);
    assert!(mesh.tangents.is_none());
    assert_eq!(f32::from_bits(mesh.positions[66].x), 2.5);
    assert_eq!(f32::from_bits(mesh.positions[67].z), 2.5);
    assert_eq!(f32::from_bits(mesh.positions[67].y), 1.0);
    assert_eq!(f32::from_bits(mesh.uvs[4224].x), 1.0);
    assert_eq!(*mesh.indices.last().unwrap(), 4224);
}

#[test]
fn vertices_go_row_by_row() {
    let mesh = generate_mesh(3, 2, &vertex);
    for y in 0..2u32 {
        for x in 0..3u32 {
            let i = (y * 3 + x) as usize;
            let v = vertex(x, y);
            assert_eq!(mesh.positions[i], v.position);
            assert_eq!(mesh.normals[i], v.normal);
            assert_eq!(mesh.uvs[i], v.uv);
        }
    }
}

#[test]
fn file_of_an_empty_mesh() {
    let mesh = BlockMesh {
        positions: vec![],
        normals: vec![],
        uvs: vec![],
        tangents: None,
        indices: vec![],
    };
    assert_eq!(save_mesh(&mesh), vec![0u8; 12]);
}

fn small_mesh(tangents: Option<Vec<Bits4>>) -> BlockMesh {
    BlockMesh {
        positions: vec![Bits3 { x: 0x04030201, y: 0x08070605, z: 0x0C0B0A09 }],
        normals: vec![Bits3 { x: 1f32.to_bits(), y: 21, z: 22 }],
        uvs: vec![Bits2 { x: 30, y: 31 }],
        tangents,
        indices: vec![7, 8, 9],
    }
}

#[test]
fn file_without_tangents() {
    let data = save_mesh(&small_mesh(None));
    assert_eq!(data.len(), 4 * (3 + 8 + 3));
    assert_eq!(&data[0..16], &[1, 0, 0, 0, 1, 2, 3, 4, 5, 6, 7, 8, 9, 10, 11, 12]);
    assert_eq!(&data[16..20], &1f32.to_le_bytes());
    let rest: Vec<u32> = (5..14).map(|k| word(&data, k)).collect();
    assert_eq!(rest, vec![21, 22, 30, 31, 0, 3, 7, 8, 9]);
}

#[test]
fn file_with_tangents() {
    let data = save_mesh(&small_mesh(Some(vec![Bits4 { x: 40, y: 41, z: 42, w: 43 }])));
    assert_eq!(data.len(), 4 * (3 + 12 + 3));
    let rest: Vec<u32> = (7..18).map(|k| word(&data, k)).collect();
    assert_eq!(rest, vec![30, 31, 1, 40, 41, 42, 43, 3, 7, 8, 9]);
}

#[test]
fn file_reads_back() {
    let mut mesh = generate_mesh(4, 3, &vertex);
    mesh.tangents = Some((0..12).map(|i| Bits4 { x: i, y: i + 1, z: i + 2, w: i + 3 }).collect());
    let data = save_mesh(&mesh);
    let n = word(&data, 0) as usize;
    assert_eq!(n, 12);
    for i in 0..n {
        let p = mesh.positions[i];
        assert_eq!([word(&data, 1 + 3 * i), word(&data, 2 + 3 * i)], [p.x, p.y]);
        let m = mesh.normals[i];
        assert_eq!(word(&data, 1 + 3 * n + 3 * i + 1), m.y);
        let u = mesh.uvs[i];
        assert_eq!(word(&data, 1 + 6 * n + 2 * i + 1), u.y);
    }
    assert_eq!(word(&data, 1 + 8 * n), 1);
    let rest = 2 + 12 * n;
    assert_eq!(word(&data, rest) as usize, mesh.indices.len());
    for (i, index) in mesh.indices.iter().enumerate() {
        assert_eq!(word(&data, rest + 1 + i), *index);
    }
    assert_eq!(data.len(), 4 * (rest + 1 + mesh.indices.len()));
}

#[test]
fn different_meshes_have_different_files() {
    let a = save_mesh(&small_mesh(None));
    let b = save_mesh(&small_mesh(Some(vec![Bits4 { x: 0, y: 0, z: 0, w: 0 }])));
    let mut other = small_mesh(None);
    other.indices[2] = 10;
    assert_ne!(a, b);
    assert_ne!(a, save_mesh(&other));
}
