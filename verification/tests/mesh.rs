use bevycraft::block::Block;
use bevycraft::chunk::{IVec3, MyChunk, UVec3};
use bevycraft::face::{Face, Side};
use bevycraft::mesh::{build_buffers, simple_mesh};

const SIDES: [Side; 6] =
    [Side::Left, Side::Right, Side::Bottom, Side::Top, Side::Front, Side::Back];

fn chunk_with(blocks: &[(i32, i32, i32, Block)]) -> MyChunk {
    let mut chunk = MyChunk::default();
    for (x, y, z, block) in blocks {
        assert!(chunk.set(IVec3::new(*x, *y, *z), *block));
    }
    chunk
}

fn face(x: u32, y: u32, z: u32, side: Side) -> Face {
    Face { position: UVec3 { x, y, z }, side }
}

#[test]
fn empty_chunk_has_no_faces() {
    assert!(simple_mesh(&MyChunk::default()).is_empty());
}

#[test]
fn single_opaque_voxel_has_six_faces_in_side_order() {
    let faces = simple_mesh(&chunk_with(&[(5, 6, 7, Block::Dirt)]));
    let expected: Vec<Face> = SIDES.iter().map(|s| face(5, 6, 7, *s)).collect();
    assert_eq!(faces, expected);
}

#[test]
fn single_voxel_in_a_corner_has_six_faces() {
    for (x, y, z) in [(0, 0, 0), (15, 15, 15), (0, 15, 0), (15, 0, 15)] {
        let faces = simple_mesh(&chunk_with(&[(x, y, z, Block::Stone)]));
        let expected: Vec<Face> =
            SIDES.iter().map(|s| face(x as u32, y as u32, z as u32, *s)).collect();
        assert_eq!(faces, expected);
    }
}

#[test]
fn single_transparent_voxel_has_six_faces() {
    let faces = simple_mesh(&chunk_with(&[(1, 1, 1, Block::Glass)]));
    assert_eq!(faces.len(), 6);
}

#[test]
fn two_adjacent_opaque_voxels_have_ten_faces() {
    for (dx, dy, dz) in [(1, 0, 0), (0, 1, 0), (0, 0, 1)] {
        let chunk =
            chunk_with(&[(4, 4, 4, Block::Dirt), (4 + dx, 4 + dy, 4 + dz, Block::Stone)]);
        assert_eq!(simple_mesh(&chunk).len(), 10);
    }
}

#[test]
fn adjacent_voxels_hide_their_shared_faces() {
    let faces = simple_mesh(&chunk_with(&[(4, 4, 4, Block::Dirt), (5, 4, 4, Block::Dirt)]));
    let expected = vec![
        face(4, 4, 4, Side::Left),
        face(4, 4, 4, Side::Bottom),
        face(4, 4, 4, Side::Top),
        face(4, 4, 4, Side::Front),
        face(4, 4, 4, Side::Back),
        face(5, 4, 4, Side::Right),
        face(5, 4, 4, Side::Bottom),
        face(5, 4, 4, Side::Top),
        face(5, 4, 4, Side::Front),
        face(5, 4, 4, Side::Back),
    ];
    assert_eq!(faces, expected);
}

#[test]
fn faces_come_in_storage_order() {
    let faces = simple_mesh(&chunk_with(&[(0, 0, 2, Block::Dirt), (3, 1, 0, Block::Dirt)]));
    assert_eq!(faces.len(), 12);
    assert!(faces[..6].iter().all(|f| f.position == UVec3 { x: 3, y: 1, z: 0 }));
    assert!(faces[6..].iter().all(|f| f.position == UVec3 { x: 0, y: 0, z: 2 }));
}

#[test]
fn glass_and_dirt_share_one_face() {
    let faces = simple_mesh(&chunk_with(&[(4, 4, 4, Block::Dirt), (5, 4, 4, Block::Glass)]));
    assert_eq!(faces.len(), 11);
    assert!(faces.contains(&face(4, 4, 4, Side::Right)));
    assert!(!faces.contains(&face(5, 4, 4, Side::Left)));
}

#[test]
fn glass_next_to_glass_shows_no_inner_face() {
    let faces = simple_mesh(&chunk_with(&[(4, 4, 4, Block::Glass), (4, 5, 4, Block::Glass)]));
    assert_eq!(faces.len(), 10);
    assert!(!faces.contains(&face(4, 4, 4, Side::Top)));
    assert!(!faces.contains(&face(4, 5, 4, Side::Bottom)));
}

#[test]
fn flat_chunk_has_256_top_faces() {
    let faces = simple_mesh(&MyChunk::flat());
    let top: Vec<&Face> = faces.iter().filter(|f| f.side == Side::Top).collect();
    assert_eq!(top.len(), 16 * 16);
    assert!(top.iter().all(|f| f.position.y == 3));
    let bottom = faces.iter().filter(|f| f.side == Side::Bottom).count();
    assert_eq!(bottom, 256);
    assert_eq!(faces.len(), 256 + 256 + 4 * 16 * 4);
}

#[test]
fn full_chunk_shows_only_its_hull() {
    let mut chunk = MyChunk::default();
    for voxel in chunk.voxels.iter_mut() {
        *voxel = Block::Stone;
    }
    assert_eq!(simple_mesh(&chunk).len(), 6 * 16 * 16);
}

#[test]
fn meshing_is_deterministic() {
    let chunk = MyChunk::flat();
    assert_eq!(simple_mesh(&chunk), simple_mesh(&chunk));
}

#[test]
fn buffers_of_no_faces_are_empty() {
    let buffers = build_buffers(&Vec::new(), 1);
    assert!(buffers.positions.is_empty());
    assert!(buffers.indices.is_empty());
    assert!(buffers.normals.is_empty());
    assert!(buffers.uvs.is_empty());
}

#[test]
fn buffers_of_two_faces() {
    let faces = vec![face(1, 2, 3, Side::Right), face(0, 0, 0, Side::Bottom)];
    let buffers = build_buffers(&faces, 2);
    assert_eq!(buffers.indices, vec![0, 2, 1, 1, 2, 3, 4, 6, 5, 5, 6, 7]);
    assert_eq!(
        buffers.positions,
        vec![
            [4, 4, 6],
            [4, 4, 8],
            [4, 6, 6],
            [4, 6, 8],
            [0, 0, 2],
            [2, 0, 2],
            [0, 0, 0],
            [2, 0, 0],
        ]
    );
    assert_eq!(
        buffers.normals,
        vec![
            [1, 0, 0],
            [1, 0, 0],
            [1, 0, 0],
            [1, 0, 0],
            [0, -1, 0],
            [0, -1, 0],
            [0, -1, 0],
            [0, -1, 0],
        ]
    );
    assert_eq!(
        buffers.uvs,
        vec![[0, 0], [1, 0], [0, 1], [1, 1], [0, 0], [1, 0], [0, 1], [1, 1]]
    );
}

#[test]
fn buffers_of_a_flat_chunk() {
    let faces = simple_mesh(&MyChunk::flat());
    let buffers = build_buffers(&faces, 1);
    assert_eq!(buffers.positions.len(), 4 * faces.len());
    assert_eq!(buffers.normals.len(), 4 * faces.len());
    assert_eq!(buffers.uvs.len(), 4 * faces.len());
    assert_eq!(buffers.indices.len(), 6 * faces.len());
    for (k, quad) in buffers.indices.chunks(6).enumerate() {
        let b = 4 * k as u32;
        assert_eq!(quad, &[b, b + 2, b + 1, b + 1, b + 2, b + 3][..]);
    }
    for (k, f) in faces.iter().enumerate() {
        assert_eq!(&buffers.positions[4 * k..4 * k + 4], &f.positions(1)[..]);
        assert_eq!(&buffers.normals[4 * k..4 * k + 4], &f.normals()[..]);
    }
}
