use bevycraft::block::Block;
use bevycraft::chunk::{IVec3, MyChunk, CHUNK_LEN, CHUNK_SIDE};

#[test]
fn chunk_dimensions() {
    assert_eq!(CHUNK_SIDE, 16);
    assert_eq!(CHUNK_LEN, 16 * 16 * 16);
    assert_eq!(MyChunk::size(), 4096);
}

#[test]
fn linearize_exact_values() {
    assert_eq!(MyChunk::linearize(0, 0, 0), 0);
    assert_eq!(MyChunk::linearize(1, 0, 0), 1);
    assert_eq!(MyChunk::linearize(0, 1, 0), 16);
    assert_eq!(MyChunk::linearize(0, 0, 1), 256);
    assert_eq!(MyChunk::linearize(1, 2, 3), 801);
    assert_eq!(MyChunk::linearize(15, 15, 15), 4095);
}

#[test]
fn delinearize_exact_values() {
    assert_eq!(MyChunk::delinearize(0), (0, 0, 0));
    assert_eq!(MyChunk::delinearize(15), (15, 0, 0));
    assert_eq!(MyChunk::delinearize(16), (0, 1, 0));
    assert_eq!(MyChunk::delinearize(256), (0, 0, 1));
    assert_eq!(MyChunk::delinearize(801), (1, 2, 3));
    assert_eq!(MyChunk::delinearize(4095), (15, 15, 15));
}

#[test]
fn delinearize_after_linearize_is_identity() {
    for z in 0..CHUNK_SIDE {
        for y in 0..CHUNK_SIDE {
            for x in 0..CHUNK_SIDE {
                assert_eq!(MyChunk::delinearize(MyChunk::linearize(x, y, z)), (x, y, z));
            }
        }
    }
}

#[test]
fn linearize_after_delinearize_is_identity() {
    for i in 0..CHUNK_LEN {
        let (x, y, z) = MyChunk::delinearize(i);
        assert!(x < CHUNK_SIDE && y < CHUNK_SIDE && z < CHUNK_SIDE);
        assert_eq!(MyChunk::linearize(x, y, z), i);
    }
}

#[test]
fn default_chunk_is_all_air_at_origin() {
    let chunk = MyChunk::default();
    assert_eq!(chunk.position, IVec3::new(0, 0, 0));
    assert!(chunk.voxels.iter().all(|b| *b == Block::Air));
}

#[test]
fn flat_fills_exactly_the_four_lowest_layers() {
    let chunk = MyChunk::flat();
    assert_eq!(chunk.position, IVec3::new(0, 0, 0));
    let solid = chunk.voxels.iter().filter(|b| **b == Block::Dirt).count();
    assert_eq!(solid, 16 * 16 * 4);
    assert_eq!(solid, 1024);
    for z in 0..16 {
        for y in 0..16 {
            for x in 0..16 {
                let expected = if y <= 3 { Block::Dirt } else { Block::Air };
                assert_eq!(chunk.get(IVec3::new(x, y, z)), expected);
            }
        }
    }
}

#[test]
fn with_position_keeps_voxels() {
    let chunk = MyChunk::flat().with_position(IVec3::new(-1, 0, -1));
    assert_eq!(chunk.position, IVec3::new(-1, 0, -1));
    assert_eq!(chunk.voxels, MyChunk::flat().voxels);
}

#[test]
fn get_outside_the_chunk_is_air() {
    let chunk = MyChunk::flat();
    assert_eq!(chunk.get(IVec3::new(0, 0, 0)), Block::Dirt);
    assert_eq!(chunk.get(IVec3::new(15, 3, 15)), Block::Dirt);
    assert_eq!(chunk.get(IVec3::new(-1, 0, 0)), Block::Air);
    assert_eq!(chunk.get(IVec3::new(0, -1, 0)), Block::Air);
    assert_eq!(chunk.get(IVec3::new(0, 0, -1)), Block::Air);
    assert_eq!(chunk.get(IVec3::new(16, 0, 0)), Block::Air);
    assert_eq!(chunk.get(IVec3::new(0, 0, 16)), Block::Air);
    assert_eq!(chunk.get(IVec3::new(5, 16, 5)), Block::Air);
    assert_eq!(chunk.get(IVec3::new(i32::MIN, 0, 0)), Block::Air);
    assert_eq!(chunk.get(IVec3::new(0, i32::MAX, 0)), Block::Air);
}

#[test]
fn get_reads_the_linear_index() {
    let mut chunk = MyChunk::default();
    chunk.voxels[801] = Block::Stone;
    assert_eq!(chunk.get(IVec3::new(1, 2, 3)), Block::Stone);
    assert_eq!(chunk.get(IVec3::new(3, 2, 1)), Block::Air);
}

#[test]
fn set_stores_inside_and_ignores_outside() {
    let mut chunk = MyChunk::default();
    assert!(chunk.set(IVec3::new(1, 2, 3), Block::Glass));
    assert_eq!(chunk.voxels[801], Block::Glass);
    assert_eq!(chunk.get(IVec3::new(1, 2, 3)), Block::Glass);
    assert!(!chunk.set(IVec3::new(16, 0, 0), Block::Dirt));
    assert!(!chunk.set(IVec3::new(0, -1, 0), Block::Dirt));
    let stored = chunk.voxels.iter().filter(|b| **b != Block::Air).count();
    assert_eq!(stored, 1);
}

#[test]
fn world_origin_scales_the_chunk_position() {
    assert_eq!(MyChunk::default().world_origin(), [0, 0, 0]);
    let chunk = MyChunk::flat().with_position(IVec3::new(-1, 2, 3));
    assert_eq!(chunk.world_origin(), [-16, 32, 48]);
    let far = MyChunk::default().with_position(IVec3::new(i32::MIN, i32::MAX, 0));
    assert_eq!(far.world_origin(), [-34359738368, 34359738352, 0]);
}
