use bevycraft::block::{Block, Visibility, Voxel};

#[test]
fn default_block_is_air() {
    assert_eq!(Block::default(), Block::Air);
}

#[test]
fn visibility_classes() {
    assert_eq!(Block::Air.visibility(), Visibility::Empty);
    assert_eq!(Block::Dirt.visibility(), Visibility::Opaque);
    assert_eq!(Block::Stone.visibility(), Visibility::Opaque);
    assert_eq!(Block::Glass.visibility(), Visibility::Transparent);
}

#[test]
fn opaque_shows_face_to_empty_and_transparent() {
    assert!(Block::Dirt.visible(&Block::Air));
    assert!(Block::Stone.visible(&Block::Air));
    assert!(Block::Dirt.visible(&Block::Glass));
    assert!(Block::Stone.visible(&Block::Glass));
}

#[test]
fn opaque_hides_face_from_opaque() {
    assert!(!Block::Dirt.visible(&Block::Dirt));
    assert!(!Block::Dirt.visible(&Block::Stone));
    assert!(!Block::Stone.visible(&Block::Dirt));
    assert!(!Block::Stone.visible(&Block::Stone));
}

#[test]
fn transparent_rows_of_the_table() {
    assert!(Block::Glass.visible(&Block::Air));
    assert!(!Block::Glass.visible(&Block::Glass));
    assert!(!Block::Glass.visible(&Block::Dirt));
    assert!(!Block::Glass.visible(&Block::Stone));
}

#[test]
fn empty_never_shows_a_face() {
    for other in [Block::Air, Block::Dirt, Block::Stone, Block::Glass] {
        assert!(!Block::Air.visible(&other));
    }
}

#[test]
fn visibility_is_directional() {
    assert!(Block::Dirt.visible(&Block::Glass));
    assert!(!Block::Glass.visible(&Block::Dirt));
}

#[test]
fn texture_keys() {
    assert_eq!(Block::Air.texture(), None);
    assert_eq!(Block::Dirt.texture(), Some("dirt.png"));
    assert_eq!(Block::Stone.texture(), Some("stone.png"));
    assert_eq!(Block::Glass.texture(), Some("glass.png"));
}
