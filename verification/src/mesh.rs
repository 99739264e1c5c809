//! Meshing: the faces of a chunk that have to be drawn, and the vertex and
//! index buffers of a list of faces.

use vstd::prelude::*;
use crate::block::{Visibility, Voxel};
use crate::chunk::{
    spec_delinearize, spec_linearize, IVec3, MyChunk, UVec3, CHUNK_LEN, CHUNK_SIDE,
};
use crate::face::{pair_u32, quad_indices, quad_uvs, triple_i32, triple_u64, Face, Side};

verus! {

/// The position in the chunk of the voxel stored at `index`.
pub open spec fn position_of(index: int) -> IVec3 {
    IVec3 {
        x: spec_delinearize(index).0 as i32,
        y: spec_delinearize(index).1 as i32,
        z: spec_delinearize(index).2 as i32,
    }
}

/// The index at which the voxel at `pos` is stored.
pub open spec fn index_of(pos: IVec3) -> int {
    spec_linearize(pos.x as int, pos.y as int, pos.z as int)
}

/// Whether the voxel at `pos` draws its face on `side`: the face rule applied
/// to the voxel and its neighbour on that side, where everything outside the
/// chunk counts as air.
pub open spec fn face_shown(chunk: MyChunk, pos: IVec3, side: Side) -> bool {
    chunk.voxel_at(pos).shows_face_to(chunk.voxel_at(side.spec_neighbor(pos)))
}

/// The face on `side` of the voxel at `pos`.
pub open spec fn face_at(pos: IVec3, side: Side) -> Face {
    Face { position: UVec3 { x: pos.x as u32, y: pos.y as u32, z: pos.z as u32 }, side }
}

/// The faces that the voxel at `pos` draws on its first `sides` sides, in the
/// order of the sides.
pub open spec fn voxel_faces(chunk: MyChunk, pos: IVec3, sides: int) -> Seq<Face>
    decreases sides,
{
    if sides <= 0 {
        Seq::empty()
    } else {
        let earlier = voxel_faces(chunk, pos, sides - 1);
        let side = Side::spec_from_index(sides - 1);
        if face_shown(chunk, pos, side) {
            earlier.push(face_at(pos, side))
        } else {
            earlier
        }
    }
}

/// The faces that the first `voxels` voxels of the chunk draw, in the order
/// in which the voxels are stored.
pub open spec fn chunk_faces(chunk: MyChunk, voxels: int) -> Seq<Face>
    decreases voxels,
{
    if voxels <= 0 {
        Seq::empty()
    } else {
        chunk_faces(chunk, voxels - 1) + voxel_faces(chunk, position_of(voxels - 1), 6)
    }
}

/// The faces of a chunk's mesh: for each voxel in storage order, and for each
/// side in the order of the sides, the face there if it is drawn.
pub open spec fn mesh_faces(chunk: MyChunk) -> Seq<Face> {
    chunk_faces(chunk, CHUNK_LEN as int)
}

/// The six faces of the voxel at `pos`, limited to the first `sides` sides.
pub open spec fn all_faces(pos: IVec3, sides: int) -> Seq<Face> {
    Seq::new(sides as nat, |s: int| face_at(pos, Side::spec_from_index(s)))
}

/// A voxel of the empty class draws no face.
pub proof fn lemma_empty_voxel_has_no_faces(chunk: MyChunk, pos: IVec3, sides: int)
    requires
        chunk.voxel_at(pos).spec_visibility() == Visibility::Empty,
    ensures
        voxel_faces(chunk, pos, sides) == Seq::<Face>::empty(),
    decreases sides,
{
    if sides > 0 {
        lemma_empty_voxel_has_no_faces(chunk, pos, sides - 1);
    }
}

/// A voxel that draws a face on each of its first `sides` sides draws exactly
/// those faces, in the order of the sides.
pub proof fn lemma_voxel_with_all_faces(chunk: MyChunk, pos: IVec3, sides: int)
    requires
        0 <= sides <= 6,
        forall|s: int| 0 <= s < sides ==> face_shown(chunk, pos, Side::spec_from_index(s)),
    ensures
        voxel_faces(chunk, pos, sides) == all_faces(pos, sides),
    decreases sides,
{
    if sides > 0 {
        lemma_voxel_with_all_faces(chunk, pos, sides - 1);
    }
    assert(voxel_faces(chunk, pos, sides) =~= all_faces(pos, sides));
}

/// A lookup at the position of a stored voxel gives that voxel.
pub proof fn lemma_voxel_at_position_of(chunk: MyChunk, index: int)
    requires
        0 <= index < CHUNK_LEN,
    ensures
        position_of(index).in_chunk(),
        index_of(position_of(index)) == index,
        chunk.voxel_at(position_of(index)) == chunk.voxels[index],
{
}

/// While the first `voxels` voxels of a chunk are all of the empty class,
/// they draw no face.
proof fn lemma_empty_prefix(chunk: MyChunk, voxels: int)
    requires
        0 <= voxels <= CHUNK_LEN,
        forall|i: int|
            0 <= i < voxels ==> (#[trigger] chunk.voxels[i]).spec_visibility()
                == Visibility::Empty,
    ensures
        chunk_faces(chunk, voxels) == Seq::<Face>::empty(),
    decreases voxels,
{
    if voxels > 0 {
        lemma_empty_prefix(chunk, voxels - 1);
        lemma_voxel_at_position_of(chunk, voxels - 1);
        assert(chunk.voxels[voxels - 1].spec_visibility() == Visibility::Empty);
        lemma_empty_voxel_has_no_faces(chunk, position_of(voxels - 1), 6);
        assert(chunk_faces(chunk, voxels) =~= Seq::<Face>::empty());
    }
}

/// A chunk whose voxels are all of the empty class has an empty mesh.
pub proof fn lemma_empty_chunk_has_no_faces(chunk: MyChunk)
    requires
        forall|i: int|
            0 <= i < CHUNK_LEN ==> (#[trigger] chunk.voxels[i]).spec_visibility()
                == Visibility::Empty,
    ensures
        mesh_faces(chunk) == Seq::<Face>::empty(),
{
    lemma_empty_prefix(chunk, CHUNK_LEN as int);
}

/// The side across from this one.
pub open spec fn opposite(side: Side) -> Side {
    match side {
        Side::Left => Side::Right,
        Side::Right => Side::Left,
        Side::Bottom => Side::Top,
        Side::Top => Side::Bottom,
        Side::Front => Side::Back,
        Side::Back => Side::Front,
    }
}

/// Whether every voxel of the chunk but those stored at `a` and `b` is of
/// the empty class.
pub open spec fn empty_but(chunk: MyChunk, a: int, b: int) -> bool {
    forall|i: int|
        0 <= i < CHUNK_LEN && i != a && i != b ==> (#[trigger] chunk.voxels[i]).spec_visibility()
            == Visibility::Empty
}

/// A position inside the chunk is the position of the index it is stored at.
pub proof fn lemma_position_of_index_of(pos: IVec3)
    requires
        pos.in_chunk(),
    ensures
        0 <= index_of(pos) < CHUNK_LEN,
        position_of(index_of(pos)) == pos,
{
}

/// In a chunk that is empty but for the voxels stored at `a` and `b`, a
/// lookup at any other position gives a voxel of the empty class.
proof fn lemma_elsewhere_is_empty(chunk: MyChunk, a: int, b: int, pos: IVec3)
    requires
        0 <= a < CHUNK_LEN,
        0 <= b < CHUNK_LEN,
        empty_but(chunk, a, b),
        pos != position_of(a),
        pos != position_of(b),
    ensures
        chunk.voxel_at(pos).spec_visibility() == Visibility::Empty,
{
    if pos.in_chunk() {
        lemma_position_of_index_of(pos);
        let i = index_of(pos);
        assert(chunk.voxels[i].spec_visibility() == Visibility::Empty);
    }
}

/// The number of faces of a voxel that draws a face on every side but the
/// one at place `hidden` of the order of the sides.
proof fn lemma_one_hidden_face(chunk: MyChunk, pos: IVec3, hidden: int, sides: int)
    requires
        0 <= sides <= 6,
        forall|s: int|
            0 <= s < 6 ==> face_shown(chunk, pos, #[trigger] Side::spec_from_index(s)) == (s
                != hidden),
    ensures
        voxel_faces(chunk, pos, sides).len() == (if 0 <= hidden < sides {
            sides - 1
        } else {
            sides
        }),
    decreases sides,
{
    if sides > 0 {
        lemma_one_hidden_face(chunk, pos, hidden, sides - 1);
        assert(face_shown(chunk, pos, Side::spec_from_index(sides - 1)) == (sides - 1 != hidden));
    }
}

/// A voxel that is not empty, in a chunk in which everything else is empty,
/// has six faces.
proof fn lemma_lone_voxel(chunk: MyChunk, a: int)
    requires
        0 <= a < CHUNK_LEN,
        empty_but(chunk, a, a),
        chunk.voxels[a].spec_visibility() != Visibility::Empty,
    ensures
        voxel_faces(chunk, position_of(a), 6) == all_faces(position_of(a), 6),
{
    let pos = position_of(a);
    lemma_voxel_at_position_of(chunk, a);
    assert forall|s: int| 0 <= s < 6 implies face_shown(
        chunk,
        pos,
        #[trigger] Side::spec_from_index(s),
    ) by {
        let side = Side::spec_from_index(s);
        lemma_elsewhere_is_empty(chunk, a, a, side.spec_neighbor(pos));
    }
    lemma_voxel_with_all_faces(chunk, pos, 6);
}

/// The faces of the first `voxels` voxels of a chunk whose only voxel that
/// is not empty is stored at `a`.
proof fn lemma_lone_voxel_prefix(chunk: MyChunk, a: int, voxels: int)
    requires
        0 <= a < CHUNK_LEN,
        0 <= voxels <= CHUNK_LEN,
        empty_but(chunk, a, a),
        chunk.voxels[a].spec_visibility() != Visibility::Empty,
    ensures
        chunk_faces(chunk, voxels) == (if voxels <= a {
            Seq::<Face>::empty()
        } else {
            all_faces(position_of(a), 6)
        }),
    decreases voxels,
{
    if voxels > 0 {
        let i = voxels - 1;
        lemma_lone_voxel_prefix(chunk, a, i);
        lemma_voxel_at_position_of(chunk, i);
        if i == a {
            lemma_lone_voxel(chunk, a);
            assert(Seq::<Face>::empty() + all_faces(position_of(a), 6) =~= all_faces(
                position_of(a),
                6,
            ));
        } else {
            assert(chunk.voxels[i].spec_visibility() == Visibility::Empty);
            lemma_empty_voxel_has_no_faces(chunk, position_of(i), 6);
            assert(chunk_faces(chunk, i) + Seq::<Face>::empty() =~= chunk_faces(chunk, i));
        }
    }
}

/// A chunk with one voxel that is not empty has exactly the six faces of
/// that voxel, one on each side, in the order of the sides.
pub proof fn lemma_single_voxel_has_six_faces(chunk: MyChunk, index: int)
    requires
        0 <= index < CHUNK_LEN,
        chunk.voxels[index].spec_visibility() != Visibility::Empty,
        empty_but(chunk, index, index),
    ensures
        mesh_faces(chunk) == all_faces(position_of(index), 6),
        mesh_faces(chunk).len() == 6,
        forall|s: int|
            0 <= s < 6 ==> mesh_faces(chunk)[s] == face_at(
                position_of(index),
                Side::spec_from_index(s),
            ),
{
    lemma_lone_voxel_prefix(chunk, index, CHUNK_LEN as int);
}

/// Of two opaque voxels next to one another in an otherwise empty chunk,
/// the one stored at `a` has five faces: all but the one toward the other.
proof fn lemma_paired_voxel(chunk: MyChunk, a: int, b: int, side: Side)
    requires
        0 <= a < CHUNK_LEN,
        0 <= b < CHUNK_LEN,
        position_of(b) == side.spec_neighbor(position_of(a)),
        empty_but(chunk, a, b),
        chunk.voxels[a].spec_visibility() == Visibility::Opaque,
        chunk.voxels[b].spec_visibility() == Visibility::Opaque,
    ensures
        voxel_faces(chunk, position_of(a), 6).len() == 5,
{
    let pos = position_of(a);
    let hidden = side.spec_index();
    lemma_voxel_at_position_of(chunk, a);
    lemma_voxel_at_position_of(chunk, b);
    assert forall|s: int| 0 <= s < 6 implies face_shown(
        chunk,
        pos,
        #[trigger] Side::spec_from_index(s),
    ) == (s != hidden) by {
        let other = Side::spec_from_index(s);
        if s != hidden {
            lemma_elsewhere_is_empty(chunk, a, b, other.spec_neighbor(pos));
        } else {
            assert(other == side);
        }
    }
    lemma_one_hidden_face(chunk, pos, hidden, 6);
}

/// The number of faces of the first `voxels` voxels of a chunk that is empty
/// but for two opaque voxels next to one another, stored at `a` and at `b`.
proof fn lemma_pair_prefix(chunk: MyChunk, a: int, b: int, side: Side, voxels: int)
    requires
        0 <= a < CHUNK_LEN,
        0 <= b < CHUNK_LEN,
        0 <= voxels <= CHUNK_LEN,
        position_of(b) == side.spec_neighbor(position_of(a)),
        empty_but(chunk, a, b),
        chunk.voxels[a].spec_visibility() == Visibility::Opaque,
        chunk.voxels[b].spec_visibility() == Visibility::Opaque,
    ensures
        chunk_faces(chunk, voxels).len() == (if a < voxels {
            5int
        } else {
            0int
        }) + (if b < voxels {
            5int
        } else {
            0int
        }),
    decreases voxels,
{
    if voxels > 0 {
        let i = voxels - 1;
        lemma_pair_prefix(chunk, a, b, side, i);
        lemma_voxel_at_position_of(chunk, i);
        lemma_voxel_at_position_of(chunk, a);
        lemma_voxel_at_position_of(chunk, b);
        assert(a != b);
        if i == a {
            lemma_paired_voxel(chunk, a, b, side);
        } else if i == b {
            assert(position_of(a) == opposite(side).spec_neighbor(position_of(b)));
            assert(empty_but(chunk, b, a));
            lemma_paired_voxel(chunk, b, a, opposite(side));
        } else {
            assert(chunk.voxels[i].spec_visibility() == Visibility::Empty);
            lemma_empty_voxel_has_no_faces(chunk, position_of(i), 6);
        }
    }
}

/// A chunk that is empty but for two opaque voxels, the second next to the
/// first on `side`, has ten faces: each voxel's six without the one that
/// the other voxel covers.
pub proof fn lemma_two_adjacent_voxels_have_ten_faces(chunk: MyChunk, a: int, b: int, side: Side)
    requires
        0 <= a < CHUNK_LEN,
        0 <= b < CHUNK_LEN,
        position_of(b) == side.spec_neighbor(position_of(a)),
        empty_but(chunk, a, b),
        chunk.voxels[a].spec_visibility() == Visibility::Opaque,
        chunk.voxels[b].spec_visibility() == Visibility::Opaque,
    ensures
        mesh_faces(chunk).len() == 10,
{
    lemma_pair_prefix(chunk, a, b, side, CHUNK_LEN as int);
}

/// The position of a face's voxel as a signed vector.
pub open spec fn voxel_of(face: Face) -> IVec3 {
    IVec3 { x: face.position.x as i32, y: face.position.y as i32, z: face.position.z as i32 }
}

/// Whether `face` is a face of a voxel of `chunk` that has to be drawn.
pub open spec fn is_drawn(chunk: MyChunk, face: Face) -> bool {
    &&& face.position.x < 16
    &&& face.position.y < 16
    &&& face.position.z < 16
    &&& face_shown(chunk, voxel_of(face), face.side)
}

/// The place of a face in the order of a mesh: voxels in storage order, and
/// the faces of one voxel in the order of the sides.
pub open spec fn face_rank(face: Face) -> int {
    6 * index_of(voxel_of(face)) + face.side.spec_index()
}

/// The faces of one voxel's first `sides` sides are the drawn ones among
/// them, each once, in the order of the sides.
proof fn lemma_voxel_faces_are_the_drawn(chunk: MyChunk, pos: IVec3, sides: int)
    requires
        pos.in_chunk(),
        0 <= sides <= 6,
    ensures
        forall|k: int|
            0 <= k < voxel_faces(chunk, pos, sides).len() ==> {
                let f = #[trigger] voxel_faces(chunk, pos, sides)[k];
                &&& voxel_of(f) == pos
                &&& is_drawn(chunk, f)
                &&& f.side.spec_index() < sides
            },
        forall|j: int, k: int|
            0 <= j < k < voxel_faces(chunk, pos, sides).len() ==> face_rank(
                #[trigger] voxel_faces(chunk, pos, sides)[j],
            ) < face_rank(#[trigger] voxel_faces(chunk, pos, sides)[k]),
        forall|side: Side|
            side.spec_index() < sides && #[trigger] face_shown(chunk, pos, side) ==> voxel_faces(
                chunk,
                pos,
                sides,
            ).contains(face_at(pos, side)),
    decreases sides,
{
    if sides > 0 {
        lemma_voxel_faces_are_the_drawn(chunk, pos, sides - 1);
        let earlier = voxel_faces(chunk, pos, sides - 1);
        let now = voxel_faces(chunk, pos, sides);
        let last = Side::spec_from_index(sides - 1);
        assert(last.spec_index() == sides - 1);
        assert forall|side: Side|
            side.spec_index() < sides && #[trigger] face_shown(
                chunk,
                pos,
                side,
            ) implies now.contains(face_at(pos, side)) by {
            if side.spec_index() < sides - 1 {
                let k = choose|k: int| 0 <= k < earlier.len() && earlier[k] == face_at(pos, side);
                assert(now[k] == face_at(pos, side));
            } else {
                assert(side == last);
                assert(now[now.len() - 1] == face_at(pos, side));
            }
        }
    }
}

/// The faces of the first `voxels` voxels of a chunk are the drawn ones
/// among their faces, each once, in the order of the mesh.
proof fn lemma_chunk_faces_are_the_drawn(chunk: MyChunk, voxels: int)
    requires
        0 <= voxels <= CHUNK_LEN,
    ensures
        forall|k: int|
            0 <= k < chunk_faces(chunk, voxels).len() ==> {
                let f = #[trigger] chunk_faces(chunk, voxels)[k];
                &&& is_drawn(chunk, f)
                &&& face_rank(f) < 6 * voxels
            },
        forall|j: int, k: int|
            0 <= j < k < chunk_faces(chunk, voxels).len() ==> face_rank(
                #[trigger] chunk_faces(chunk, voxels)[j],
            ) < face_rank(#[trigger] chunk_faces(chunk, voxels)[k]),
        forall|f: Face|
            #[trigger] is_drawn(chunk, f) && face_rank(f) < 6 * voxels ==> chunk_faces(
                chunk,
                voxels,
            ).contains(f),
    decreases voxels,
{
    if voxels > 0 {
        let i = voxels - 1;
        let pos = position_of(i);
        lemma_chunk_faces_are_the_drawn(chunk, i);
        lemma_voxel_at_position_of(chunk, i);
        lemma_voxel_faces_are_the_drawn(chunk, pos, 6);
        let earlier = chunk_faces(chunk, i);
        let own = voxel_faces(chunk, pos, 6);
        let now = chunk_faces(chunk, voxels);
        assert(now == earlier + own);
        assert forall|k: int| 0 <= k < now.len() implies {
            let f = #[trigger] now[k];
            &&& is_drawn(chunk, f)
            &&& face_rank(f) < 6 * voxels
            &&& (k < earlier.len() ==> face_rank(f) < 6 * i)
            &&& (k >= earlier.len() ==> face_rank(f) >= 6 * i)
        } by {
            if k < earlier.len() {
                assert(now[k] == earlier[k]);
            } else {
                assert(now[k] == own[k - earlier.len()]);
            }
        }
        assert forall|j: int, k: int| 0 <= j < k < now.len() implies face_rank(#[trigger] now[j])
            < face_rank(#[trigger] now[k]) by {
            if k < earlier.len() {
                assert(now[j] == earlier[j] && now[k] == earlier[k]);
            } else if j >= earlier.len() {
                assert(now[j] == own[j - earlier.len()]);
                assert(now[k] == own[k - earlier.len()]);
            }
        }
        assert forall|f: Face| #[trigger]
            is_drawn(chunk, f) && face_rank(f) < 6 * voxels implies now.contains(f) by {
            if face_rank(f) < 6 * i {
                let k = choose|k: int| 0 <= k < earlier.len() && earlier[k] == f;
                assert(now[k] == f);
            } else {
                lemma_position_of_index_of(voxel_of(f));
                assert(index_of(voxel_of(f)) == i);
                assert(voxel_of(f) == pos);
                assert(f == face_at(pos, f.side));
                let k = choose|k: int| 0 <= k < own.len() && own[k] == f;
                assert(now[earlier.len() + k] == f);
            }
        }
    }
}

/// What a chunk's mesh is made of: a face is in the mesh if and only if it
/// is a face of a voxel of the chunk that the face rule asks to draw, and
/// the faces stand in the order of their voxels and sides, so none stands
/// there twice.
pub proof fn lemma_mesh_is_the_drawn_faces(chunk: MyChunk)
    ensures
        forall|f: Face| #[trigger] mesh_faces(chunk).contains(f) <==> is_drawn(chunk, f),
        forall|j: int, k: int|
            0 <= j < k < mesh_faces(chunk).len() ==> face_rank(#[trigger] mesh_faces(chunk)[j])
                < face_rank(#[trigger] mesh_faces(chunk)[k]),
        mesh_faces(chunk).no_duplicates(),
{
    lemma_chunk_faces_are_the_drawn(chunk, CHUNK_LEN as int);
    let mesh = mesh_faces(chunk);
    assert forall|f: Face| #[trigger] mesh.contains(f) <==> is_drawn(chunk, f) by {
        if mesh.contains(f) {
            let k = choose|k: int| 0 <= k < mesh.len() && mesh[k] == f;
            assert(is_drawn(chunk, mesh[k]));
        }
        if is_drawn(chunk, f) {
            assert(face_rank(f) < 6 * CHUNK_LEN);
        }
    }
    assert forall|j: int, k: int| 0 <= j < mesh.len() && 0 <= k < mesh.len() && j != k implies mesh[j]
        != mesh[k] by {
        if j < k {
            assert(face_rank(mesh[j]) < face_rank(mesh[k]));
        } else {
            assert(face_rank(mesh[k]) < face_rank(mesh[j]));
        }
    }
}

/// In flat terrain the faces that point up are those of the voxels at
/// height 3, the highest layer of dirt.
pub proof fn lemma_flat_top_faces(chunk: MyChunk, face: Face)
    requires
        forall|i: int| 0 <= i < CHUNK_LEN ==> chunk.voxels[i] == MyChunk::flat_block(i),
        face.side == Side::Top,
    ensures
        mesh_faces(chunk).contains(face) <==> (face.position.x < 16 && face.position.y == 3
            && face.position.z < 16),
{
    lemma_mesh_is_the_drawn_faces(chunk);
    if face.position.x < 16 && face.position.y < 16 && face.position.z < 16 {
        let pos = voxel_of(face);
        let above = Side::Top.spec_neighbor(pos);
        lemma_position_of_index_of(pos);
        assert(chunk.voxels[index_of(pos)] == MyChunk::flat_block(index_of(pos)));
        if above.in_chunk() {
            lemma_position_of_index_of(above);
            assert(chunk.voxels[index_of(above)] == MyChunk::flat_block(index_of(above)));
        }
    }
}

/// The faces of a chunk that have to be drawn.
///
/// Voxels are visited in storage order and the sides of each in their fixed
/// order; a face is listed where the face rule asks for it. Positions outside
/// the chunk count as air, so a voxel on the chunk's border always draws its
/// outward face.
pub fn simple_mesh(chunk: &MyChunk) -> (buffer: Vec<Face>)
    ensures
        buffer@ == mesh_faces(*chunk),
{
    assert(CHUNK_SIDE >= 2);
    let mut buffer: Vec<Face> = Vec::new();
    let mut i: usize = 0;
    while i < CHUNK_LEN
        invariant
            i <= CHUNK_LEN,
            buffer@ == chunk_faces(*chunk, i as int),
        decreases CHUNK_LEN - i,
    {
        let (x, y, z) = MyChunk::delinearize(i);
        let pos = IVec3::new(x as i32, y as i32, z as i32);
        let voxel = chunk.get(pos);
        proof {
            lemma_voxel_at_position_of(*chunk, i as int);
        }
        assert(pos == position_of(i as int));

        if voxel.visibility() == Visibility::Empty {
            proof {
                lemma_empty_voxel_has_no_faces(*chunk, pos, 6);
                assert(buffer@ + Seq::<Face>::empty() =~= buffer@);
            }
        } else {
            let ghost before = buffer@;
            let mut s: usize = 0;
            while s < 6
                invariant
                    s <= 6,
                    pos.in_chunk(),
                    voxel == chunk.voxel_at(pos),
                    buffer@ == before + voxel_faces(*chunk, pos, s as int),
                decreases 6 - s,
            {
                let side = Side::from_index(s);
                let neighbor = chunk.get(side.neighbor(pos));
                if voxel.visible(&neighbor) {
                    buffer.push(Face { position: pos.as_uvec3(), side });
                }
                s += 1;
                assert(buffer@ =~= before + voxel_faces(*chunk, pos, s as int));
            }
        }
        i += 1;
    }
    buffer
}

/// The buffers of one mesh: four vertices and six indices for each face.
pub struct MeshBuffers {
    /// The position of each vertex.
    pub positions: Vec<[u64; 3]>,
    /// The triangles, three indices into the vertices each.
    pub indices: Vec<u32>,
    /// The normal at each vertex.
    pub normals: Vec<[i32; 3]>,
    /// The texture coordinate at each vertex.
    pub uvs: Vec<[u32; 2]>,
}

impl MeshBuffers {
    /// Whether these are the buffers of `faces` for voxels of `voxel_size`
    /// units: face `k` owns the vertices `4k .. 4k + 4` and the indices
    /// `6k .. 6k + 6`, which form the quad's two triangles over its own
    /// vertices.
    pub open spec fn holds(&self, faces: Seq<Face>, voxel_size: int) -> bool {
        &&& self.positions@.len() == 4 * faces.len()
        &&& self.normals@.len() == 4 * faces.len()
        &&& self.uvs@.len() == 4 * faces.len()
        &&& self.indices@.len() == 6 * faces.len()
        &&& forall|v: int|
            0 <= v < 4 * faces.len() ==> triple_u64(#[trigger] self.positions@[v]) == faces[v
                / 4].spec_position(voxel_size, v % 4)
        &&& forall|v: int|
            0 <= v < 4 * faces.len() ==> triple_i32(#[trigger] self.normals@[v]) == faces[v
                / 4].side.spec_normal()
        &&& forall|v: int|
            0 <= v < 4 * faces.len() ==> pair_u32(#[trigger] self.uvs@[v]) == quad_uvs()[v % 4]
        &&& forall|t: int|
            0 <= t < 6 * faces.len() ==> (#[trigger] self.indices@[t]) as int == quad_indices(
                4 * (t / 6),
            )[t % 6]
    }
}

/// Every index of a quad refers to one of the quad's own four vertices, and
/// each of those vertices is referred to.
pub proof fn lemma_quad_indices_cover_quad(start: int)
    ensures
        quad_indices(start).len() == 6,
        forall|j: int| 0 <= j < 6 ==> start <= #[trigger] quad_indices(start)[j] < start + 4,
        forall|v: int| start <= v < start + 4 ==> quad_indices(start).contains(v),
{
    let q = quad_indices(start);
    assert(q[0] == start && q[2] == start + 1 && q[1] == start + 2 && q[5] == start + 3);
}

/// In the buffers of a list of faces, every index of a face refers to one of
/// the four vertices of that same face, and so to a vertex that the buffers
/// hold.
pub proof fn lemma_indices_stay_in_own_quad(
    buffers: MeshBuffers,
    faces: Seq<Face>,
    voxel_size: int,
    t: int,
)
    requires
        buffers.holds(faces, voxel_size),
        0 <= t < 6 * faces.len(),
    ensures
        4 * (t / 6) <= buffers.indices@[t] < 4 * (t / 6) + 4,
        buffers.indices@[t] < buffers.positions@.len(),
{
    lemma_quad_indices_cover_quad(4 * (t / 6));
    assert(buffers.indices@[t] as int == quad_indices(4 * (t / 6))[t % 6]);
}

/// The vertex and index buffers of a list of faces, for voxels of
/// `voxel_size` units. The faces' vertices follow one another, four for each
/// face, and so do their indices, six for each face.
pub fn build_buffers(faces: &Vec<Face>, voxel_size: u32) -> (r: MeshBuffers)
    requires
        4 * faces@.len() <= u32::MAX,
    ensures
        r.holds(faces@, voxel_size as int),
{
    let mut positions: Vec<[u64; 3]> = Vec::new();
    let mut indices: Vec<u32> = Vec::new();
    let mut normals: Vec<[i32; 3]> = Vec::new();
    let mut uvs: Vec<[u32; 2]> = Vec::new();
    let mut k: usize = 0;
    while k < faces.len()
        invariant
            k <= faces@.len(),
            4 * faces@.len() <= u32::MAX,
            (MeshBuffers { positions, indices, normals, uvs }).holds(
                faces@.take(k as int),
                voxel_size as int,
            ),
        decreases faces@.len() - k,
    {
        let face = faces[k];
        let start: u32 = positions.len() as u32;
        let quad = face.indices(start);
        let corners = face.positions(voxel_size);
        let face_normals = face.normals();
        let face_uvs = face.uvs();
        let ghost done = faces@.take(k as int);
        let ghost next = faces@.take(k + 1);
        assert(forall|f: int| 0 <= f < k ==> next[f] == done[f]);
        assert(next[k as int] == face);
        assert(forall|j: int|
            0 <= j < 6 ==> (#[trigger] quad@[j]) as int == quad_indices(start as int)[j]) by {
            assert forall|j: int| 0 <= j < 6 implies (#[trigger] quad@[j]) as int == quad_indices(
                start as int,
            )[j] by {
                assert(quad@.map_values(|v: u32| v as int)[j] == quad@[j] as int);
            }
        }
        let mut j: usize = 0;
        while j < 6
            invariant
                j <= 6,
                indices@.len() == 6 * k + j,
                start == 4 * k,
                forall|t: int|
                    0 <= t < 6 * k + j ==> (#[trigger] indices@[t]) as int == quad_indices(
                        4 * (t / 6),
                    )[t % 6],
                forall|j: int|
                    0 <= j < 6 ==> (#[trigger] quad@[j]) as int == quad_indices(start as int)[j],
            decreases 6 - j,
        {
            indices.push(quad[j]);
            j += 1;
        }
        let mut j: usize = 0;
        while j < 4
            invariant
                j <= 4,
                k < faces@.len(),
                face == faces@[k as int],
                next == faces@.take(k + 1),
                done == faces@.take(k as int),
                positions@.len() == 4 * k + j,
                normals@.len() == 4 * k + j,
                uvs@.len() == 4 * k + j,
                forall|v: int|
                    0 <= v < 4 * k + j ==> triple_u64(#[trigger] positions@[v]) == next[v
                        / 4].spec_position(voxel_size as int, v % 4),
                forall|v: int|
                    0 <= v < 4 * k + j ==> triple_i32(#[trigger] normals@[v]) == next[v
                        / 4].side.spec_normal(),
                forall|v: int|
                    0 <= v < 4 * k + j ==> pair_u32(#[trigger] uvs@[v]) == quad_uvs()[v % 4],
                forall|c: int|
                    0 <= c < 4 ==> triple_u64(#[trigger] corners[c]) == face.spec_position(
                        voxel_size as int,
                        c,
                    ),
                forall|c: int|
                    0 <= c < 4 ==> triple_i32(#[trigger] face_normals[c])
                        == face.side.spec_normal(),
                forall|c: int| 0 <= c < 4 ==> pair_u32(#[trigger] face_uvs[c]) == quad_uvs()[c],
            decreases 4 - j,
        {
            positions.push(corners[j]);
            normals.push(face_normals[j]);
            uvs.push(face_uvs[j]);
            j += 1;
        }
        k += 1;
    }
    assert(faces@.take(k as int) =~= faces@);
    MeshBuffers { positions, indices, normals, uvs }
}

} // verus!
