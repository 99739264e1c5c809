//! The chunk manager's bookkeeping: the chunk that the observer stands in,
//! the chunks that are resident and the state of each, and which chunk
//! coordinates lie within the render distance.

use vstd::prelude::*;
use crate::chunk::IVec3;

verus! {

/// How many chunks away from the observer's chunk, along each axis, a chunk
/// is still kept resident.
pub const RENDER_DISTANCE: usize = 12;

/// The state of a resident chunk.
#[derive(Clone, Copy, Debug, PartialEq, Eq, Structural)]
pub enum ChunkState {
    /// Resident, its first mesh not built yet. Every chunk starts here.
    Loading,
    /// Out of range and about to be removed. Nothing leads out of this state.
    Unloading,
    /// Its contents changed and its mesh has to be built again.
    Refreshing,
    /// Its mesh is up to date.
    Loaded,
}

impl Default for ChunkState {
    fn default() -> (r: ChunkState)
        ensures
            r == ChunkState::Loading,
    {
        ChunkState::Loading
    }
}

/// What can happen to a resident chunk.
#[derive(Clone, Copy, Debug, PartialEq, Eq, Structural)]
pub enum ChunkEvent {
    /// The chunk's mesh was built.
    Meshed,
    /// The chunk's contents were edited.
    Edited,
    /// The chunk is no longer within the render distance.
    LeftRange,
}

impl ChunkState {
    /// The state that follows this one on `event`.
    pub open spec fn spec_after(self, event: ChunkEvent) -> ChunkState {
        match (self, event) {
            (ChunkState::Unloading, _) => ChunkState::Unloading,
            (_, ChunkEvent::LeftRange) => ChunkState::Unloading,
            (ChunkState::Loading, ChunkEvent::Meshed) => ChunkState::Loaded,
            (ChunkState::Refreshing, ChunkEvent::Meshed) => ChunkState::Loaded,
            (ChunkState::Loaded, ChunkEvent::Meshed) => ChunkState::Loaded,
            (ChunkState::Loading, ChunkEvent::Edited) => ChunkState::Loading,
            (ChunkState::Refreshing, ChunkEvent::Edited) => ChunkState::Refreshing,
            (ChunkState::Loaded, ChunkEvent::Edited) => ChunkState::Refreshing,
        }
    }

    /// Whether a chunk in this state is waiting for its mesh to be built.
    pub open spec fn spec_needs_mesh(self) -> bool {
        self == ChunkState::Loading || self == ChunkState::Refreshing
    }

    /// The state that follows this one on `event`.
    pub fn after(self, event: ChunkEvent) -> (r: ChunkState)
        ensures
            r == self.spec_after(event),
    {
        match self {
            ChunkState::Unloading => ChunkState::Unloading,
            ChunkState::Loading => match event {
                ChunkEvent::LeftRange => ChunkState::Unloading,
                ChunkEvent::Meshed => ChunkState::Loaded,
                ChunkEvent::Edited => ChunkState::Loading,
            },
            ChunkState::Refreshing => match event {
                ChunkEvent::LeftRange => ChunkState::Unloading,
                ChunkEvent::Meshed => ChunkState::Loaded,
                ChunkEvent::Edited => ChunkState::Refreshing,
            },
            ChunkState::Loaded => match event {
                ChunkEvent::LeftRange => ChunkState::Unloading,
                ChunkEvent::Meshed => ChunkState::Loaded,
                ChunkEvent::Edited => ChunkState::Refreshing,
            },
        }
    }

    /// Whether a chunk in this state is waiting for its mesh to be built.
    pub fn needs_mesh(self) -> (r: bool)
        ensures
            r == self.spec_needs_mesh(),
    {
        match self {
            ChunkState::Loading => true,
            ChunkState::Refreshing => true,
            _ => false,
        }
    }
}

/// The chunk that holds the voxel at `pos`: each component divided by the
/// chunk's side and rounded down.
pub open spec fn spec_chunk_of(pos: IVec3) -> IVec3 {
    IVec3 { x: (pos.x / 16) as i32, y: (pos.y / 16) as i32, z: (pos.z / 16) as i32 }
}

/// What observing the voxel position `pos` does when the current chunk is
/// `current`: the new current chunk, and whether it is another than before.
pub open spec fn spec_observe(current: IVec3, pos: IVec3) -> (IVec3, bool) {
    (spec_chunk_of(pos), current != spec_chunk_of(pos))
}

/// One component of a position divided by the chunk's side, rounded down.
pub fn chunk_coordinate(v: i32) -> (r: i32)
    ensures
        r == v / 16,
        16 * r <= v < 16 * r + 16,
{
    if v >= 0 {
        v / 16
    } else {
        -((-(v + 1)) / 16) - 1
    }
}

/// The chunk that holds the voxel at `pos`.
pub fn chunk_of(pos: IVec3) -> (r: IVec3)
    ensures
        r == spec_chunk_of(pos),
{
    IVec3 { x: chunk_coordinate(pos.x), y: chunk_coordinate(pos.y), z: chunk_coordinate(pos.z) }
}

/// The chunk that the observer stands in.
#[derive(Clone, Copy, Debug, PartialEq, Eq, Structural)]
pub struct CurrentChunk(pub IVec3);

impl CurrentChunk {
    /// Records that the observer stands in chunk `chunk_pos`, and says
    /// whether that is another chunk than before.
    pub fn update(&mut self, chunk_pos: IVec3) -> (changed: bool)
        ensures
            final(self).0 == chunk_pos,
            changed == (old(self).0 != chunk_pos),
    {
        if self.0 != chunk_pos {
            self.0 = chunk_pos;
            true
        } else {
            false
        }
    }

    /// Records that the observer stands at the voxel position `pos`, and
    /// says whether that moved it into another chunk.
    pub fn observe(&mut self, pos: IVec3) -> (changed: bool)
        ensures
            (final(self).0, changed) == spec_observe(old(self).0, pos),
    {
        let chunk_pos = chunk_of(pos);
        self.update(chunk_pos)
    }
}

/// When the observer moves from one voxel position to a second one, the
/// current chunk changes at the second if and only if the two positions lie
/// in different chunks: once for each crossing of a chunk's border, and never
/// while the observer stays within one chunk.
pub proof fn lemma_change_once_per_crossing(current: IVec3, first: IVec3, second: IVec3)
    ensures
        spec_observe(spec_observe(current, first).0, second).1 == (spec_chunk_of(first)
            != spec_chunk_of(second)),
        !spec_observe(spec_observe(current, first).0, first).1,
{
}

/// The chunk of a voxel position is the one whose sixteen voxels along each
/// axis include the position.
pub proof fn lemma_chunk_of_bounds(pos: IVec3)
    ensures
        16 * spec_chunk_of(pos).x <= pos.x < 16 * spec_chunk_of(pos).x + 16,
        16 * spec_chunk_of(pos).y <= pos.y < 16 * spec_chunk_of(pos).y + 16,
        16 * spec_chunk_of(pos).z <= pos.z < 16 * spec_chunk_of(pos).z + 16,
{
}

/// The distance between two chunk coordinates: the largest difference along
/// an axis.
pub open spec fn chunk_distance(a: IVec3, b: IVec3) -> int {
    let dx = if a.x >= b.x { a.x - b.x } else { b.x - a.x };
    let dy = if a.y >= b.y { a.y - b.y } else { b.y - a.y };
    let dz = if a.z >= b.z { a.z - b.z } else { b.z - a.z };
    if dx >= dy && dx >= dz {
        dx
    } else if dy >= dz {
        dy
    } else {
        dz
    }
}

/// Whether the chunk at `coordinate` is within the render distance of the
/// chunk at `center`.
pub open spec fn spec_in_range(center: IVec3, coordinate: IVec3) -> bool {
    chunk_distance(center, coordinate) <= RENDER_DISTANCE
}

/// The place of `coordinate` in the cube of coordinates around `center`,
/// counted along z first, then y, then x.
pub open spec fn rank(center: IVec3, coordinate: IVec3) -> int {
    (coordinate.x - center.x + 12) * 625 + (coordinate.y - center.y + 12) * 25 + (coordinate.z
        - center.z + 12)
}

/// What the map holds after a chunk was added at `coordinate` under `id`:
/// the new chunk in the state `Loading`, unless one was resident there.
pub open spec fn spec_insert(map: Map<IVec3, Resident>, coordinate: IVec3, id: u64) -> Map<
    IVec3,
    Resident,
> {
    if map.dom().contains(coordinate) {
        map
    } else {
        map.insert(coordinate, Resident { id, state: ChunkState::Loading })
    }
}

/// Whether the chunk at `coordinate` is within the render distance of the
/// chunk at `center`.
pub fn in_range(center: IVec3, coordinate: IVec3) -> (r: bool)
    ensures
        r == spec_in_range(center, coordinate),
{
    let dx: i64 = center.x as i64 - coordinate.x as i64;
    let dy: i64 = center.y as i64 - coordinate.y as i64;
    let dz: i64 = center.z as i64 - coordinate.z as i64;
    -12 <= dx && dx <= 12 && -12 <= dy && dy <= 12 && -12 <= dz && dz <= 12
}

/// The step from the center of the cube of coordinates in range to the
/// coordinate at place `n` of the cube.
pub open spec fn spec_cube_step(n: int) -> (int, int, int) {
    (n / 625 - 12, (n / 25) % 25 - 12, n % 25 - 12)
}

/// The step from the center of the cube of coordinates in range to the
/// coordinate at place `n` of the cube.
fn cube_step(n: u32) -> (r: (i64, i64, i64))
    requires
        n < 15625,
    ensures
        (r.0 as int, r.1 as int, r.2 as int) == spec_cube_step(n as int),
        -12 <= r.0 <= 12,
        -12 <= r.1 <= 12,
        -12 <= r.2 <= 12,
{
    ((n / 625) as i64 - 12, ((n / 25) % 25) as i64 - 12, (n % 25) as i64 - 12)
}

/// A coordinate is in range of `center` exactly if each of its components is
/// within the render distance of the center's, and its place in the cube
/// around the center then tells the coordinate.
pub proof fn lemma_rank_in_cube(center: IVec3, c: IVec3)
    ensures
        spec_in_range(center, c) <==> (-12 <= c.x - center.x <= 12 && -12 <= c.y - center.y <= 12
            && -12 <= c.z - center.z <= 12),
        spec_in_range(center, c) ==> 0 <= rank(center, c) < 15625,
        spec_in_range(center, c) ==> spec_cube_step(rank(center, c)) == (
            c.x - center.x,
            c.y - center.y,
            c.z - center.z,
        ),
{
    if spec_in_range(center, c) {
        let a = c.x - center.x + 12;
        let b = c.y - center.y + 12;
        let d = c.z - center.z + 12;
        let n = rank(center, c);
        assert(n == 625 * a + 25 * b + d);
        assert(n / 625 == a);
        assert(n % 25 == d);
        assert(n / 25 == 25 * a + b);
        assert((n / 25) % 25 == b);
    }
}

/// The coordinate that lies the step at place `n` of the cube away from
/// `center` is in range of it and has the place `n`.
pub proof fn lemma_rank_of_step(center: IVec3, c: IVec3, n: int)
    requires
        0 <= n < 15625,
        spec_cube_step(n) == (c.x - center.x, c.y - center.y, c.z - center.z),
    ensures
        spec_in_range(center, c),
        rank(center, c) == n,
{
    let a = n / 625;
    let b = (n / 25) % 25;
    let d = n % 25;
    assert(n == 25 * (n / 25) + d);
    assert(n / 25 == 25 * a + b);
    assert(n == 625 * a + 25 * b + d);
    assert(0 <= a < 25 && 0 <= b < 25 && 0 <= d < 25);
}

/// What is kept of a resident chunk: the id it was given and its state.
#[derive(Clone, Copy, Debug, PartialEq, Eq, Structural)]
pub struct Resident {
    pub id: u64,
    pub state: ChunkState,
}

/// One entry of the chunk map.
#[derive(Clone, Copy, Debug)]
struct ChunkEntry {
    coordinate: IVec3,
    resident: Resident,
}

/// The coordinates of a list of entries, in the same order.
spec fn coordinates(entries: Seq<ChunkEntry>) -> Seq<IVec3> {
    entries.map_values(|e: ChunkEntry| e.coordinate)
}

/// The resident chunks, at most one for each chunk coordinate.
pub struct ChunkMap {
    entries: Vec<ChunkEntry>,
}

impl Default for ChunkMap {
    /// A map without resident chunks, with room for some.
    fn default() -> (r: ChunkMap)
        ensures
            r.wf(),
            r@ == Map::<IVec3, Resident>::empty(),
            r.spec_len() == 0,
    {
        ChunkMap::new()
    }
}

impl ChunkMap {
    /// No two entries have the same coordinate.
    pub closed spec fn wf(self) -> bool {
        coordinates(self.entries@).no_duplicates()
    }

    /// The resident chunks by coordinate.
    pub closed spec fn view(self) -> Map<IVec3, Resident> {
        Map::new(
            |c: IVec3| coordinates(self.entries@).contains(c),
            |c: IVec3| self.entries@[coordinates(self.entries@).index_of(c)].resident,
        )
    }

    /// The number of resident chunks.
    pub closed spec fn spec_len(self) -> nat {
        self.entries@.len()
    }

    /// Entry `i` is what the map holds at that entry's coordinate.
    proof fn lemma_entry(self, i: int)
        requires
            self.wf(),
            0 <= i < self.entries@.len(),
        ensures
            self@.dom().contains(self.entries@[i].coordinate),
            self@[self.entries@[i].coordinate] == self.entries@[i].resident,
            coordinates(self.entries@).index_of(self.entries@[i].coordinate) == i,
    {
        let coords = coordinates(self.entries@);
        let c = self.entries@[i].coordinate;
        assert(coords[i] == c);
        let j = coords.index_of(c);
        assert(0 <= j < coords.len() && coords[j] == c);
    }

    /// A map without resident chunks.
    pub fn new() -> (r: ChunkMap)
        ensures
            r.wf(),
            r@ == Map::<IVec3, Resident>::empty(),
            r.spec_len() == 0,
    {
        let r = ChunkMap { entries: Vec::with_capacity(RENDER_DISTANCE * RENDER_DISTANCE) };
        assert(r@ =~= Map::<IVec3, Resident>::empty());
        r
    }

    /// The number of resident chunks.
    pub fn len(&self) -> (r: usize)
        requires
            self.wf(),
        ensures
            r == self.spec_len(),
            r == self@.dom().len(),
            self@.dom().finite(),
    {
        proof {
            self.lemma_len();
        }
        self.entries.len()
    }

    /// The number of resident chunks is the number of resident coordinates.
    pub proof fn lemma_len(self)
        requires
            self.wf(),
        ensures
            self@.dom().finite(),
            self@.dom().len() == self.spec_len(),
    {
        let coords = coordinates(self.entries@);
        coords.unique_seq_to_set();
        assert(self@.dom() =~= coords.to_set());
    }

    /// The place of `coordinate` among the entries, if it is resident.
    fn find(&self, coordinate: IVec3) -> (r: Option<usize>)
        requires
            self.wf(),
        ensures
            match r {
                Some(i) => i < self.entries@.len() && self.entries@[i as int].coordinate
                    == coordinate && self@.dom().contains(coordinate) && self@[coordinate]
                    == self.entries@[i as int].resident,
                None => !self@.dom().contains(coordinate) && !coordinates(self.entries@).contains(
                    coordinate,
                ),
            },
    {
        let mut i: usize = 0;
        while i < self.entries.len()
            invariant
                self.wf(),
                i <= self.entries@.len(),
                forall|k: int| 0 <= k < i ==> self.entries@[k].coordinate != coordinate,
            decreases self.entries@.len() - i,
        {
            if self.entries[i].coordinate == coordinate {
                proof {
                    self.lemma_entry(i as int);
                }
                return Some(i);
            }
            i += 1;
        }
        assert(!coordinates(self.entries@).contains(coordinate)) by {
            let coords = coordinates(self.entries@);
            if coords.contains(coordinate) {
                let k = choose|k: int| 0 <= k < coords.len() && coords[k] == coordinate;
                assert(self.entries@[k].coordinate == coordinate);
            }
        }
        None
    }

    /// The resident chunk at `coordinate`, if there is one.
    pub fn get(&self, coordinate: IVec3) -> (r: Option<Resident>)
        requires
            self.wf(),
        ensures
            r == (if self@.dom().contains(coordinate) {
                Some(self@[coordinate])
            } else {
                None
            }),
    {
        match self.find(coordinate) {
            Some(i) => Some(self.entries[i].resident),
            None => None,
        }
    }

    /// Whether a chunk is resident at `coordinate`.
    pub fn contains(&self, coordinate: IVec3) -> (r: bool)
        requires
            self.wf(),
        ensures
            r == self@.dom().contains(coordinate),
    {
        self.find(coordinate).is_some()
    }

    /// Makes the chunk at `coordinate` resident under `id`, in the state
    /// `Loading`, unless one is resident there already: then nothing changes.
    /// Says whether the chunk was added.
    pub fn insert(&mut self, coordinate: IVec3, id: u64) -> (added: bool)
        requires
            old(self).wf(),
        ensures
            final(self).wf(),
            added == !old(self)@.dom().contains(coordinate),
            final(self)@ == spec_insert(old(self)@, coordinate, id),
            added ==> final(self).spec_len() == old(self).spec_len() + 1,
            !added ==> *final(self) == *old(self),
    {
        match self.find(coordinate) {
            Some(_) => false,
            None => {
                let ghost before = *self;
                let resident = Resident { id, state: ChunkState::Loading };
                self.entries.push(ChunkEntry { coordinate, resident });
                proof {
                    let coords = coordinates(self.entries@);
                    let old_coords = coordinates(before.entries@);
                    assert(coords =~= old_coords.push(coordinate));
                    assert(coords.no_duplicates());
                    assert forall|c: IVec3| #[trigger]
                        self@.dom().contains(c) == before@.insert(
                            coordinate,
                            resident,
                        ).dom().contains(c) by {
                        if coords.contains(c) {
                            let k = choose|k: int| 0 <= k < coords.len() && coords[k] == c;
                            if k < old_coords.len() {
                                assert(old_coords[k] == c);
                            }
                        }
                        if old_coords.contains(c) {
                            let k = choose|k: int| 0 <= k < old_coords.len() && old_coords[k] == c;
                            assert(coords[k] == c);
                        }
                        assert(coords[coords.len() - 1] == coordinate);
                    }
                    assert forall|c: IVec3| #[trigger] self@.dom().contains(c) implies self@[c]
                        == before@.insert(coordinate, resident)[c] by {
                        let k = coords.index_of(c);
                        assert(0 <= k < coords.len() && coords[k] == c);
                        self.lemma_entry(k);
                        if k < old_coords.len() {
                            assert(old_coords[k] == c);
                            before.lemma_entry(k);
                        }
                    }
                    assert(self@ =~= before@.insert(coordinate, resident));
                }
                true
            },
        }
    }

    /// Takes the chunk at `coordinate` out of the map and returns what was
    /// kept of it; without a resident chunk there, nothing changes.
    pub fn remove(&mut self, coordinate: IVec3) -> (r: Option<Resident>)
        requires
            old(self).wf(),
        ensures
            final(self).wf(),
            r == (if old(self)@.dom().contains(coordinate) {
                Some(old(self)@[coordinate])
            } else {
                None
            }),
            final(self)@ == old(self)@.remove(coordinate),
            final(self).spec_len() == old(self).spec_len() - (if r is Some {
                1int
            } else {
                0int
            }),
    {
        match self.find(coordinate) {
            None => {
                assert(self@ =~= self@.remove(coordinate));
                None
            },
            Some(i) => {
                let ghost before = *self;
                let entry = self.entries.remove(i);
                proof {
                    let coords = coordinates(self.entries@);
                    let old_coords = coordinates(before.entries@);
                    assert(coords =~= old_coords.remove(i as int));
                    assert forall|a: int, b: int|
                        0 <= a < coords.len() && 0 <= b < coords.len() && a != b implies coords[a]
                        != coords[b] by {
                        let a0 = if a < i { a } else { a + 1 };
                        let b0 = if b < i { b } else { b + 1 };
                        assert(coords[a] == old_coords[a0]);
                        assert(coords[b] == old_coords[b0]);
                    }
                    assert(coords.no_duplicates());
                    assert forall|c: IVec3| #[trigger]
                        self@.dom().contains(c) == before@.remove(coordinate).dom().contains(
                            c,
                        ) by {
                        if coords.contains(c) {
                            let k = choose|k: int| 0 <= k < coords.len() && coords[k] == c;
                            let k0 = if k < i { k } else { k + 1 };
                            assert(old_coords[k0] == c);
                            assert(old_coords[i as int] == coordinate);
                        }
                        if old_coords.contains(c) && c != coordinate {
                            let k = choose|k: int| 0 <= k < old_coords.len() && old_coords[k] == c;
                            let k1 = if k < i { k } else { k - 1 };
                            assert(coords[k1] == c);
                        }
                    }
                    assert forall|c: IVec3| #[trigger] self@.dom().contains(c) implies self@[c]
                        == before@.remove(coordinate)[c] by {
                        let k = coords.index_of(c);
                        assert(0 <= k < coords.len() && coords[k] == c);
                        self.lemma_entry(k);
                        let k0 = if k < i { k } else { k + 1 };
                        assert(old_coords[k0] == c);
                        before.lemma_entry(k0);
                    }
                    assert(self@ =~= before@.remove(coordinate));
                }
                Some(entry.resident)
            },
        }
    }

    /// The coordinates of the resident chunks that are not within the render
    /// distance of `center`: the chunks to unload.
    pub fn out_of_range(&self, center: IVec3) -> (r: Vec<IVec3>)
        requires
            self.wf(),
        ensures
            r@.no_duplicates(),
            forall|c: IVec3|
                #![trigger r@.contains(c)]
                r@.contains(c) <==> self@.dom().contains(c) && !spec_in_range(center, c),
    {
        let mut out: Vec<IVec3> = Vec::new();
        let ghost mut places: Seq<int> = Seq::empty();
        let mut i: usize = 0;
        while i < self.entries.len()
            invariant
                self.wf(),
                i <= self.entries@.len(),
                places.len() == out@.len(),
                forall|j: int|
                    0 <= j < out@.len() ==> 0 <= #[trigger] places[j] < i && out@[j]
                        == self.entries@[places[j]].coordinate && !spec_in_range(
                        center,
                        out@[j],
                    ),
                forall|j: int, k: int| 0 <= j < k < out@.len() ==> places[j] < places[k],
                forall|k: int|
                    0 <= k < i && !spec_in_range(center, (#[trigger] self.entries@[k]).coordinate)
                        ==> out@.contains(self.entries@[k].coordinate),
            decreases self.entries@.len() - i,
        {
            let coordinate = self.entries[i].coordinate;
            let ghost before = out@;
            if !in_range(center, coordinate) {
                out.push(coordinate);
                proof {
                    places = places.push(i as int);
                    assert(out@[out@.len() - 1] == coordinate);
                }
            }
            assert forall|k: int|
                0 <= k < i + 1 && !spec_in_range(
                    center,
                    (#[trigger] self.entries@[k]).coordinate,
                ) implies out@.contains(self.entries@[k].coordinate) by {
                if k < i {
                    let j = choose|j: int|
                        0 <= j < before.len() && before[j] == self.entries@[k].coordinate;
                    assert(out@[j] == self.entries@[k].coordinate);
                } else {
                    assert(out@[out@.len() - 1] == coordinate);
                }
            }
            i += 1;
        }
        proof {
            let coords = coordinates(self.entries@);
            assert forall|j: int, k: int| 0 <= j < out@.len() && 0 <= k < out@.len() && j
                != k implies out@[j] != out@[k] by {
                assert(places[j] != places[k]);
                assert(coords[places[j]] == out@[j]);
                assert(coords[places[k]] == out@[k]);
            }
            assert forall|c: IVec3|
                #![trigger out@.contains(c)]
                out@.contains(c) <==> self@.dom().contains(c) && !spec_in_range(center, c) by {
                if out@.contains(c) {
                    let j = choose|j: int| 0 <= j < out@.len() && out@[j] == c;
                    self.lemma_entry(places[j]);
                }
                if self@.dom().contains(c) && !spec_in_range(center, c) {
                    let k = choose|k: int| 0 <= k < coords.len() && coords[k] == c;
                    assert(self.entries@[k].coordinate == c);
                }
            }
        }
        out
    }

    /// The coordinates within the render distance of `center` at which no
    /// chunk is resident: the chunks to load.
    pub fn missing_in_range(&self, center: IVec3) -> (r: Vec<IVec3>)
        requires
            self.wf(),
        ensures
            r@.no_duplicates(),
            forall|c: IVec3|
                #![trigger r@.contains(c)]
                r@.contains(c) <==> spec_in_range(center, c) && !self@.dom().contains(c),
    {
        let mut out: Vec<IVec3> = Vec::new();
        let mut n: u32 = 0;
        while n < 15625
            invariant
                self.wf(),
                n <= 15625,
                forall|j: int|
                    0 <= j < out@.len() ==> spec_in_range(center, #[trigger] out@[j])
                        && !self@.dom().contains(out@[j]) && rank(center, out@[j]) < n,
                forall|j: int, k: int|
                    0 <= j < k < out@.len() ==> rank(center, #[trigger] out@[j]) < rank(
                        center,
                        #[trigger] out@[k],
                    ),
                forall|c: IVec3|
                    #[trigger] spec_in_range(center, c) && !self@.dom().contains(c) && rank(
                        center,
                        c,
                    ) < n ==> out@.contains(c),
            decreases 15625 - n,
        {
            let step = cube_step(n);
            let x: i64 = center.x as i64 + step.0;
            let y: i64 = center.y as i64 + step.1;
            let z: i64 = center.z as i64 + step.2;
            let ghost before = out@;
            let fits = -2147483648 <= x && x <= 2147483647 && -2147483648 <= y && y <= 2147483647
                && -2147483648 <= z && z <= 2147483647;
            if fits {
                let candidate = IVec3::new(x as i32, y as i32, z as i32);
                proof {
                    lemma_rank_of_step(center, candidate, n as int);
                }
                if !self.contains(candidate) {
                    out.push(candidate);
                    assert(out@ == before.push(candidate));
                }
            }
            assert forall|c: IVec3|
                #[trigger] spec_in_range(center, c) && !self@.dom().contains(c) && rank(center, c)
                    < n + 1 implies out@.contains(c) by {
                if rank(center, c) < n {
                    let j = choose|j: int| 0 <= j < before.len() && before[j] == c;
                    assert(out@[j] == c);
                } else {
                    lemma_rank_in_cube(center, c);
                    assert(c.x == x && c.y == y && c.z == z);
                    assert(out@[out@.len() - 1] == c);
                }
            }
            n += 1;
        }
        proof {
            assert forall|c: IVec3|
                #![trigger out@.contains(c)]
                out@.contains(c) <==> spec_in_range(center, c) && !self@.dom().contains(c) by {
                if spec_in_range(center, c) {
                    lemma_rank_in_cube(center, c);
                }
            }
        }
        out
    }

    /// Lets `event` happen to the chunk at `coordinate`: its state becomes
    /// the one that follows. Says whether a chunk is resident there; without
    /// one, nothing changes.
    pub fn notify(&mut self, coordinate: IVec3, event: ChunkEvent) -> (known: bool)
        requires
            old(self).wf(),
        ensures
            final(self).wf(),
            known == old(self)@.dom().contains(coordinate),
            known ==> final(self)@ == old(self)@.insert(
                coordinate,
                (Resident {
                    id: old(self)@[coordinate].id,
                    state: old(self)@[coordinate].state.spec_after(event),
                }),
            ),
            !known ==> *final(self) == *old(self),
            final(self).spec_len() == old(self).spec_len(),
    {
        match self.find(coordinate) {
            None => false,
            Some(i) => {
                let ghost before = *self;
                let current = self.entries[i].resident;
                let resident = Resident { id: current.id, state: current.state.after(event) };
                self.entries.set(i, ChunkEntry { coordinate, resident });
                proof {
                    let coords = coordinates(self.entries@);
                    let old_coords = coordinates(before.entries@);
                    assert(coords =~= old_coords);
                    assert(coords[i as int] == coordinate);
                    assert forall|c: IVec3| #[trigger] self@.dom().contains(c) implies self@[c]
                        == before@.insert(coordinate, resident)[c] by {
                        let k = coords.index_of(c);
                        assert(0 <= k < coords.len() && coords[k] == c);
                        self.lemma_entry(k);
                        before.lemma_entry(k);
                        if c == coordinate {
                            assert(k == i);
                        }
                    }
                    assert(self@ =~= before@.insert(coordinate, resident));
                }
                true
            },
        }
    }
}

/// What has to happen after the observer moved into another chunk.
pub struct Plan {
    /// The coordinates in range at which no chunk is resident yet.
    pub load: Vec<IVec3>,
    /// The coordinates of the resident chunks that are out of range.
    pub unload: Vec<IVec3>,
}

impl Plan {
    /// Whether this plan brings the resident chunks `resident` in line with
    /// the render distance around `center`: it loads what is in range and
    /// not resident, and unloads what is resident and not in range, each
    /// coordinate once.
    pub open spec fn fits(&self, resident: Map<IVec3, Resident>, center: IVec3) -> bool {
        &&& self.load@.no_duplicates()
        &&& self.unload@.no_duplicates()
        &&& forall|c: IVec3|
            #![trigger self.load@.contains(c)]
            self.load@.contains(c) <==> spec_in_range(center, c) && !resident.dom().contains(c)
        &&& forall|c: IVec3|
            #![trigger self.unload@.contains(c)]
            self.unload@.contains(c) <==> resident.dom().contains(c) && !spec_in_range(center, c)
    }
}

/// One step of the chunk manager: records that the observer stands at the
/// voxel position `pos` and, if that moved it into another chunk, says which
/// chunks to load and to unload around the new current chunk. While the
/// observer stays within its chunk there is nothing to do.
pub fn observer_moved(
    current: &mut CurrentChunk,
    chunks: &ChunkMap,
    pos: IVec3,
) -> (plan: Option<Plan>)
    requires
        chunks.wf(),
    ensures
        final(current).0 == spec_chunk_of(pos),
        plan is Some <==> old(current).0 != spec_chunk_of(pos),
        plan matches Some(p) ==> p.fits(chunks@, spec_chunk_of(pos)),
{
    if current.observe(pos) {
        let center = current.0;
        let load = chunks.missing_in_range(center);
        let unload = chunks.out_of_range(center);
        Some(Plan { load, unload })
    } else {
        None
    }
}

/// Adding a chunk twice at one coordinate leaves one resident chunk there,
/// the first: the second addition changes nothing. In a map that was empty,
/// that chunk is then the only one.
pub proof fn lemma_insert_twice(
    map: Map<IVec3, Resident>,
    coordinate: IVec3,
    first: u64,
    second: u64,
)
    ensures
        spec_insert(spec_insert(map, coordinate, first), coordinate, second) == spec_insert(
            map,
            coordinate,
            first,
        ),
        spec_insert(
            spec_insert(Map::<IVec3, Resident>::empty(), coordinate, first),
            coordinate,
            second,
        ).dom() == set![coordinate],
        set![coordinate].len() == 1,
{
    let once = spec_insert(Map::<IVec3, Resident>::empty(), coordinate, first);
    assert(once.dom() =~= set![coordinate]);
}

/// A coordinate at which no chunk was added is not resident: adding a chunk
/// makes its own coordinate resident and no other.
pub proof fn lemma_absent_unless_inserted(
    map: Map<IVec3, Resident>,
    coordinate: IVec3,
    id: u64,
    other: IVec3,
)
    requires
        other != coordinate,
    ensures
        !Map::<IVec3, Resident>::empty().dom().contains(other),
        spec_insert(map, coordinate, id).dom().contains(coordinate),
        spec_insert(map, coordinate, id).dom().contains(other) == map.dom().contains(other),
{
}

} // verus!
