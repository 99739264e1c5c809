use bevycraft::chunk::IVec3;
use bevycraft::loader::{
    chunk_coordinate, chunk_of, in_range, observer_moved, ChunkEvent, ChunkMap, ChunkState,
    CurrentChunk,
    Resident, RENDER_DISTANCE,
};

#[test]
fn inserting_twice_leaves_one_entry() {
    let mut map = ChunkMap::new();
    let c = IVec3::new(1, 0, -1);
    assert!(map.insert(c, 7));
    assert!(!map.insert(c, 8));
    assert_eq!(map.len(), 1);
    assert_eq!(map.get(c), Some(Resident { id: 7, state: ChunkState::Loading }));
}

#[test]
fn a_coordinate_never_inserted_is_absent() {
    let mut map = ChunkMap::new();
    assert_eq!(map.len(), 0);
    assert_eq!(map.get(IVec3::new(0, 0, 0)), None);
    assert!(map.insert(IVec3::new(0, 0, 0), 1));
    assert_eq!(map.get(IVec3::new(0, 0, 1)), None);
    assert!(!map.contains(IVec3::new(1, 0, 0)));
    assert!(map.contains(IVec3::new(0, 0, 0)));
}

#[test]
fn remove_takes_the_entry_out() {
    let mut map = ChunkMap::new();
    for i in 0..5 {
        assert!(map.insert(IVec3::new(i, 0, 0), i as u64));
    }
    assert_eq!(
        map.remove(IVec3::new(2, 0, 0)),
        Some(Resident { id: 2, state: ChunkState::Loading })
    );
    assert_eq!(map.remove(IVec3::new(2, 0, 0)), None);
    assert_eq!(map.len(), 4);
    for i in [0, 1, 3, 4] {
        assert_eq!(map.get(IVec3::new(i, 0, 0)).map(|r| r.id), Some(i as u64));
    }
    assert!(map.insert(IVec3::new(2, 0, 0), 9));
    assert_eq!(map.len(), 5);
}

#[test]
fn notify_moves_a_chunk_through_its_states() {
    let mut map = ChunkMap::new();
    let c = IVec3::new(3, 3, 3);
    assert!(!map.notify(c, ChunkEvent::Meshed));
    assert!(map.insert(c, 1));
    assert!(map.insert(IVec3::new(0, 0, 0), 2));
    assert!(map.notify(c, ChunkEvent::Meshed));
    assert_eq!(map.get(c), Some(Resident { id: 1, state: ChunkState::Loaded }));
    assert!(map.notify(c, ChunkEvent::Edited));
    assert_eq!(map.get(c).map(|r| r.state), Some(ChunkState::Refreshing));
    assert!(map.notify(c, ChunkEvent::Meshed));
    assert_eq!(map.get(c).map(|r| r.state), Some(ChunkState::Loaded));
    assert!(map.notify(c, ChunkEvent::LeftRange));
    assert_eq!(map.get(c).map(|r| r.state), Some(ChunkState::Unloading));
    assert_eq!(map.get(IVec3::new(0, 0, 0)).map(|r| r.state), Some(ChunkState::Loading));
    assert_eq!(map.len(), 2);
}

#[test]
fn state_transitions() {
    let (meshed, edited, left) = (ChunkEvent::Meshed, ChunkEvent::Edited, ChunkEvent::LeftRange);
    assert_eq!(ChunkState::default(), ChunkState::Loading);
    assert_eq!(ChunkState::Loading.after(meshed), ChunkState::Loaded);
    assert_eq!(ChunkState::Loading.after(edited), ChunkState::Loading);
    assert_eq!(ChunkState::Loading.after(left), ChunkState::Unloading);
    assert_eq!(ChunkState::Loaded.after(meshed), ChunkState::Loaded);
    assert_eq!(ChunkState::Loaded.after(edited), ChunkState::Refreshing);
    assert_eq!(ChunkState::Loaded.after(left), ChunkState::Unloading);
    assert_eq!(ChunkState::Refreshing.after(meshed), ChunkState::Loaded);
    assert_eq!(ChunkState::Refreshing.after(edited), ChunkState::Refreshing);
    assert_eq!(ChunkState::Refreshing.after(left), ChunkState::Unloading);
    for event in [meshed, edited, left] {
        assert_eq!(ChunkState::Unloading.after(event), ChunkState::Unloading);
    }
}

#[test]
fn states_that_wait_for_a_mesh() {
    assert!(ChunkState::Loading.needs_mesh());
    assert!(ChunkState::Refreshing.needs_mesh());
    assert!(!ChunkState::Loaded.needs_mesh());
    assert!(!ChunkState::Unloading.needs_mesh());
}

#[test]
fn chunk_coordinate_rounds_down() {
    assert_eq!(chunk_coordinate(0), 0);
    assert_eq!(chunk_coordinate(15), 0);
    assert_eq!(chunk_coordinate(16), 1);
    assert_eq!(chunk_coordinate(31), 1);
    assert_eq!(chunk_coordinate(32), 2);
    assert_eq!(chunk_coordinate(-1), -1);
    assert_eq!(chunk_coordinate(-16), -1);
    assert_eq!(chunk_coordinate(-17), -2);
    assert_eq!(chunk_coordinate(i32::MAX), 134217727);
    assert_eq!(chunk_coordinate(i32::MIN), -134217728);
    assert_eq!(chunk_of(IVec3::new(0, 10, 0)), IVec3::new(0, 0, 0));
    assert_eq!(chunk_of(IVec3::new(-1, 16, 47)), IVec3::new(-1, 1, 2));
}

#[test]
fn current_chunk_changes_once_per_crossing() {
    let mut current = CurrentChunk(IVec3::new(0, 0, 0));
    let mut changes = 0;
    for x in 0..40 {
        if current.observe(IVec3::new(x, 10, 0)) {
            changes += 1;
        }
    }
    assert_eq!(changes, 2);
    assert_eq!(current.0, IVec3::new(2, 0, 0));
    assert!(!current.observe(IVec3::new(39, 10, 0)));
    assert!(current.observe(IVec3::new(-1, 10, 0)));
    assert_eq!(current.0, IVec3::new(-1, 0, 0));
}

#[test]
fn update_reports_a_change_only_for_another_chunk() {
    let mut current = CurrentChunk(IVec3::new(0, 0, 0));
    assert!(!current.update(IVec3::new(0, 0, 0)));
    assert!(current.update(IVec3::new(0, 1, 0)));
    assert!(!current.update(IVec3::new(0, 1, 0)));
    assert_eq!(current, CurrentChunk(IVec3::new(0, 1, 0)));
}

#[test]
fn render_range_is_a_cube_around_the_center() {
    assert_eq!(RENDER_DISTANCE, 12);
    let center = IVec3::new(5, -3, 100);
    assert!(in_range(center, center));
    assert!(in_range(center, IVec3::new(17, 9, 112)));
    assert!(in_range(center, IVec3::new(-7, -15, 88)));
    assert!(!in_range(center, IVec3::new(18, -3, 100)));
    assert!(!in_range(center, IVec3::new(5, -16, 100)));
    assert!(!in_range(center, IVec3::new(5, -3, 113)));
    assert!(!in_range(IVec3::new(i32::MIN, 0, 0), IVec3::new(i32::MAX, 0, 0)));
}

#[test]
fn default_map_is_empty() {
    let map = ChunkMap::default();
    assert_eq!(map.len(), 0);
    assert!(!map.contains(IVec3::new(0, 0, 0)));
}

#[test]
fn chunks_out_of_range_are_listed_for_unloading() {
    let mut map = ChunkMap::new();
    assert!(map.insert(IVec3::new(0, 0, 0), 1));
    assert!(map.insert(IVec3::new(12, 0, 0), 2));
    assert!(map.insert(IVec3::new(13, 0, 0), 3));
    assert!(map.insert(IVec3::new(0, -40, 0), 4));
    assert_eq!(
        map.out_of_range(IVec3::new(0, 0, 0)),
        vec![IVec3::new(13, 0, 0), IVec3::new(0, -40, 0)]
    );
    assert_eq!(
        map.out_of_range(IVec3::new(1, 0, 0)),
        vec![IVec3::new(0, -40, 0)]
    );
    assert!(ChunkMap::new().out_of_range(IVec3::new(0, 0, 0)).is_empty());
}

#[test]
fn chunks_missing_in_range_are_listed_for_loading() {
    let mut map = ChunkMap::new();
    let center = IVec3::new(3, -2, 7);
    let all = map.missing_in_range(center);
    assert_eq!(all.len(), 25 * 25 * 25);
    assert!(all.iter().all(|c| in_range(center, *c)));
    assert_eq!(all[0], IVec3::new(-9, -14, -5));
    assert_eq!(all[1], IVec3::new(-9, -14, -4));
    assert_eq!(all[25], IVec3::new(-9, -13, -5));
    assert_eq!(all[15624], IVec3::new(15, 10, 19));
    assert!(map.insert(center, 1));
    assert!(map.insert(IVec3::new(15, 10, 19), 2));
    assert!(map.insert(IVec3::new(100, 0, 0), 3));
    let missing = map.missing_in_range(center);
    assert_eq!(missing.len(), 25 * 25 * 25 - 2);
    assert!(!missing.contains(&center));
    assert!(!missing.contains(&IVec3::new(15, 10, 19)));
    for c in missing {
        assert!(map.insert(c, 0));
    }
    assert!(map.missing_in_range(center).is_empty());
    assert_eq!(map.out_of_range(center), vec![IVec3::new(100, 0, 0)]);
}

#[test]
fn range_at_the_edge_of_the_grid_stays_inside_it() {
    let map = ChunkMap::new();
    let corner = IVec3::new(i32::MAX, i32::MIN, 0);
    let missing = map.missing_in_range(corner);
    assert_eq!(missing.len(), 13 * 13 * 25);
    assert!(missing.iter().all(|c| in_range(corner, *c)));
}

#[test]
fn observer_moving_into_another_chunk_gets_a_plan() {
    let mut current = CurrentChunk(IVec3::new(0, 0, 0));
    let mut map = ChunkMap::new();
    assert!(map.insert(IVec3::new(0, 0, 0), 1));
    assert!(map.insert(IVec3::new(-12, 0, 0), 2));
    assert!(map.insert(IVec3::new(13, 12, -12), 3));
    assert!(observer_moved(&mut current, &map, IVec3::new(5, 5, 5)).is_none());
    let plan = observer_moved(&mut current, &map, IVec3::new(16, 5, 5));
    assert_eq!(current.0, IVec3::new(1, 0, 0));
    let plan = match plan {
        Some(plan) => plan,
        None => panic!("the observer crossed into another chunk"),
    };
    assert_eq!(plan.unload, vec![IVec3::new(-12, 0, 0)]);
    assert_eq!(plan.load.len(), 25 * 25 * 25 - 2);
    assert!(plan.load.contains(&IVec3::new(1, 0, 0)));
    assert!(plan.load.contains(&IVec3::new(-11, 0, 0)));
    assert!(!plan.load.contains(&IVec3::new(0, 0, 0)));
    assert!(!plan.load.contains(&IVec3::new(13, 12, -12)));
    assert!(!plan.load.contains(&IVec3::new(14, 0, 0)));
    assert!(observer_moved(&mut current, &map, IVec3::new(31, 0, 0)).is_none());
}
