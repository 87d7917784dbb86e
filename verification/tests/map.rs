use escape_room::map::{DoorState, RoomKey, RoomMap, Wall, NO_NEIGHBOR};

fn map_with_two_rooms() -> RoomMap {
    let mut m = RoomMap::new(0, 5);
    // Room 0 spans (0, 0) to (300, 295); room 1 starts beyond it in x.
    m.add_room(0, [0, 1, 2, 3], [NO_NEIGHBOR, 1, NO_NEIGHBOR, NO_NEIGHBOR], [0, 0]);
    m.add_room(1, [4, 5, 6, 7], [NO_NEIGHBOR, NO_NEIGHBOR, NO_NEIGHBOR, 0], [301, 0]);
    m
}

#[test]
fn new_map_fields() {
    let m = RoomMap::new(0, 5);
    assert_eq!(m.start_room_id, 0);
    assert_eq!(m.end_room_id, 5);
    assert!(m.rooms_list.is_empty());
    assert!(m.room_keys.is_empty());
    assert!(m.walls.is_empty());
    assert_eq!(m.room_width, 300);
    assert_eq!(m.room_length, 295);
}

#[test]
fn find_room_unique_containment() {
    let m = map_with_two_rooms();
    assert_eq!(m.find_current_room(150, 100), Some(0));
    assert_eq!(m.find_current_room(400, 100), Some(1));
}

#[test]
fn find_room_boundaries_inclusive() {
    let m = map_with_two_rooms();
    assert_eq!(m.find_current_room(0, 0), Some(0));
    assert_eq!(m.find_current_room(300, 295), Some(0));
    assert_eq!(m.find_current_room(301, 0), Some(1));
}

#[test]
fn find_room_outside_all_is_none() {
    let m = map_with_two_rooms();
    assert_eq!(m.find_current_room(10000, 10000), None);
    assert_eq!(m.find_current_room(-1, 0), None);
    assert_eq!(m.find_current_room(0, 296), None);
}

#[test]
fn add_room_overwrites_by_id() {
    let mut m = map_with_two_rooms();
    m.add_room(0, [9, 9, 9, 9], [NO_NEIGHBOR; 4], [1000, 1000]);
    assert_eq!(m.rooms_list.len(), 2);
    assert_eq!(m.rooms_list[0].bottom_left_corner, [1000, 1000]);
    assert_eq!(m.find_current_room(150, 100), None);
    assert_eq!(m.find_current_room(1100, 1100), Some(0));
}

#[test]
fn neighbor_lookup() {
    let m = map_with_two_rooms();
    assert_eq!(m.neighbor(0, 1), Some(1));
    assert_eq!(m.neighbor(0, 0), None);
    assert_eq!(m.neighbor(1, 3), Some(0));
    assert_eq!(m.neighbor(7, 0), None);
}

#[test]
fn add_key_creates_room_list() {
    let mut m = map_with_two_rooms();
    m.add_key(RoomKey { key_id: 0, starts_roomid: 0, opens_wallid: 1, picked_up: false });
    m.add_key(RoomKey { key_id: 1, starts_roomid: 0, opens_wallid: 3, picked_up: false });
    m.add_key(RoomKey { key_id: 2, starts_roomid: 1, opens_wallid: 6, picked_up: false });
    assert_eq!(m.room_keys.len(), 2);
    assert_eq!(m.room_keys[0].room, 0);
    assert_eq!(m.room_keys[0].keys.len(), 2);
    assert_eq!(m.room_keys[1].room, 1);
    assert_eq!(m.room_keys[1].keys.len(), 1);
}

#[test]
fn add_mult_keys_distributes() {
    let mut m = map_with_two_rooms();
    m.add_mult_keys(vec![
        RoomKey { key_id: 0, starts_roomid: 0, opens_wallid: 1, picked_up: false },
        RoomKey { key_id: 1, starts_roomid: 1, opens_wallid: 6, picked_up: false },
        RoomKey { key_id: 2, starts_roomid: 0, opens_wallid: 2, picked_up: false },
    ]);
    assert_eq!(m.room_keys[0].keys.len(), 2);
    assert_eq!(m.room_keys[1].keys.len(), 1);
}

#[test]
fn take_key_removes_exactly_one() {
    let mut m = map_with_two_rooms();
    m.add_key(RoomKey { key_id: 7, starts_roomid: 0, opens_wallid: 1, picked_up: false });
    m.add_key(RoomKey { key_id: 8, starts_roomid: 0, opens_wallid: 2, picked_up: false });
    let taken = m.take_key(0, 7).unwrap();
    assert_eq!(taken.key_id, 7);
    assert_eq!(taken.opens_wallid, 1);
    assert_eq!(m.room_keys[0].keys.len(), 1);
    assert_eq!(m.room_keys[0].keys[0].key_id, 8);
    // A second take of the same id finds nothing.
    assert!(m.take_key(0, 7).is_none());
}

#[test]
fn take_key_wrong_room_is_noop() {
    let mut m = map_with_two_rooms();
    m.add_key(RoomKey { key_id: 7, starts_roomid: 0, opens_wallid: 1, picked_up: false });
    assert!(m.take_key(1, 7).is_none());
    assert_eq!(m.room_keys[0].keys.len(), 1);
}

#[test]
fn open_wall_unlocks_and_clears_collision() {
    let mut m = map_with_two_rooms();
    m.add_walls(vec![
        Wall { collision: None, door: DoorState::Open },
        Wall {
            collision: Some(escape_room::geom::Aabb2D {
                center: escape_room::geom::Vec2 { x: 300, z: 147 },
                half_widths: escape_room::geom::Vec2 { x: 5, z: 147 },
                disp_mult: -1,
            }),
            door: DoorState::Locked,
        },
        Wall { collision: None, door: DoorState::Solid },
    ]);
    assert!(!m.walls[1].is_passable());
    m.open_wall(1);
    assert!(m.walls[1].is_passable());
    assert!(m.walls[1].collision.is_none());
    // A solid wall stays solid, and an out-of-range slot is a no-op.
    m.open_wall(2);
    assert!(!m.walls[2].is_passable());
    m.open_wall(99);
    assert_eq!(m.walls.len(), 3);
}

#[test]
fn room_get_flats() {
    let m = map_with_two_rooms();
    assert_eq!(m.rooms_list[0].get_flats(), &[0, 1, 2, 3]);
}

#[test]
fn room_by_id_finds_room() {
    let m = map_with_two_rooms();
    assert_eq!(m.room_by_id(1).unwrap().bottom_left_corner, [301, 0]);
    assert!(m.room_by_id(9).is_none());
}
