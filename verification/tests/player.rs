use escape_room::assets::{MeshRef, Model, TextureRef};
use escape_room::geom::{Pose, Vec3, YAW_FULL_TURN};
use escape_room::map::{DoorState, RoomKey, RoomMap, Wall, NO_NEIGHBOR};
use escape_room::player::{handle_collision, GameObject, Player, BOUNDS_MARGIN};
use escape_room::world::Textured;
use escape_room::COORD_LIMIT;

fn model() -> Model {
    Model { mesh: MeshRef(0), texture: TextureRef(0) }
}

fn object_at(x: i64, y: i64, z: i64) -> GameObject {
    GameObject {
        trf: Pose { translation: Vec3 { x, y, z }, yaw: 0, scale: 10 },
        model: Some(model()),
        animation: 0,
        anim_ticks: 0,
    }
}

fn player_at(x: i64, z: i64) -> Player {
    let mut map = RoomMap::new(0, 5);
    map.add_room(0, [0, 1, 2, 3], [NO_NEIGHBOR, 1, NO_NEIGHBOR, NO_NEIGHBOR], [0, 0]);
    map.add_room(1, [4, 5, 6, 7], [NO_NEIGHBOR; 4], [301, 0]);
    map.add_walls(vec![
        Wall { collision: None, door: DoorState::Solid },
        Wall { collision: None, door: DoorState::Locked },
    ]);
    Player {
        object: object_at(x, -15, z),
        keys_grabbed: Vec::new(),
        current_room: Some(0),
        map,
        won: false,
    }
}

fn key_visual(key_id: usize, x: i64, z: i64) -> Textured {
    Textured {
        trf: Pose { translation: Vec3 { x, y: 0, z }, yaw: 0, scale: 200 },
        model: model(),
        key_id: Some(key_id),
    }
}

#[test]
fn tick_animation_advances() {
    let mut obj = object_at(0, 0, 0);
    obj.tick_animation();
    obj.tick_animation();
    assert_eq!(obj.anim_ticks, 2);
}

#[test]
fn move_by_translates() {
    let mut obj = object_at(1, 2, 3);
    obj.move_by(Vec3 { x: 10, y: -1, z: 5 });
    assert_eq!(obj.trf.translation, Vec3 { x: 11, y: 1, z: 8 });
}

#[test]
fn change_room_sets_current() {
    let mut p = player_at(10, 10);
    p.change_room(1);
    assert_eq!(p.current_room, Some(1));
}

#[test]
fn find_current_room_resolves_and_degrades() {
    let mut p = player_at(150, 100);
    p.current_room = None;
    p.find_current_room();
    assert_eq!(p.current_room, Some(0));
    p.object.trf.translation.x = 10000;
    p.object.trf.translation.z = 10000;
    p.find_current_room();
    assert_eq!(p.current_room, None);
}

#[test]
fn apply_movement_wraps_yaw_and_clamps_range() {
    let mut p = player_at(0, 0);
    p.object.trf.yaw = YAW_FULL_TURN - 1;
    p.apply_movement(2, 5, -7);
    assert_eq!(p.object.trf.yaw, 1);
    assert_eq!(p.object.trf.translation.x, 5);
    assert_eq!(p.object.trf.translation.z, -7);
    p.apply_movement(-3, 0, 0);
    assert_eq!(p.object.trf.yaw, YAW_FULL_TURN - 2);
    // The position saturates at the supported coordinate range.
    p.object.trf.translation.x = COORD_LIMIT - 1;
    p.apply_movement(0, 100, 0);
    assert_eq!(p.object.trf.translation.x, COORD_LIMIT);
}

#[test]
fn apply_movement_accepts_any_yaw_delta() {
    let mut p = player_at(0, 0);
    // More than a full negative turn.
    p.apply_movement(-720_001, 0, 0);
    assert_eq!(p.object.trf.yaw, 359_999);
    // Exactly three full positive turns: no net rotation.
    p.apply_movement(1_080_000, 0, 0);
    assert_eq!(p.object.trf.yaw, 359_999);
    // The extreme delta wraps to its Euclidean remainder too.
    p.apply_movement(i64::MIN, 0, 0);
    assert_eq!(p.object.trf.yaw, 304_191);
}

#[test]
fn clamp_to_room_bounds_keeps_position_inside() {
    // An overshoot of more than one room-width in one tick still ends
    // inside the room.
    let mut p = player_at(150, 100);
    p.object.trf.translation.x = 900;
    p.object.trf.translation.z = -700;
    p.clamp_to_room_bounds(BOUNDS_MARGIN);
    assert_eq!(p.object.trf.translation.x, 300 - BOUNDS_MARGIN);
    assert_eq!(p.object.trf.translation.z, BOUNDS_MARGIN);
}

#[test]
fn clamp_to_room_bounds_without_room_is_noop() {
    let mut p = player_at(10000, 10000);
    p.current_room = None;
    p.clamp_to_room_bounds(BOUNDS_MARGIN);
    assert_eq!(p.object.trf.translation.x, 10000);
    assert_eq!(p.object.trf.translation.z, 10000);
}

#[test]
fn handle_collision_resolves_room_and_keeps_position() {
    let mut p = player_at(150, 100);
    p.current_room = None;
    handle_collision(&mut p);
    assert_eq!(p.current_room, Some(0));
    assert_eq!(p.object.trf.translation.x, 150);
    assert_eq!(p.object.trf.translation.z, 100);
}

#[test]
fn handle_collision_without_room_does_not_crash() {
    let mut p = player_at(10000, 10000);
    handle_collision(&mut p);
    assert_eq!(p.current_room, None);
    assert_eq!(p.object.trf.translation.x, 10000);
}

#[test]
fn grab_transfers_key_and_opens_wall() {
    let mut p = player_at(150, 100);
    p.map.add_key(RoomKey { key_id: 0, starts_roomid: 0, opens_wallid: 1, picked_up: false });
    let mut textureds = vec![key_visual(0, 180, 120)];
    assert!(!p.map.walls[1].is_passable());
    p.grab(&mut textureds);
    assert_eq!(p.keys_grabbed.len(), 1);
    assert!(p.keys_grabbed[0].picked_up);
    assert_eq!(p.keys_grabbed[0].key_id, 0);
    assert_eq!(p.map.room_keys[0].keys.len(), 0);
    assert!(textureds.is_empty());
    // The locked wall the key opens now reads as passable.
    assert!(p.map.walls[1].is_passable());
    assert!(p.map.walls[1].collision.is_none());
}

#[test]
fn grab_twice_yields_no_second_key() {
    let mut p = player_at(150, 100);
    p.map.add_key(RoomKey { key_id: 0, starts_roomid: 0, opens_wallid: 1, picked_up: false });
    let mut textureds = vec![key_visual(0, 180, 120)];
    p.grab(&mut textureds);
    assert_eq!(p.keys_grabbed.len(), 1);
    p.grab(&mut textureds);
    assert_eq!(p.keys_grabbed.len(), 1);
    assert_eq!(p.map.room_keys[0].keys.len(), 0);
}

#[test]
fn grab_out_of_range_key_is_noop() {
    let mut p = player_at(150, 100);
    p.map.add_key(RoomKey { key_id: 0, starts_roomid: 0, opens_wallid: 1, picked_up: false });
    // The key visual lies exactly 100 units away: not strictly within range.
    let mut textureds = vec![key_visual(0, 250, 100)];
    p.grab(&mut textureds);
    assert!(p.keys_grabbed.is_empty());
    assert_eq!(textureds.len(), 1);
    assert_eq!(p.map.room_keys[0].keys.len(), 1);
}

#[test]
fn grab_key_of_another_room_fails_closed() {
    let mut p = player_at(150, 100);
    // The key's registry entry lies in room 1, but its visual sits next to
    // the player in room 0: the pickup must not corrupt either collection.
    p.map.add_key(RoomKey { key_id: 0, starts_roomid: 1, opens_wallid: 1, picked_up: false });
    let mut textureds = vec![key_visual(0, 180, 120)];
    p.grab(&mut textureds);
    assert!(p.keys_grabbed.is_empty());
    assert_eq!(textureds.len(), 1);
    assert_eq!(p.map.room_keys[0].keys.len(), 1);
}

#[test]
fn grab_plain_prop_is_ignored() {
    let mut p = player_at(150, 100);
    p.map.add_key(RoomKey { key_id: 0, starts_roomid: 0, opens_wallid: 1, picked_up: false });
    let floor = Textured {
        trf: Pose { translation: Vec3 { x: 150, y: -32, z: 100 }, yaw: 0, scale: 1500 },
        model: model(),
        key_id: None,
    };
    let mut textureds = vec![floor, key_visual(0, 180, 120)];
    p.grab(&mut textureds);
    // The nearby floor prop is skipped; the key behind it is picked up.
    assert_eq!(p.keys_grabbed.len(), 1);
    assert_eq!(textureds.len(), 1);
    assert!(textureds[0].key_id.is_none());
}

#[test]
fn grab_in_end_room_wins() {
    let mut p = player_at(150, 100);
    p.map.end_room_id = 0;
    p.map.add_key(RoomKey { key_id: 0, starts_roomid: 0, opens_wallid: 1, picked_up: false });
    let mut textureds = vec![key_visual(0, 180, 120)];
    p.grab(&mut textureds);
    assert!(p.won);
    // Winning grabs nothing.
    assert!(p.keys_grabbed.is_empty());
    assert_eq!(textureds.len(), 1);
}

#[test]
fn pick_up_marks_and_appends() {
    let mut p = player_at(150, 100);
    let key = RoomKey { key_id: 3, starts_roomid: 0, opens_wallid: 1, picked_up: false };
    key.pick_up(&mut p);
    assert_eq!(p.keys_grabbed.len(), 1);
    assert!(p.keys_grabbed[0].picked_up);
    assert_eq!(p.keys_grabbed[0].key_id, 3);
}
