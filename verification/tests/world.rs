use escape_room::assets::{MeshRef, Model, TextureRef, WindowSettings};
use escape_room::desc::{parse_map_description, FlatDesc, MapDescription, MapError, RoomDesc};
use escape_room::geom::{Pose, Vec3};
use escape_room::map::{DoorState, NO_NEIGHBOR};
use escape_room::player::GameObject;
use escape_room::world::{
    gen_key_pair, multiple_key_pairs, FrameInput, WallModels, World, FLAT_SCALE, FLAT_Y,
    QUARTER_TURN,
};

fn model(n: usize) -> Model {
    Model { mesh: MeshRef(n), texture: TextureRef(n) }
}

fn wall_models() -> WallModels {
    WallModels { solid: model(10), open: model(11), locked: model(12) }
}

fn player_object() -> GameObject {
    GameObject {
        trf: Pose { translation: Vec3 { x: 150, y: -15, z: 0 }, yaw: 0, scale: 10 },
        model: Some(model(1)),
        animation: 0,
        anim_ticks: 0,
    }
}

const MAP_TEXT: &str = r#"{
  "rooms": [
    {"id": 0, "flats": [0, 1, 2, 3], "connected_rooms": [-1, 1, -1, -1],
     "bottom_left_corner": [0, 0]},
    {"id": 1, "flats": [1, 4, 5, 6], "connected_rooms": [-1, -1, -1, 0],
     "bottom_left_corner": [301, 0]}
  ],
  "flats": [
    {"x": 150, "z": 295, "is_identity": false, "door": 0},
    {"x": 300, "z": 147, "is_identity": true, "door": 2}
  ]
}"#;

#[test]
fn window_settings_default() {
    let ws = WindowSettings::default();
    assert_eq!(ws.w, 1024);
    assert_eq!(ws.h, 768);
    assert_eq!(ws.title, "Engine Window");
}

#[test]
fn gen_key_pair_shares_id() {
    let trf = Pose { translation: Vec3 { x: 20, y: 0, z: -15 }, yaw: 0, scale: 200 };
    let (key, tex) = gen_key_pair(4, trf, model(2), 0, 3);
    assert_eq!(key.key_id, 4);
    assert_eq!(key.starts_roomid, 0);
    assert_eq!(key.opens_wallid, 3);
    assert!(!key.picked_up);
    assert_eq!(tex.key_id, Some(4));
    assert_eq!(tex.trf.translation, Vec3 { x: 20, y: 0, z: -15 });
}

#[test]
fn multiple_key_pairs_assigns_consecutive_ids() {
    let trfs = vec![
        Pose { translation: Vec3 { x: 0, y: 0, z: -10 }, yaw: 0, scale: 200 },
        Pose { translation: Vec3 { x: 364, y: 0, z: 30 }, yaw: 0, scale: 200 },
        Pose { translation: Vec3 { x: 91, y: 0, z: 287 }, yaw: 0, scale: 200 },
    ];
    let (keys, texs) = multiple_key_pairs(0, trfs, model(2), vec![(0, 1), (0, 3), (1, 6)]);
    assert_eq!(keys.len(), 3);
    assert_eq!(texs.len(), 3);
    assert_eq!(keys[0].key_id, 0);
    assert_eq!(keys[2].key_id, 2);
    assert_eq!(keys[2].starts_roomid, 1);
    assert_eq!(keys[2].opens_wallid, 6);
    assert_eq!(texs[1].key_id, Some(1));
    assert_eq!(texs[1].trf.translation.x, 364);
}

#[test]
fn multiple_key_pairs_zips_to_shorter_input() {
    let trfs = vec![Pose { translation: Vec3 { x: 0, y: 0, z: 0 }, yaw: 0, scale: 200 }];
    let (keys, texs) = multiple_key_pairs(5, trfs, model(2), vec![(0, 1), (0, 2)]);
    assert_eq!(keys.len(), 1);
    assert_eq!(texs.len(), 1);
    assert_eq!(keys[0].key_id, 5);
}

#[test]
fn parse_rejects_invalid_json() {
    assert_eq!(parse_map_description("not json").unwrap_err(), MapError::Parse);
}

#[test]
fn parse_rejects_missing_rooms() {
    assert_eq!(parse_map_description("{}").unwrap_err(), MapError::MissingField);
}

#[test]
fn parse_rejects_non_array_rooms() {
    assert_eq!(
        parse_map_description(r#"{"rooms": 3, "flats": []}"#).unwrap_err(),
        MapError::BadValue
    );
}

#[test]
fn parse_rejects_missing_flats_array() {
    assert_eq!(
        parse_map_description(r#"{"rooms": []}"#).unwrap_err(),
        MapError::MissingField
    );
}

#[test]
fn parse_rejects_short_index_array() {
    let text = r#"{"rooms": [{"id": 0, "flats": [0, 1, 2], "connected_rooms": [0, 0, 0, 0],
        "bottom_left_corner": [0, 0]}], "flats": []}"#;
    assert_eq!(parse_map_description(text).unwrap_err(), MapError::BadValue);
}

#[test]
fn parse_rejects_negative_wall_index() {
    // A negative entry is "no neighbor" in connected_rooms but invalid in
    // the wall-slot list.
    let text = r#"{"rooms": [{"id": 0, "flats": [0, -1, 2, 3], "connected_rooms": [0, 0, 0, 0],
        "bottom_left_corner": [0, 0]}], "flats": []}"#;
    assert_eq!(parse_map_description(text).unwrap_err(), MapError::BadValue);
}

#[test]
fn parse_rejects_unknown_door_code() {
    let text = r#"{"rooms": [], "flats": [{"x": 0, "z": 0, "is_identity": true, "door": 3}]}"#;
    assert_eq!(parse_map_description(text).unwrap_err(), MapError::BadValue);
}

#[test]
fn parse_rejects_out_of_range_corner() {
    let text = r#"{"rooms": [{"id": 0, "flats": [0,0,0,0], "connected_rooms": [0,0,0,0],
        "bottom_left_corner": [600000000, 0]}], "flats": []}"#;
    assert_eq!(parse_map_description(text).unwrap_err(), MapError::OutOfRange);
}

#[test]
fn parse_reads_rooms_and_flats() {
    let d = parse_map_description(MAP_TEXT).unwrap();
    assert_eq!(d.rooms.len(), 2);
    assert_eq!(d.rooms[0].id, 0);
    assert_eq!(d.rooms[0].flats, [0, 1, 2, 3]);
    // Negative neighbor entries mean "no neighbor".
    assert_eq!(d.rooms[0].connected_rooms, [NO_NEIGHBOR, 1, NO_NEIGHBOR, NO_NEIGHBOR]);
    assert_eq!(d.rooms[1].bottom_left_corner, [301, 0]);
    assert_eq!(d.flats.len(), 2);
    assert_eq!(d.flats[0], FlatDesc { x: 150, z: 295, is_identity: false, door: 0 });
    assert_eq!(d.flats[1], FlatDesc { x: 300, z: 147, is_identity: true, door: 2 });
}

#[test]
fn from_description_builds_rooms_walls_and_flats() {
    let d = parse_map_description(MAP_TEXT).unwrap();
    let w = World::from_description(&d, 0, 1, wall_models(), player_object());
    assert_eq!(w.player.map.rooms_list.len(), 2);
    assert_eq!(w.player.map.rooms_list[1].bottom_left_corner, [301, 0]);
    assert_eq!(w.player.map.walls.len(), 2);
    assert_eq!(w.flats.len(), 2);
    // Wall 0: solid, unrotated pose, collision box offset by the fix.
    assert_eq!(w.player.map.walls[0].door, DoorState::Solid);
    let b0 = w.player.map.walls[0].collision.unwrap();
    assert_eq!((b0.center.x, b0.center.z), (105, 250));
    assert_eq!((b0.half_widths.x, b0.half_widths.z), (150, 5));
    assert_eq!(b0.disp_mult, 1);
    assert_eq!(w.flats[0].model, wall_models().solid);
    assert_eq!(w.flats[0].trf.translation, Vec3 { x: 150, y: FLAT_Y, z: 295 });
    assert_eq!(w.flats[0].trf.yaw, QUARTER_TURN);
    assert_eq!(w.flats[0].trf.scale, FLAT_SCALE);
    // Wall 1: locked, in default orientation, pushed toward negative axes.
    assert_eq!(w.player.map.walls[1].door, DoorState::Locked);
    let b1 = w.player.map.walls[1].collision.unwrap();
    assert_eq!((b1.center.x, b1.center.z), (255, 102));
    assert_eq!((b1.half_widths.x, b1.half_widths.z), (5, 147));
    assert_eq!(b1.disp_mult, -1);
    assert_eq!(w.flats[1].model, wall_models().locked);
    assert_eq!(w.flats[1].trf.yaw, 0);
    assert_eq!(w.player.current_room, Some(0));
    assert!(!w.player.won);
}

#[test]
fn update_moves_resolves_and_clamps() {
    let d = parse_map_description(MAP_TEXT).unwrap();
    let mut w = World::from_description(&d, 0, 1, wall_models(), player_object());
    // An overshoot of more than a room-width in one tick is clamped back.
    w.update(&FrameInput { dyaw: 0, dx: 700, dz: 40, grab: false });
    assert_eq!(w.player.current_room, None);
    assert_eq!(w.player.object.trf.translation.x, 850);
    // Move back inside room 0: the position is clamped to its margin.
    w.update(&FrameInput { dyaw: 0, dx: -555, dz: 0, grab: false });
    assert_eq!(w.player.current_room, Some(0));
    assert_eq!(w.player.object.trf.translation.x, 290);
}

#[test]
fn update_outside_all_rooms_skips_clamping() {
    let d = parse_map_description(MAP_TEXT).unwrap();
    let mut w = World::from_description(&d, 0, 1, wall_models(), player_object());
    w.player.object.trf.translation.x = 10000;
    w.player.object.trf.translation.z = 10000;
    w.update(&FrameInput { dyaw: 0, dx: 5, dz: 5, grab: false });
    // The "room not found" sentinel: no room, and no clamping applied.
    assert_eq!(w.player.current_room, None);
    assert_eq!(w.player.object.trf.translation.x, 10005);
    assert_eq!(w.player.object.trf.translation.z, 10005);
}

#[test]
fn update_ticks_animations() {
    let d = parse_map_description(MAP_TEXT).unwrap();
    let mut w = World::from_description(&d, 0, 1, wall_models(), player_object());
    w.things.push(player_object());
    w.update(&FrameInput { dyaw: 0, dx: 0, dz: 0, grab: false });
    w.update(&FrameInput { dyaw: 0, dx: 0, dz: 0, grab: false });
    assert_eq!(w.things[0].anim_ticks, 2);
}

#[test]
fn end_to_end_key_pickup_opens_wall() {
    // Room 0 spans (0, 0) to (300, 295) and holds a key that opens the
    // locked wall toward room 1. The player starts at (150, -15, 0), moves
    // to (200, 100), grabs within 100 units of the key, and the wall then
    // renders as open.
    let d = parse_map_description(MAP_TEXT).unwrap();
    let mut w = World::from_description(&d, 0, 1, wall_models(), player_object());
    let key_pose = Pose { translation: Vec3 { x: 200, y: 0, z: 120 }, yaw: 0, scale: 200 };
    let (keys, mut texs) = multiple_key_pairs(0, vec![key_pose], model(2), vec![(0, 1)]);
    w.player.map.add_mult_keys(keys);
    w.textured.append(&mut texs);

    let models_before = w.flat_models();
    assert_eq!(models_before[1], wall_models().locked);

    w.update(&FrameInput { dyaw: 0, dx: 50, dz: 100, grab: false });
    assert_eq!(w.player.object.trf.translation.x, 200);
    assert_eq!(w.player.object.trf.translation.z, 100);
    assert_eq!(w.player.current_room, Some(0));

    w.update(&FrameInput { dyaw: 0, dx: 0, dz: 0, grab: true });
    // The key is the player's now, gone from room 0's list and the scene.
    assert_eq!(w.player.keys_grabbed.len(), 1);
    assert_eq!(w.player.keys_grabbed[0].key_id, 0);
    assert!(w.player.keys_grabbed[0].picked_up);
    assert_eq!(w.player.map.room_keys[0].keys.len(), 0);
    assert!(w.textured.is_empty());
    // On the next render pass the wall toward room 1 presents as open.
    let models_after = w.flat_models();
    assert_eq!(models_after[1], wall_models().open);
    assert_eq!(models_after[0], wall_models().solid);
}

#[test]
fn reaching_end_room_wins() {
    let d = parse_map_description(MAP_TEXT).unwrap();
    let mut w = World::from_description(&d, 0, 1, wall_models(), player_object());
    w.player.object.trf.translation.x = 400;
    w.player.object.trf.translation.z = 100;
    w.update(&FrameInput { dyaw: 0, dx: 0, dz: 0, grab: true });
    assert!(w.player.won);
}

#[test]
fn from_plain_description_records() {
    // A description can also be built directly from plain records.
    let d = MapDescription {
        rooms: vec![RoomDesc {
            id: 0,
            flats: [0, 0, 0, 0],
            connected_rooms: [NO_NEIGHBOR; 4],
            bottom_left_corner: [0, 0],
        }],
        flats: vec![FlatDesc { x: 0, z: 147, is_identity: true, door: 1 }],
    };
    let w = World::from_description(&d, 0, 0, wall_models(), player_object());
    assert_eq!(w.player.map.walls[0].door, DoorState::Open);
    assert!(w.player.map.walls[0].collision.is_none());
    assert_eq!(w.flat_models()[0], wall_models().open);
}
