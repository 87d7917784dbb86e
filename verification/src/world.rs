//! World composition: the scene entities (walls' visual flats, textured
//! props and key visuals) and the per-frame update step that drives the
//! player through movement, room resolution, boundary clamping and the
//! grab action.

use crate::assets::Model;
use crate::desc::{FlatDesc, MapDescription, RoomDesc, WALL_FIX};
use crate::geom::{spec_wrap_angle, Aabb2D, Pose, Vec2, Vec3};
use crate::map::{
    room_index_of, spec_find_room, DoorState, Room, RoomKey, RoomMap, Wall, ROOM_LENGTH,
    ROOM_WIDTH,
};
use crate::player::{grab_post, textureds_in_range, GameObject, Player, BOUNDS_MARGIN};
use crate::{in_coord_range, spec_clamp, COORD_LIMIT};
use vstd::prelude::*;

verus! {

/// Height at which walls and their flats stand.
pub const FLAT_Y: i64 = -15;

/// Scale of a wall's flat, in hundredths of a unit.
pub const FLAT_SCALE: i64 = 10000;

/// A quarter turn, the yaw of a wall rotated out of its default orientation.
pub const QUARTER_TURN: i64 = 90_000;

/// Thickness of a wall's collision box.
pub const WALL_THICKNESS: i64 = 10;

/// Half the thickness of a wall's collision box.
pub const WALL_HALF_THICKNESS: i64 = 5;

/// Half of the default room width.
pub const ROOM_HALF_WIDTH: i64 = 150;

/// Half of the default room length, rounded down to whole units.
pub const ROOM_HALF_LENGTH: i64 = 147;

/// A wall's visual entity: its pose, the model shown while the wall is not
/// open, and the model shown once its door stands open.
#[derive(Clone, Copy, PartialEq, Eq, Debug)]
pub struct Flat {
    pub trf: Pose,
    pub model: Model,
    pub open_model: Model,
}

/// A textured scene entity: a prop, or the visual form of a key. A key's
/// visual carries the key's stable id, which ties it to the registry entry;
/// plain props carry none.
#[derive(Clone, Copy, PartialEq, Eq, Debug)]
pub struct Textured {
    pub trf: Pose,
    pub model: Model,
    pub key_id: Option<usize>,
}

impl Textured {
    /// Translate the entity by `v`.
    pub fn move_by(&mut self, v: Vec3)
        requires
            in_coord_range(old(self).trf.translation.x + v.x),
            in_coord_range(old(self).trf.translation.y + v.y),
            in_coord_range(old(self).trf.translation.z + v.z),
            old(self).trf.translation.in_range(),
            v.in_range(),
        ensures
            final(self).trf.translation.x == old(self).trf.translation.x + v.x,
            final(self).trf.translation.y == old(self).trf.translation.y + v.y,
            final(self).trf.translation.z == old(self).trf.translation.z + v.z,
            final(self).trf.yaw == old(self).trf.yaw,
            final(self).trf.scale == old(self).trf.scale,
            final(self).model == old(self).model,
            final(self).key_id == old(self).key_id,
    {
        self.trf.translation.x = self.trf.translation.x + v.x;
        self.trf.translation.y = self.trf.translation.y + v.y;
        self.trf.translation.z = self.trf.translation.z + v.z;
    }
}

/// One frame of input, already translated into plain values by the input
/// collaborator: a yaw delta, a world-frame movement delta (input axes
/// rotated by the new yaw and scaled by the movement speed), and whether
/// the grab action fired.
#[derive(Clone, Copy, PartialEq, Eq, Structural, Debug)]
pub struct FrameInput {
    pub dyaw: i64,
    pub dx: i64,
    pub dz: i64,
    pub grab: bool,
}

/// Create one key paired with its visual entity: both carry `key_id`, the
/// shared stable id through which a pickup removes them together.
pub fn gen_key_pair(key_id: usize, trf: Pose, model: Model, starts: usize, opens: usize) -> (r: (
    RoomKey,
    Textured,
))
    ensures
        r.0 == (RoomKey {
            key_id,
            starts_roomid: starts,
            opens_wallid: opens,
            picked_up: false,
        }),
        r.1 == (Textured { trf, model, key_id: Some(key_id) }),
{
    let key = RoomKey { key_id, starts_roomid: starts, opens_wallid: opens, picked_up: false };
    let texture = Textured { trf, model, key_id: Some(key_id) };
    (key, texture)
}

/// Create several key/visual pairs, one per pose and (start room, opens
/// wall) entry, with consecutive ids from `first_key_id` on. Surplus
/// entries of the longer input are ignored.
pub fn multiple_key_pairs(
    first_key_id: usize,
    trfs: Vec<Pose>,
    model: Model,
    start_open: Vec<(usize, usize)>,
) -> (r: (Vec<RoomKey>, Vec<Textured>))
    requires
        first_key_id + trfs@.len() <= usize::MAX,
    ensures
        ({
            let n = if trfs@.len() <= start_open@.len() {
                trfs@.len() as int
            } else {
                start_open@.len() as int
            };
            &&& r.0@.len() == n
            &&& r.1@.len() == n
            &&& forall|i: int|
                0 <= i < n ==> r.0@[i] == (RoomKey {
                    key_id: (first_key_id + i) as usize,
                    starts_roomid: start_open@[i].0,
                    opens_wallid: start_open@[i].1,
                    picked_up: false,
                })
            &&& forall|i: int|
                0 <= i < n ==> r.1@[i] == (Textured {
                    trf: trfs@[i],
                    model,
                    key_id: Some((first_key_id + i) as usize),
                })
        }),
{
    let n = if trfs.len() <= start_open.len() {
        trfs.len()
    } else {
        start_open.len()
    };
    let mut keys: Vec<RoomKey> = Vec::new();
    let mut textures: Vec<Textured> = Vec::new();
    let mut i: usize = 0;
    while i < n
        invariant
            n <= trfs@.len(),
            n <= start_open@.len(),
            first_key_id + trfs@.len() <= usize::MAX,
            0 <= i <= n,
            keys@.len() == i,
            textures@.len() == i,
            forall|j: int|
                0 <= j < i ==> keys@[j] == (RoomKey {
                    key_id: (first_key_id + j) as usize,
                    starts_roomid: start_open@[j].0,
                    opens_wallid: start_open@[j].1,
                    picked_up: false,
                }),
            forall|j: int|
                0 <= j < i ==> textures@[j] == (Textured {
                    trf: trfs@[j],
                    model,
                    key_id: Some((first_key_id + j) as usize),
                }),
        decreases n - i,
    {
        let (start, open) = start_open[i];
        let (k, t) = gen_key_pair(first_key_id + i, trfs[i], model, start, open);
        keys.push(k);
        textures.push(t);
        i += 1;
    }
    (keys, textures)
}

/// The three wall models a world is built with: one per door state.
#[derive(Clone, Copy, PartialEq, Eq, Structural, Debug)]
pub struct WallModels {
    pub solid: Model,
    pub open: Model,
    pub locked: Model,
}

/// The room a room record describes.
pub open spec fn spec_room_of(d: RoomDesc) -> Room {
    Room {
        id: d.id,
        flats: d.flats,
        connected_rooms: d.connected_rooms,
        bottom_left_corner: d.bottom_left_corner,
    }
}

/// The pose of the flat a wall record describes: at (x, FLAT_Y, z), in its
/// default orientation or rotated a quarter turn.
pub open spec fn spec_flat_pose(d: FlatDesc) -> Pose {
    Pose {
        translation: Vec3 { x: d.x, y: FLAT_Y, z: d.z },
        yaw: if d.is_identity {
            0
        } else {
            QUARTER_TURN as i64
        },
        scale: FLAT_SCALE,
    }
}

/// The flat a wall record describes: it presents the model of its door
/// state, and opens to the open-door model.
pub open spec fn spec_flat_of(d: FlatDesc, models: WallModels) -> Flat {
    Flat {
        trf: spec_flat_pose(d),
        model: if d.door == 1 {
            models.open
        } else if d.door == 2 {
            models.locked
        } else {
            models.solid
        },
        open_model: models.open,
    }
}

/// The wall a wall record (at position `i` of the description) describes.
/// Solid and locked walls block with a collision box centered `WALL_FIX`
/// units off the flat's position, extended along the wall's orientation;
/// an open door blocks nothing. The displacement multiplier pushes the
/// first and third walls toward positive axes and all others toward
/// negative axes.
pub open spec fn spec_wall_of(d: FlatDesc, i: int) -> Wall {
    Wall {
        collision: if d.door == 1 {
            None
        } else {
            Some(
                Aabb2D {
                    center: Vec2 { x: (d.x - WALL_FIX) as i64, z: (d.z - WALL_FIX) as i64 },
                    half_widths: if d.is_identity {
                        Vec2 { x: WALL_HALF_THICKNESS, z: ROOM_HALF_LENGTH }
                    } else {
                        Vec2 { x: ROOM_HALF_WIDTH, z: WALL_HALF_THICKNESS }
                    },
                    disp_mult: if i == 0 || i == 2 {
                        1
                    } else {
                        -1 as i64
                    },
                },
            )
        },
        door: if d.door == 1 {
            DoorState::Open
        } else if d.door == 2 {
            DoorState::Locked
        } else {
            DoorState::Solid
        },
    }
}

/// The world: animated things, the player (who owns the map), the walls'
/// visual flats (index-aligned with the map's walls), and the textured
/// entities, key visuals among them.
#[derive(Debug)]
pub struct World {
    pub things: Vec<GameObject>,
    pub player: Player,
    pub flats: Vec<Flat>,
    pub textured: Vec<Textured>,
}

impl World {
    /// The player (and so the map) is well formed, every textured entity
    /// sits in coordinate range, and each flat has its wall.
    pub open spec fn wf(self) -> bool {
        &&& self.player.wf()
        &&& textureds_in_range(self.textured@)
        &&& self.player.map.walls@.len() == self.flats@.len()
    }

    /// One frame of the update phase, in this order: animated things tick;
    /// the grab action (if it fired) resolves the room at the pre-movement
    /// position and picks up a nearby key; movement integrates into the
    /// pose; the current room is re-resolved at the new position; and the
    /// position is clamped into the resolved room's rectangle with the
    /// standard margin. With no room resolved the clamp is skipped and the
    /// position stands as moved.
    pub fn update(&mut self, input: &FrameInput)
        requires
            old(self).wf(),
            in_coord_range(input.dx as int),
            in_coord_range(input.dz as int),
        ensures
            final(self).wf(),
            final(self).flats == old(self).flats,
            final(self).things@.len() == old(self).things@.len(),
            forall|i: int|
                0 <= i < old(self).things@.len() ==> {
                    let t0 = old(self).things@[i];
                    let t1 = #[trigger] final(self).things@[i];
                    &&& t1.trf == t0.trf
                    &&& t1.model == t0.model
                    &&& t1.animation == t0.animation
                    &&& t1.anim_ticks == if t0.anim_ticks < u64::MAX {
                        t0.anim_ticks + 1
                    } else {
                        u64::MAX as int
                    }
                },
            // The grab stage relates the old state to an intermediate one;
            // the later stages only move the pose and re-resolve the room.
            exists|pm: Player|
                {
                    &&& if input.grab {
                        grab_post(old(self).player, old(self).textured@, pm, final(self).textured@)
                    } else {
                        pm == old(self).player && final(self).textured@ == old(self).textured@
                    }
                    &&& #[trigger] pm.wf()
                    &&& final(self).player.keys_grabbed == pm.keys_grabbed
                    &&& final(self).player.won == pm.won
                    &&& final(self).player.map == pm.map
                },
            ({
                let t0 = old(self).player.object.trf;
                let moved_x = spec_clamp(
                    t0.translation.x + input.dx,
                    -COORD_LIMIT as int,
                    COORD_LIMIT as int,
                );
                let moved_z = spec_clamp(
                    t0.translation.z + input.dz,
                    -COORD_LIMIT as int,
                    COORD_LIMIT as int,
                );
                let resolved = spec_find_room(
                    old(self).player.map.rooms_list@,
                    old(self).player.map.room_width as int,
                    old(self).player.map.room_length as int,
                    moved_x,
                    moved_z,
                );
                let p1 = final(self).player.object.trf;
                &&& final(self).player.current_room == resolved
                &&& p1.yaw == spec_wrap_angle(t0.yaw + input.dyaw)
                &&& p1.translation.y == t0.translation.y
                &&& p1.scale == t0.scale
                &&& match resolved {
                    // No containing room: clamping is skipped, the moved
                    // position stands.
                    None => p1.translation.x == moved_x && p1.translation.z == moved_z,
                    Some(id) => match old(self).player.map.spec_room_by_id(id) {
                        None => p1.translation.x == moved_x && p1.translation.z == moved_z,
                        Some(room) => {
                            let cx = room.bottom_left_corner[0] as int;
                            let cz = room.bottom_left_corner[1] as int;
                            &&& p1.translation.x == spec_clamp(
                                moved_x,
                                cx + BOUNDS_MARGIN,
                                cx + old(self).player.map.room_width - BOUNDS_MARGIN,
                            )
                            &&& p1.translation.z == spec_clamp(
                                moved_z,
                                cz + BOUNDS_MARGIN,
                                cz + old(self).player.map.room_length - BOUNDS_MARGIN,
                            )
                            // Whatever the movement input, the frame ends
                            // with the player inside the resolved room.
                            &&& room.spec_contains(
                                old(self).player.map.room_width as int,
                                old(self).player.map.room_length as int,
                                p1.translation.x as int,
                                p1.translation.z as int,
                            )
                        },
                    },
                }
            }),
    {
        let n = self.things.len();
        let mut i: usize = 0;
        while i < n
            invariant
                n == self.things@.len(),
                n == old(self).things@.len(),
                0 <= i <= n,
                self.player == old(self).player,
                self.textured == old(self).textured,
                self.flats == old(self).flats,
                forall|j: int|
                    i <= j < n ==> #[trigger] self.things@[j] == old(self).things@[j],
                forall|j: int|
                    0 <= j < i ==> {
                        let t0 = old(self).things@[j];
                        let t1 = #[trigger] self.things@[j];
                        &&& t1.trf == t0.trf
                        &&& t1.model == t0.model
                        &&& t1.animation == t0.animation
                        &&& t1.anim_ticks == if t0.anim_ticks < u64::MAX {
                            t0.anim_ticks + 1
                        } else {
                            u64::MAX as int
                        }
                    },
            decreases n - i,
        {
            let obj = &mut self.things[i];
            obj.tick_animation();
            i += 1;
        }
        if input.grab {
            self.player.grab(&mut self.textured);
        }
        let ghost pm = self.player;
        self.player.apply_movement(input.dyaw, input.dx, input.dz);
        self.player.find_current_room();
        self.player.clamp_to_room_bounds(BOUNDS_MARGIN);
        proof {
            assert(pm.wf());
            assert(textureds_in_range(self.textured@));
        }
    }

    /// Build a world from a validated map description: one room per room
    /// record, and one wall with its flat per wall record. The player
    /// starts in `start_room_id`; keys are added afterwards through the
    /// map's registry.
    pub fn from_description(
        desc: &MapDescription,
        start_room_id: usize,
        end_room_id: usize,
        models: WallModels,
        player_object: GameObject,
    ) -> (w: World)
        requires
            desc.wf(),
            forall|i: int, j: int|
                #![trigger desc.rooms@[i], desc.rooms@[j]]
                0 <= i < j < desc.rooms@.len() ==> desc.rooms@[i].id != desc.rooms@[j].id,
            player_object.trf.wf(),
        ensures
            w.wf(),
            w.player.map.start_room_id == start_room_id,
            w.player.map.end_room_id == end_room_id,
            w.player.map.room_width == ROOM_WIDTH,
            w.player.map.room_length == ROOM_LENGTH,
            w.player.map.rooms_list@.len() == desc.rooms@.len(),
            forall|i: int|
                0 <= i < desc.rooms@.len() ==> w.player.map.rooms_list@[i] == spec_room_of(
                    #[trigger] desc.rooms@[i],
                ),
            w.player.map.room_keys@ == Seq::<crate::map::KeyList>::empty(),
            w.player.map.walls@.len() == desc.flats@.len(),
            w.flats@.len() == desc.flats@.len(),
            forall|i: int|
                0 <= i < desc.flats@.len() ==> w.flats@[i] == spec_flat_of(
                    #[trigger] desc.flats@[i],
                    models,
                ),
            forall|i: int|
                0 <= i < desc.flats@.len() ==> w.player.map.walls@[i] == spec_wall_of(
                    #[trigger] desc.flats@[i],
                    i,
                ),
            w.textured@ == Seq::<Textured>::empty(),
            w.things@ == Seq::<GameObject>::empty(),
            w.player.object == player_object,
            w.player.keys_grabbed@ == Seq::<RoomKey>::empty(),
            w.player.current_room == Some(start_room_id),
            w.player.won == false,
    {
        let mut map = RoomMap::new(start_room_id, end_room_id);
        let n = desc.rooms.len();
        let mut i: usize = 0;
        while i < n
            invariant
                n == desc.rooms@.len(),
                0 <= i <= n,
                desc.wf(),
                forall|a: int, b: int|
                    #![trigger desc.rooms@[a], desc.rooms@[b]]
                    0 <= a < b < desc.rooms@.len() ==> desc.rooms@[a].id != desc.rooms@[b].id,
                map.wf(),
                map.start_room_id == start_room_id,
                map.end_room_id == end_room_id,
                map.room_width == ROOM_WIDTH,
                map.room_length == ROOM_LENGTH,
                map.room_keys@ == Seq::<crate::map::KeyList>::empty(),
                map.walls@ == Seq::<Wall>::empty(),
                map.rooms_list@.len() == i,
                forall|j: int|
                    0 <= j < i ==> map.rooms_list@[j] == spec_room_of(#[trigger] desc.rooms@[j]),
            decreases n - i,
        {
            let rd = desc.rooms[i];
            proof {
                crate::map::lemma_room_index_from_props(map.rooms_list@, rd.id, 0);
                if room_index_of(map.rooms_list@, rd.id) is Some {
                    let j = room_index_of(map.rooms_list@, rd.id)->Some_0;
                    assert(map.rooms_list@[j] == spec_room_of(desc.rooms@[j]));
                    assert(desc.rooms@[j].id == desc.rooms@[i as int].id);
                }
            }
            map.add_room(rd.id, rd.flats, rd.connected_rooms, rd.bottom_left_corner);
            i += 1;
        }
        let m = desc.flats.len();
        let mut flats: Vec<Flat> = Vec::new();
        let mut walls: Vec<Wall> = Vec::new();
        let mut k: usize = 0;
        while k < m
            invariant
                m == desc.flats@.len(),
                0 <= k <= m,
                desc.wf(),
                flats@.len() == k,
                walls@.len() == k,
                forall|j: int|
                    0 <= j < k ==> flats@[j] == spec_flat_of(#[trigger] desc.flats@[j], models),
                forall|j: int|
                    0 <= j < k ==> walls@[j] == spec_wall_of(#[trigger] desc.flats@[j], j),
            decreases m - k,
        {
            let fd = desc.flats[k];
            let yaw: i64 = if fd.is_identity {
                0
            } else {
                QUARTER_TURN
            };
            let trf = Pose { translation: Vec3 { x: fd.x, y: FLAT_Y, z: fd.z }, yaw, scale: FLAT_SCALE };
            let (door, has_collision) = if fd.door == 1 {
                (DoorState::Open, false)
            } else if fd.door == 2 {
                (DoorState::Locked, true)
            } else {
                (DoorState::Solid, true)
            };
            let model = match door {
                DoorState::Open => models.open,
                DoorState::Locked => models.locked,
                DoorState::Solid => models.solid,
            };
            let collision = if has_collision {
                let half_widths = if fd.is_identity {
                    Vec2 { x: WALL_HALF_THICKNESS, z: ROOM_HALF_LENGTH }
                } else {
                    Vec2 { x: ROOM_HALF_WIDTH, z: WALL_HALF_THICKNESS }
                };
                let disp_mult: i64 = if k == 0 || k == 2 {
                    1
                } else {
                    -1
                };
                Some(
                    Aabb2D {
                        center: Vec2 { x: fd.x - WALL_FIX, z: fd.z - WALL_FIX },
                        half_widths,
                        disp_mult,
                    },
                )
            } else {
                None
            };
            flats.push(Flat { trf, model, open_model: models.open });
            walls.push(Wall { collision, door });
            k += 1;
        }
        map.add_walls(walls);
        let player = Player {
            object: player_object,
            keys_grabbed: Vec::new(),
            current_room: Some(start_room_id),
            map,
            won: false,
        };
        World { things: Vec::new(), player, flats, textured: Vec::new() }
    }

    /// The model each wall's flat presents this frame: the open-door model
    /// wherever the wall's door stands open, and the flat's own (solid or
    /// locked) model everywhere else. A pure read: door state changes at
    /// pickup time, never during rendering.
    pub fn flat_models(&self) -> (r: Vec<Model>)
        requires
            self.wf(),
        ensures
            r@.len() == self.flats@.len(),
            forall|i: int|
                0 <= i < self.flats@.len() ==> r@[i] == if self.player.map.walls@[i].spec_passable() {
                    (#[trigger] self.flats@[i]).open_model
                } else {
                    self.flats@[i].model
                },
    {
        let n = self.flats.len();
        let mut out: Vec<Model> = Vec::new();
        let mut i: usize = 0;
        while i < n
            invariant
                n == self.flats@.len(),
                n == self.player.map.walls@.len(),
                0 <= i <= n,
                out@.len() == i,
                forall|j: int|
                    0 <= j < i ==> out@[j] == if self.player.map.walls@[j].spec_passable() {
                        (#[trigger] self.flats@[j]).open_model
                    } else {
                        self.flats@[j].model
                    },
            decreases n - i,
        {
            if self.player.map.walls[i].is_passable() {
                out.push(self.flats[i].open_model);
            } else {
                out.push(self.flats[i].model);
            }
            i += 1;
        }
        out
    }
}

} // verus!
