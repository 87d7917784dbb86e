//! The player: pose, current-room tracking, movement integration, boundary
//! clamping against the current room, and the grab action that picks up a
//! nearby key and unlocks the wall it opens.

use crate::assets::Model;
use crate::geom::{
    distance_sq, spec_dist_sq3, spec_wrap_angle, Circle, Pose, Vec2, Vec3, YAW_FULL_TURN,
};
use crate::map::{key_index_of, spec_find_room, RoomKey, RoomMap};
use crate::world::Textured;
use crate::{clamp_i64, in_coord_range, spec_clamp, COORD_LIMIT};
use vstd::prelude::*;

verus! {

/// A key can be grabbed when its visual lies strictly closer than this to
/// the player.
pub const GRAB_THRESHOLD: i64 = 100;

/// Margin kept to the room's walls by the per-frame boundary clamp.
pub const BOUNDS_MARGIN: i64 = 10;

/// Margin the collision handler pushes the player back in by when it finds
/// the player outside the current room's rectangle.
pub const COLLISION_MARGIN: i64 = 2;

/// World units the player advances per frame and unit of input axis.
pub const MOVE_SPEED: i64 = 100;

/// Radius of the player's collision circle.
pub const PLAYER_RADIUS: i64 = 1;

/// A visible, optionally animated entity: pose, optional model, an opaque
/// animation handle and the animation clock in ticks.
#[derive(Clone, Copy, PartialEq, Eq, Debug)]
pub struct GameObject {
    pub trf: Pose,
    pub model: Option<Model>,
    pub animation: usize,
    pub anim_ticks: u64,
}

impl GameObject {
    /// Advance the animation clock by one tick; it saturates at its limit.
    pub fn tick_animation(&mut self)
        ensures
            final(self).anim_ticks == if old(self).anim_ticks < u64::MAX {
                old(self).anim_ticks + 1
            } else {
                u64::MAX as int
            },
            final(self).trf == old(self).trf,
            final(self).model == old(self).model,
            final(self).animation == old(self).animation,
    {
        if self.anim_ticks < u64::MAX {
            self.anim_ticks = self.anim_ticks + 1;
        }
    }

    /// Translate the entity by `v`.
    pub fn move_by(&mut self, v: Vec3)
        requires
            in_coord_range(old(self).trf.translation.x + v.x),
            in_coord_range(old(self).trf.translation.y + v.y),
            in_coord_range(old(self).trf.translation.z + v.z),
            old(self).trf.translation.in_range(),
            v.in_range(),
        ensures
            final(self).trf.translation.x == old(self).trf.translation.x + v.x,
            final(self).trf.translation.y == old(self).trf.translation.y + v.y,
            final(self).trf.translation.z == old(self).trf.translation.z + v.z,
            final(self).trf.yaw == old(self).trf.yaw,
            final(self).trf.scale == old(self).trf.scale,
            final(self).model == old(self).model,
            final(self).animation == old(self).animation,
            final(self).anim_ticks == old(self).anim_ticks,
    {
        self.trf.translation.x = self.trf.translation.x + v.x;
        self.trf.translation.y = self.trf.translation.y + v.y;
        self.trf.translation.z = self.trf.translation.z + v.z;
    }
}

/// The player: pose and animation state, the keys grabbed so far, the room
/// currently occupied (`None` when the position lies in no room), the map
/// being played, and whether the end room has been reached.
#[derive(Debug)]
pub struct Player {
    pub object: GameObject,
    pub keys_grabbed: Vec<RoomKey>,
    pub current_room: Option<usize>,
    pub map: RoomMap,
    pub won: bool,
}

/// The textured entity is a key visual lying strictly within grab range of
/// `pos`.
pub open spec fn spec_is_candidate(t: Textured, pos: Vec3) -> bool {
    t.key_id is Some && spec_dist_sq3(pos, t.trf.translation) < GRAB_THRESHOLD * GRAB_THRESHOLD
}

/// Index of the first key visual within grab range, scanning from `i`.
pub open spec fn spec_first_candidate_from(ts: Seq<Textured>, pos: Vec3, i: int) -> Option<int>
    decreases ts.len() - i,
{
    if i < 0 || i >= ts.len() {
        None
    } else if spec_is_candidate(ts[i], pos) {
        Some(i)
    } else {
        spec_first_candidate_from(ts, pos, i + 1)
    }
}

/// Index of the first key visual within grab range of `pos`.
pub open spec fn spec_first_candidate(ts: Seq<Textured>, pos: Vec3) -> Option<int> {
    spec_first_candidate_from(ts, pos, 0)
}

/// What the candidate scan returns: `None` exactly when no key visual from
/// `i` on is within reach, and otherwise the first one that is.
pub proof fn lemma_first_candidate_from_props(ts: Seq<Textured>, pos: Vec3, i: int)
    requires
        0 <= i <= ts.len(),
    ensures
        spec_first_candidate_from(ts, pos, i) is None <==> (forall|j: int|
            i <= j < ts.len() ==> !spec_is_candidate(#[trigger] ts[j], pos)),
        spec_first_candidate_from(ts, pos, i) matches Some(j) ==> i <= j < ts.len()
            && spec_is_candidate(ts[j], pos) && (forall|j2: int|
            i <= j2 < j ==> !spec_is_candidate(#[trigger] ts[j2], pos)),
    decreases ts.len() - i,
{
    if i < ts.len() {
        if !spec_is_candidate(ts[i], pos) {
            lemma_first_candidate_from_props(ts, pos, i + 1);
        }
    }
}

/// Every textured entity's position lies in the supported coordinate range.
pub open spec fn textureds_in_range(ts: Seq<Textured>) -> bool {
    forall|i: int| 0 <= i < ts.len() ==> (#[trigger] ts[i]).trf.translation.in_range()
}

/// The Euclidean remainder of `x` by `m` is `x` itself when `x` already
/// lies in `[0, m)`.
proof fn lemma_small_mod_int(x: int, m: int)
    requires
        0 <= x < m,
    ensures
        x % m == x,
{
    vstd::arithmetic::div_mod::lemma_fundamental_div_mod(x, m);
    vstd::arithmetic::div_mod::lemma_mod_division_less_than_divisor(x, m);
    let q = x / m;
    assert(m * q == x - x % m);
    assert(q == 0) by (nonlinear_arith)
        requires
            m > 0,
            -m < m * q < m,
    ;
}

/// Reducing a yaw delta through its magnitude's remainder by one turn
/// yields the delta's Euclidean remainder, a value in `[0, YAW_FULL_TURN)`.
proof fn lemma_yaw_delta_wraps(dyaw: int, d: int)
    requires
        ({
            let t = YAW_FULL_TURN as int;
            let mag = if dyaw >= 0 {
                dyaw
            } else {
                -dyaw
            };
            let rem = mag % t;
            d == if dyaw >= 0 {
                rem
            } else if rem == 0 {
                0int
            } else {
                t - rem
            }
        }),
    ensures
        d == dyaw % (YAW_FULL_TURN as int),
        0 <= d < YAW_FULL_TURN,
{
    let t = YAW_FULL_TURN as int;
    let mag = if dyaw >= 0 {
        dyaw
    } else {
        -dyaw
    };
    let rem = mag % t;
    vstd::arithmetic::div_mod::lemma_mod_division_less_than_divisor(mag, t);
    if dyaw < 0 {
        vstd::arithmetic::div_mod::lemma_fundamental_div_mod(mag, t);
        let q = mag / t;
        if rem == 0 {
            assert(dyaw == t * (-q) + 0) by (nonlinear_arith)
                requires
                    dyaw == -mag,
                    mag == t * q + 0,
            ;
            vstd::arithmetic::div_mod::lemma_mod_multiples_vanish(-q, 0, t);
            lemma_small_mod_int(0, t);
        } else {
            assert(dyaw == t * (-q - 1) + (t - rem)) by (nonlinear_arith)
                requires
                    dyaw == -mag,
                    mag == t * q + rem,
            ;
            vstd::arithmetic::div_mod::lemma_mod_multiples_vanish(-q - 1, t - rem, t);
            lemma_small_mod_int(t - rem, t);
        }
    }
}

/// A single conditional subtraction wraps the sum of an in-range yaw and a
/// reduced delta back into one turn, matching the Euclidean remainder of
/// the raw sum.
proof fn lemma_yaw_wrap_once(yaw: int, dyaw: int, d: int)
    requires
        0 <= yaw < YAW_FULL_TURN,
        d == dyaw % (YAW_FULL_TURN as int),
        0 <= d < YAW_FULL_TURN,
    ensures
        (if yaw + d >= YAW_FULL_TURN {
            yaw + d - YAW_FULL_TURN
        } else {
            yaw + d
        }) == (yaw + dyaw) % (YAW_FULL_TURN as int),
{
    let t = YAW_FULL_TURN as int;
    vstd::arithmetic::div_mod::lemma_add_mod_noop(yaw, dyaw, t);
    lemma_small_mod_int(yaw, t);
    let sum = yaw + d;
    if sum >= t {
        vstd::arithmetic::div_mod::lemma_mod_multiples_vanish(1, sum - t, t);
        assert(t * 1 + (sum - t) == sum) by (nonlinear_arith);
        lemma_small_mod_int(sum - t, t);
    } else {
        lemma_small_mod_int(sum, t);
    }
}

impl Player {
    /// The map is well formed and the player's pose is in range.
    pub open spec fn wf(self) -> bool {
        self.map.wf() && self.object.trf.wf()
    }

    /// Id of the room whose rectangle contains the player's position, if
    /// any: what room resolution yields.
    pub open spec fn spec_resolved_room(self) -> Option<usize> {
        spec_find_room(
            self.map.rooms_list@,
            self.map.room_width as int,
            self.map.room_length as int,
            self.object.trf.translation.x as int,
            self.object.trf.translation.z as int,
        )
    }

    /// The player's collision shape in the horizontal plane: a circle
    /// around the player's position, for displacement tests against the
    /// walls' collision boxes.
    pub fn shape(&self) -> (c: Circle)
        ensures
            c == (Circle {
                center: Vec2 {
                    x: self.object.trf.translation.x,
                    z: self.object.trf.translation.z,
                },
                radius: PLAYER_RADIUS,
            }),
    {
        Circle {
            center: Vec2 { x: self.object.trf.translation.x, z: self.object.trf.translation.z },
            radius: PLAYER_RADIUS,
        }
    }

    /// Set the current room directly.
    pub fn change_room(&mut self, new_roomid: usize)
        ensures
            final(self).current_room == Some(new_roomid),
            final(self).object == old(self).object,
            final(self).keys_grabbed == old(self).keys_grabbed,
            final(self).map == old(self).map,
            final(self).won == old(self).won,
    {
        self.current_room = Some(new_roomid);
    }

    /// Re-resolve the current room from the player's position: the room
    /// whose rectangle contains it, or `None` when no room does.
    pub fn find_current_room(&mut self)
        requires
            old(self).wf(),
        ensures
            final(self).current_room == old(self).spec_resolved_room(),
            final(self).object == old(self).object,
            final(self).keys_grabbed == old(self).keys_grabbed,
            final(self).map == old(self).map,
            final(self).won == old(self).won,
            final(self).wf(),
    {
        let room_id = self.map.find_current_room(
            self.object.trf.translation.x,
            self.object.trf.translation.z,
        );
        match room_id {
            Some(id) => self.change_room(id),
            None => {
                self.current_room = None;
            },
        }
    }

    /// Integrate one frame of movement: turn the yaw by `dyaw` (any delta;
    /// the result wraps into one turn), then move by the world-frame delta
    /// (`dx`, `dz`), keeping the position inside the supported coordinate
    /// range. The input collaborator produces the world-frame delta from
    /// the input axes and the new yaw.
    pub fn apply_movement(&mut self, dyaw: i64, dx: i64, dz: i64)
        requires
            old(self).wf(),
            in_coord_range(dx as int),
            in_coord_range(dz as int),
        ensures
            final(self).object.trf.yaw == spec_wrap_angle(old(self).object.trf.yaw + dyaw),
            final(self).object.trf.translation.x == spec_clamp(
                old(self).object.trf.translation.x + dx,
                -COORD_LIMIT as int,
                COORD_LIMIT as int,
            ),
            final(self).object.trf.translation.z == spec_clamp(
                old(self).object.trf.translation.z + dz,
                -COORD_LIMIT as int,
                COORD_LIMIT as int,
            ),
            final(self).object.trf.translation.y == old(self).object.trf.translation.y,
            final(self).object.trf.scale == old(self).object.trf.scale,
            final(self).object.model == old(self).object.model,
            final(self).object.animation == old(self).object.animation,
            final(self).object.anim_ticks == old(self).object.anim_ticks,
            final(self).keys_grabbed == old(self).keys_grabbed,
            final(self).current_room == old(self).current_room,
            final(self).map == old(self).map,
            final(self).won == old(self).won,
            final(self).wf(),
    {
        // Reduce the delta to its Euclidean remainder by one turn, working
        // on the magnitude so that even `i64::MIN` is accepted.
        let magnitude: u64 = if dyaw >= 0 {
            dyaw as u64
        } else {
            (-(dyaw as i128)) as u64
        };
        let remainder: u64 = magnitude % (YAW_FULL_TURN as u64);
        let d: i64 = if dyaw >= 0 {
            remainder as i64
        } else if remainder == 0 {
            0
        } else {
            YAW_FULL_TURN - (remainder as i64)
        };
        proof {
            lemma_yaw_delta_wraps(dyaw as int, d as int);
        }
        let yaw_sum = self.object.trf.yaw + d;
        self.object.trf.yaw = if yaw_sum >= YAW_FULL_TURN {
            yaw_sum - YAW_FULL_TURN
        } else {
            yaw_sum
        };
        proof {
            lemma_yaw_wrap_once(old(self).object.trf.yaw as int, dyaw as int, d as int);
        }
        self.object.trf.translation.x = clamp_i64(
            self.object.trf.translation.x + dx,
            -COORD_LIMIT,
            COORD_LIMIT,
        );
        self.object.trf.translation.z = clamp_i64(
            self.object.trf.translation.z + dz,
            -COORD_LIMIT,
            COORD_LIMIT,
        );
    }

    /// Clamp the player's x and z into the current room's rectangle, kept
    /// `margin` units off its edges. Without a current room, or with a
    /// current-room id the map does not know, nothing moves: an unresolved
    /// room degrades to a no-op, never a crash.
    pub fn clamp_to_room_bounds(&mut self, margin: i64)
        requires
            old(self).wf(),
            0 <= margin,
            2 * margin <= old(self).map.room_width,
            2 * margin <= old(self).map.room_length,
        ensures
            final(self).object.trf.yaw == old(self).object.trf.yaw,
            final(self).object.trf.scale == old(self).object.trf.scale,
            final(self).object.trf.translation.y == old(self).object.trf.translation.y,
            final(self).object.model == old(self).object.model,
            final(self).object.animation == old(self).object.animation,
            final(self).object.anim_ticks == old(self).object.anim_ticks,
            final(self).keys_grabbed == old(self).keys_grabbed,
            final(self).current_room == old(self).current_room,
            final(self).map == old(self).map,
            final(self).won == old(self).won,
            final(self).wf(),
            ({
                let p0 = old(self).object.trf.translation;
                let p1 = final(self).object.trf.translation;
                match old(self).current_room {
                    None => p1 == p0,
                    Some(id) => match old(self).map.spec_room_by_id(id) {
                        None => p1 == p0,
                        Some(room) => {
                            let cx = room.bottom_left_corner[0] as int;
                            let cz = room.bottom_left_corner[1] as int;
                            &&& p1.x == spec_clamp(
                                p0.x as int,
                                cx + margin,
                                cx + old(self).map.room_width - margin,
                            )
                            &&& p1.z == spec_clamp(
                                p0.z as int,
                                cz + margin,
                                cz + old(self).map.room_length - margin,
                            )
                        },
                    },
                }
            }),
            // The boundary-collision law: whenever a known room is current,
            // the clamped position lies within that room's rectangle.
            (match old(self).current_room {
                Some(id) => match old(self).map.spec_room_by_id(id) {
                    Some(room) => room.spec_contains(
                        old(self).map.room_width as int,
                        old(self).map.room_length as int,
                        final(self).object.trf.translation.x as int,
                        final(self).object.trf.translation.z as int,
                    ),
                    None => true,
                },
                None => true,
            }),
    {
        let id = match self.current_room {
            None => {
                return ;
            },
            Some(id) => id,
        };
        let room = match self.map.room_by_id(id) {
            None => {
                return ;
            },
            Some(room) => room,
        };
        proof {
            crate::map::lemma_room_in_map_range(self.map, room, id);
        }
        let cx = room.bottom_left_corner[0];
        let cz = room.bottom_left_corner[1];
        self.object.trf.translation.x = clamp_i64(
            self.object.trf.translation.x,
            cx + margin,
            cx + self.map.room_width - margin,
        );
        self.object.trf.translation.z = clamp_i64(
            self.object.trf.translation.z,
            cz + margin,
            cz + self.map.room_length - margin,
        );
    }
}

impl RoomKey {
    /// Transfer this key to the player: it joins the grabbed list marked as
    /// picked up. The caller removes it from the registry and the scene in
    /// the same step.
    pub fn pick_up(self, player: &mut Player)
        ensures
            final(player).keys_grabbed@ == old(player).keys_grabbed@.push(
                RoomKey {
                    key_id: self.key_id,
                    starts_roomid: self.starts_roomid,
                    opens_wallid: self.opens_wallid,
                    picked_up: true,
                },
            ),
            final(player).object == old(player).object,
            final(player).current_room == old(player).current_room,
            final(player).map == old(player).map,
            final(player).won == old(player).won,
    {
        let picked = RoomKey {
            key_id: self.key_id,
            starts_roomid: self.starts_roomid,
            opens_wallid: self.opens_wallid,
            picked_up: true,
        };
        player.keys_grabbed.push(picked);
    }
}

/// What a grab would pick in the given state: the current room, the index
/// of the first key visual within reach, and the position of its key in
/// that room's key list. `None` when the grab picks nothing: no room, the
/// end room reached, no visual in reach, or a visual whose key does not lie
/// in the current room.
pub open spec fn grab_picks(p0: Player, t0: Seq<Textured>) -> Option<(usize, int, int)> {
    match p0.spec_resolved_room() {
        None => None,
        Some(room) => if room == p0.map.end_room_id {
            None
        } else {
            match spec_first_candidate(t0, p0.object.trf.translation) {
                None => None,
                Some(ti) => match t0[ti].key_id {
                    None => None,
                    Some(kid) => match key_index_of(p0.map.keys_in_room(room), kid) {
                        None => None,
                        Some(ki) => Some((room, ti, ki)),
                    },
                },
            }
        },
    }
}

/// The grab left the registry, the grabbed keys, the win flag and the scene
/// untouched.
pub open spec fn grab_same_state(p0: Player, t0: Seq<Textured>, p1: Player, t1: Seq<Textured>) -> bool {
    &&& t1 == t0
    &&& p1.keys_grabbed == p0.keys_grabbed
    &&& p1.map.room_keys == p0.map.room_keys
    &&& p1.map.walls == p0.map.walls
    &&& p1.won == p0.won
}

/// The grab picked the key at position `ki` of `room`'s key list, whose
/// visual stood at position `ti`: the key leaves the registry and the scene
/// in the same step it joins the grabbed list, and the locked wall it opens
/// (if the slot is in range) opens with its collision box cleared.
pub open spec fn grab_picked(
    p0: Player,
    t0: Seq<Textured>,
    p1: Player,
    t1: Seq<Textured>,
    room: usize,
    ti: int,
    ki: int,
) -> bool {
    let key0 = p0.map.keys_in_room(room)[ki];
    let wid = key0.opens_wallid;
    &&& t1 == t0.remove(ti)
    &&& p1.keys_grabbed@ == p0.keys_grabbed@.push(
        RoomKey {
            key_id: key0.key_id,
            starts_roomid: key0.starts_roomid,
            opens_wallid: key0.opens_wallid,
            picked_up: true,
        },
    )
    &&& p1.map.keys_in_room(room) == p0.map.keys_in_room(room).remove(ki)
    &&& forall|r2: usize| r2 != room ==> p1.map.keys_in_room(r2) == p0.map.keys_in_room(r2)
    &&& !p1.map.has_key_id(key0.key_id)
    &&& forall|id: usize|
        id != key0.key_id ==> (p1.map.has_key_id(id) <==> p0.map.has_key_id(id))
    &&& p1.won == p0.won
    &&& if wid < p0.map.walls@.len() && p0.map.walls@[wid as int].door is Locked {
        &&& p1.map.walls@.len() == p0.map.walls@.len()
        &&& p1.map.walls@[wid as int].door is Open
        &&& p1.map.walls@[wid as int].collision is None
        &&& forall|j: int|
            0 <= j < p0.map.walls@.len() && j != wid ==> p1.map.walls@[j] == p0.map.walls@[j]
    } else {
        p1.map.walls == p0.map.walls
    }
}

/// Exactly what `Player::grab` does to the player and the scene list.
pub open spec fn grab_post(p0: Player, t0: Seq<Textured>, p1: Player, t1: Seq<Textured>) -> bool {
    let found = p0.spec_resolved_room();
    &&& p1.current_room == found
    &&& p1.object == p0.object
    &&& p1.map.rooms_list == p0.map.rooms_list
    &&& p1.map.start_room_id == p0.map.start_room_id
    &&& p1.map.end_room_id == p0.map.end_room_id
    &&& p1.map.room_width == p0.map.room_width
    &&& p1.map.room_length == p0.map.room_length
    &&& if found is Some && found->Some_0 == p0.map.end_room_id {
        &&& p1.won == true
        &&& t1 == t0
        &&& p1.keys_grabbed == p0.keys_grabbed
        &&& p1.map.room_keys == p0.map.room_keys
        &&& p1.map.walls == p0.map.walls
    } else {
        match grab_picks(p0, t0) {
            None => grab_same_state(p0, t0, p1, t1),
            Some((room, ti, ki)) => grab_picked(p0, t0, p1, t1, room, ti, ki),
        }
    }
}

impl Player {
    /// The grab action: resolve the current room; reaching the end room
    /// wins and grabs nothing. Otherwise scan the key visuals for the first
    /// within grab range and take the key with its id out of the current
    /// room's key list: key and visual leave their collections in the same
    /// step the key joins the grabbed list, and the wall the key opens is
    /// unlocked. A visual whose key is not in the current room's list is
    /// left alone: the pickup fails closed as a no-op.
    pub fn grab(&mut self, textureds: &mut Vec<Textured>)
        requires
            old(self).wf(),
            textureds_in_range(old(textureds)@),
        ensures
            grab_post(*old(self), old(textureds)@, *final(self), final(textureds)@),
            final(self).wf(),
            textureds_in_range(final(textureds)@),
    {
        self.find_current_room();
        let room = match self.current_room {
            None => {
                return ;
            },
            Some(r) => r,
        };
        if room == self.map.end_room_id {
            self.won = true;
            return ;
        }
        let pos = self.object.trf.translation;
        let n = textureds.len();
        let mut i: usize = 0;
        while i < n
            invariant
                n == textureds@.len(),
                0 <= i <= n,
                self.wf(),
                textureds_in_range(textureds@),
                textureds@ == old(textureds)@,
                pos == self.object.trf.translation,
                pos.in_range(),
                self.object == old(self).object,
                self.keys_grabbed == old(self).keys_grabbed,
                self.map == old(self).map,
                self.won == old(self).won,
                self.current_room == Some(room),
                old(self).spec_resolved_room() == Some(room),
                room != self.map.end_room_id,
                spec_first_candidate(textureds@, pos) == spec_first_candidate_from(
                    textureds@,
                    pos,
                    i as int,
                ),
            decreases n - i,
        {
            let t = textureds[i];
            match t.key_id {
                Some(kid) => {
                    if distance_sq(pos, t.trf.translation) < GRAB_THRESHOLD * GRAB_THRESHOLD {
                        let ghost mpre = self.map;
                        match self.map.take_key(room, kid) {
                            Some(key) => {
                                proof {
                                    crate::map::lemma_key_index_from_props(
                                        mpre.keys_in_room(room),
                                        kid,
                                        0,
                                    );
                                }
                                let wall_id = key.opens_wallid;
                                key.pick_up(self);
                                let ghost mid = self.map;
                                self.map.open_wall(wall_id);
                                proof {
                                    assert forall|i2: int, k2: int|
                                        0 <= i2 < self.map.room_keys@.len() && 0 <= k2
                                            < self.map.room_keys@[i2].keys@.len() implies (
                                    #[trigger] self.map.room_keys@[i2].keys@[k2]).key_id
                                        != kid by {
                                        assert(self.map.room_keys@[i2] == mid.room_keys@[i2]);
                                        if self.map.room_keys@[i2].keys@[k2].key_id == kid {
                                            assert(mid.has_key_id(kid));
                                        }
                                    }
                                    assert(!self.map.has_key_id(kid));
                                }
                                let ghost tpre = textureds@;
                                textureds.remove(i);
                                proof {
                                    assert forall|j: int|
                                        0 <= j < textureds@.len() implies (
                                    #[trigger] textureds@[j]).trf.translation.in_range() by {
                                        if j < i {
                                            assert(textureds@[j] == tpre[j]);
                                        } else {
                                            assert(textureds@[j] == tpre[j + 1]);
                                        }
                                    }
                                }
                            },
                            None => {},
                        }
                        return ;
                    }
                },
                None => {},
            }
            i += 1;
        }
    }
}

/// Law: picking up a key removes it from its room's key list exactly once.
/// The key's id occurs exactly once in the list before the grab (its
/// position is `ki`), the list shrinks by that one entry, the id is gone
/// from the whole registry afterwards, and the key joins the grabbed list.
pub proof fn lemma_pickup_removes_exactly_once(
    p0: Player,
    t0: Seq<Textured>,
    p1: Player,
    t1: Seq<Textured>,
    room: usize,
    ti: int,
    ki: int,
)
    requires
        p0.wf(),
        grab_post(p0, t0, p1, t1),
        grab_picks(p0, t0) == Some((room, ti, ki)),
    ensures
        0 <= ki < p0.map.keys_in_room(room).len(),
        forall|j: int|
            0 <= j < p0.map.keys_in_room(room).len() && j != ki ==> (#[trigger] p0.map.keys_in_room(
                room,
            )[j]).key_id != p0.map.keys_in_room(room)[ki].key_id,
        p1.map.keys_in_room(room).len() == p0.map.keys_in_room(room).len() - 1,
        !p1.map.has_key_id(p0.map.keys_in_room(room)[ki].key_id),
        p1.keys_grabbed@.len() == p0.keys_grabbed@.len() + 1,
        p1.keys_grabbed@.last().key_id == p0.map.keys_in_room(room)[ki].key_id,
        p1.keys_grabbed@.last().picked_up,
{
    let pos = p0.object.trf.translation;
    let keys0 = p0.map.keys_in_room(room);
    let lists = p0.map.room_keys@;
    assert(p0.spec_resolved_room() == Some(room));
    assert(spec_first_candidate(t0, pos) == Some(ti));
    lemma_first_candidate_from_props(t0, pos, 0);
    assert(0 <= ti < t0.len());
    let kid = t0[ti].key_id->Some_0;
    assert(key_index_of(keys0, kid) == Some(ki));
    crate::map::lemma_key_index_from_props(keys0, kid, 0);
    assert(0 <= ki < keys0.len() && keys0[ki].key_id == kid);
    // The id occurs only at ki: key lists index into the registry, whose
    // ids are globally unique.
    let li = crate::map::list_index_for(lists, room)->Some_0;
    assert(crate::map::list_index_for(lists, room) is Some && keys0 == lists[li].keys@) by {
        assert(keys0.len() > 0);
    }
    crate::map::lemma_list_index_from_props(lists, room, 0);
    assert forall|j: int| 0 <= j < keys0.len() && j != ki implies (#[trigger] keys0[j]).key_id
        != kid by {
        assert(lists[li].keys@[j] == keys0[j]);
        assert(lists[li].keys@[ki] == keys0[ki]);
    }
}

/// Law: pickup is idempotent. When the picked key's visual was the only one
/// within grab range, the scene after the grab holds no candidate at the
/// unchanged position, so a second grab there picks nothing and changes
/// neither the registry, nor the grabbed keys, nor the scene.
pub proof fn lemma_grab_idempotent(
    p0: Player,
    t0: Seq<Textured>,
    p1: Player,
    t1: Seq<Textured>,
    p2: Player,
    t2: Seq<Textured>,
    room: usize,
    ti: int,
    ki: int,
)
    requires
        p0.wf(),
        grab_post(p0, t0, p1, t1),
        grab_post(p1, t1, p2, t2),
        grab_picks(p0, t0) == Some((room, ti, ki)),
        forall|j: int|
            0 <= j < t0.len() && j != ti ==> !spec_is_candidate(
                #[trigger] t0[j],
                p0.object.trf.translation,
            ),
    ensures
        spec_first_candidate(t1, p1.object.trf.translation) is None,
        grab_picks(p1, t1) is None,
        t2 == t1,
        p2.keys_grabbed == p1.keys_grabbed,
        p2.map == p1.map,
        p2.won == p1.won,
{
    let pos = p0.object.trf.translation;
    assert(t1 == t0.remove(ti));
    assert(0 <= ti < t0.len()) by {
        lemma_first_candidate_from_props(t0, pos, 0);
    }
    assert forall|j: int| 0 <= j < t1.len() implies !spec_is_candidate(
        #[trigger] t1[j],
        pos,
    ) by {
        if j < ti {
            assert(t1[j] == t0[j]);
        } else {
            assert(t1[j] == t0[j + 1]);
        }
    }
    lemma_first_candidate_from_props(t1, pos, 0);
    assert(p1.object == p0.object);
    assert(p1.spec_resolved_room() == p0.spec_resolved_room());
    assert(p1.spec_resolved_room() == Some(room));
    assert(room != p0.map.end_room_id);
    assert(grab_picks(p1, t1) is None);
}

/// Law: before pickup, a locked wall reads as blocking; after pickup of a
/// key that opens it, the wall reads as passable and its collision box is
/// gone.
pub proof fn lemma_pickup_opens_locked_wall(
    p0: Player,
    t0: Seq<Textured>,
    p1: Player,
    t1: Seq<Textured>,
    room: usize,
    ti: int,
    ki: int,
)
    requires
        p0.wf(),
        grab_post(p0, t0, p1, t1),
        grab_picks(p0, t0) == Some((room, ti, ki)),
        p0.map.keys_in_room(room)[ki].opens_wallid < p0.map.walls@.len(),
        p0.map.walls@[p0.map.keys_in_room(room)[ki].opens_wallid as int].door is Locked,
    ensures
        !p0.map.walls@[p0.map.keys_in_room(room)[ki].opens_wallid as int].spec_passable(),
        p1.map.walls@[p0.map.keys_in_room(room)[ki].opens_wallid as int].spec_passable(),
        p1.map.walls@[p0.map.keys_in_room(room)[ki].opens_wallid as int].collision is None,
{
}

/// Resolve the current room from the player's position, then push the
/// player back inside the room's rectangle with a small margin if the
/// position lies beyond an edge. Positions already inside the rectangle
/// (which resolution guarantees whenever it finds a room) are untouched;
/// with no room resolved nothing is clamped and play continues.
pub fn handle_collision(player: &mut Player)
    requires
        old(player).wf(),
    ensures
        final(player).current_room == old(player).spec_resolved_room(),
        final(player).object.trf.yaw == old(player).object.trf.yaw,
        final(player).object.trf.scale == old(player).object.trf.scale,
        final(player).object.trf.translation.y == old(player).object.trf.translation.y,
        final(player).object.model == old(player).object.model,
        final(player).object.animation == old(player).object.animation,
        final(player).object.anim_ticks == old(player).object.anim_ticks,
        final(player).keys_grabbed == old(player).keys_grabbed,
        final(player).map == old(player).map,
        final(player).won == old(player).won,
        final(player).wf(),
        ({
            let p0 = old(player).object.trf.translation;
            let p1 = final(player).object.trf.translation;
            let w = old(player).map.room_width as int;
            let l = old(player).map.room_length as int;
            match old(player).spec_resolved_room() {
                None => p1 == p0,
                Some(id) => match old(player).map.spec_room_by_id(id) {
                    None => p1 == p0,
                    Some(room) => {
                        let cx = room.bottom_left_corner[0] as int;
                        let cz = room.bottom_left_corner[1] as int;
                        &&& p1.x == (if p0.x > cx + w {
                            cx + w - COLLISION_MARGIN
                        } else if p0.x < cx {
                            cx + COLLISION_MARGIN
                        } else {
                            p0.x as int
                        })
                        &&& p1.z == (if p0.z > cz + l {
                            cz + l - COLLISION_MARGIN
                        } else if p0.z < cz {
                            cz + COLLISION_MARGIN
                        } else {
                            p0.z as int
                        })
                    },
                },
            }
        }),
        // Whenever a room is resolved and known, the final position lies
        // within that room's rectangle.
        (match old(player).spec_resolved_room() {
            Some(id) => match old(player).map.spec_room_by_id(id) {
                Some(room) => room.spec_contains(
                    old(player).map.room_width as int,
                    old(player).map.room_length as int,
                    final(player).object.trf.translation.x as int,
                    final(player).object.trf.translation.z as int,
                ),
                None => true,
            },
            None => true,
        }),
{
    player.find_current_room();
    let id = match player.current_room {
        None => {
            return ;
        },
        Some(id) => id,
    };
    let room = match player.map.room_by_id(id) {
        None => {
            return ;
        },
        Some(room) => room,
    };
    proof {
        crate::map::lemma_room_in_map_range(player.map, room, id);
    }
    let cx = room.bottom_left_corner[0];
    let cz = room.bottom_left_corner[1];
    let px = player.object.trf.translation.x;
    let pz = player.object.trf.translation.z;
    if px > cx + player.map.room_width {
        player.object.trf.translation.x = cx + player.map.room_width - COLLISION_MARGIN;
    }
    if pz > cz + player.map.room_length {
        player.object.trf.translation.z = cz + player.map.room_length - COLLISION_MARGIN;
    }
    if px < cx {
        player.object.trf.translation.x = cx + COLLISION_MARGIN;
    }
    if pz < cz {
        player.object.trf.translation.z = cz + COLLISION_MARGIN;
    }
}

} // verus!
