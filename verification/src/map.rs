//! The room graph and key/lock registry: rooms keyed by id with rectangular
//! bounds and four directional neighbor slots, per-room key lists, and walls
//! whose door state gates passage.
//!
//! Every key carries a stable `key_id` shared with its visual entity, so the
//! registry and the scene list are kept in step by a shared id rather than
//! by positional arithmetic across two independently mutated collections.

use crate::geom::Aabb2D;
use crate::{in_coord_range, COORD_LIMIT};
use vstd::prelude::*;

verus! {

/// Default width (x extent) of a room's bounding rectangle.
pub const ROOM_WIDTH: i64 = 300;

/// Default length (z extent) of a room's bounding rectangle.
pub const ROOM_LENGTH: i64 = 295;

/// Smallest room extent the map accepts; leaves space for the clamping
/// margins applied to player movement.
pub const MIN_ROOM_EXTENT: i64 = 20;

/// Sentinel stored in a neighbor slot that connects to no room.
pub const NO_NEIGHBOR: usize = usize::MAX;

/// A room: unique id, four wall-slot indices, four directional neighbor
/// slots (north, east, south, west; `NO_NEIGHBOR` for none), and the bottom
/// left corner of its bounding rectangle.
#[derive(Clone, Copy, Debug)]
pub struct Room {
    pub id: usize,
    pub flats: [usize; 4],
    pub connected_rooms: [usize; 4],
    pub bottom_left_corner: [i64; 2],
}

impl Room {
    /// The room's rectangle lies within the supported coordinate range for
    /// a map with rooms `w` wide and `l` long.
    pub open spec fn in_map_range(self, w: int, l: int) -> bool {
        &&& in_coord_range(self.bottom_left_corner[0] as int)
        &&& in_coord_range(self.bottom_left_corner[0] + w)
        &&& in_coord_range(self.bottom_left_corner[1] as int)
        &&& in_coord_range(self.bottom_left_corner[1] + l)
    }

    /// The point (x, z) lies in the room's bounding rectangle, boundaries
    /// included.
    pub open spec fn spec_contains(self, w: int, l: int, x: int, z: int) -> bool {
        &&& self.bottom_left_corner[0] <= x <= self.bottom_left_corner[0] + w
        &&& self.bottom_left_corner[1] <= z <= self.bottom_left_corner[1] + l
    }

    /// Bounds test against the room's rectangle, boundaries included.
    pub fn contains(&self, w: i64, l: i64, x: i64, z: i64) -> (r: bool)
        requires
            self.in_map_range(w as int, l as int),
            0 <= w,
            0 <= l,
        ensures
            r == self.spec_contains(w as int, l as int, x as int, z as int),
    {
        let cx = self.bottom_left_corner[0];
        let cz = self.bottom_left_corner[1];
        cx <= x && x <= cx + w && cz <= z && z <= cz + l
    }

    /// The wall-slot indices of the room's four walls.
    pub fn get_flats(&self) -> (r: &[usize])
        ensures
            r@ == self.flats@,
    {
        &self.flats
    }
}

/// The two rectangles share no point (given inclusive bounds).
pub open spec fn rooms_disjoint(a: Room, b: Room, w: int, l: int) -> bool {
    ||| a.bottom_left_corner[0] + w < b.bottom_left_corner[0]
    ||| b.bottom_left_corner[0] + w < a.bottom_left_corner[0]
    ||| a.bottom_left_corner[1] + l < b.bottom_left_corner[1]
    ||| b.bottom_left_corner[1] + l < a.bottom_left_corner[1]
}

/// All rooms' bounding rectangles are pairwise disjoint: the well-formed
/// map configuration under which containment lookup is unambiguous.
pub open spec fn non_overlapping(rooms: Seq<Room>, w: int, l: int) -> bool {
    forall|i: int, j: int|
        #![trigger rooms[i], rooms[j]]
        0 <= i < rooms.len() && 0 <= j < rooms.len() && i != j ==> rooms_disjoint(
            rooms[i],
            rooms[j],
            w,
            l,
        )
}

/// A key: stable id shared with its visual entity, the room it starts in,
/// the wall slot it opens, and whether it has been picked up.
#[derive(Clone, Copy, PartialEq, Eq, Structural, Debug)]
pub struct RoomKey {
    pub key_id: usize,
    pub starts_roomid: usize,
    pub opens_wallid: usize,
    pub picked_up: bool,
}

/// The keys currently lying in one room.
#[derive(Debug)]
pub struct KeyList {
    pub room: usize,
    pub keys: Vec<RoomKey>,
}

/// Door state of a wall: solid (no door), open door, or locked door.
#[derive(Clone, Copy, PartialEq, Eq, Structural, Debug)]
pub enum DoorState {
    Solid,
    Open,
    Locked,
}

/// A wall: an optional active collision box and a door state. Opening a
/// locked door clears the collision box.
#[derive(Clone, Copy, Debug)]
pub struct Wall {
    pub collision: Option<Aabb2D>,
    pub door: DoorState,
}

impl Wall {
    /// The wall can be walked through: its door stands open.
    pub open spec fn spec_passable(self) -> bool {
        self.door is Open
    }

    /// Whether the wall can be walked through.
    pub fn is_passable(&self) -> (r: bool)
        ensures
            r == self.spec_passable(),
    {
        match self.door {
            DoorState::Open => true,
            _ => false,
        }
    }
}

/// First index at or after `i` of a room with the given id.
pub open spec fn room_index_from(rooms: Seq<Room>, id: usize, i: int) -> Option<int>
    decreases rooms.len() - i,
{
    if i < 0 || i >= rooms.len() {
        None
    } else if rooms[i].id == id {
        Some(i)
    } else {
        room_index_from(rooms, id, i + 1)
    }
}

/// First index of a room with the given id.
pub open spec fn room_index_of(rooms: Seq<Room>, id: usize) -> Option<int> {
    room_index_from(rooms, id, 0)
}

/// First index at or after `i` of the key list for the given room.
pub open spec fn list_index_from(lists: Seq<KeyList>, room: usize, i: int) -> Option<int>
    decreases lists.len() - i,
{
    if i < 0 || i >= lists.len() {
        None
    } else if lists[i].room == room {
        Some(i)
    } else {
        list_index_from(lists, room, i + 1)
    }
}

/// First index of the key list for the given room.
pub open spec fn list_index_for(lists: Seq<KeyList>, room: usize) -> Option<int> {
    list_index_from(lists, room, 0)
}

/// First index at or after `i` of the key with the given id.
pub open spec fn key_index_from(keys: Seq<RoomKey>, id: usize, i: int) -> Option<int>
    decreases keys.len() - i,
{
    if i < 0 || i >= keys.len() {
        None
    } else if keys[i].key_id == id {
        Some(i)
    } else {
        key_index_from(keys, id, i + 1)
    }
}

/// First index of the key with the given id.
pub open spec fn key_index_of(keys: Seq<RoomKey>, id: usize) -> Option<int> {
    key_index_from(keys, id, 0)
}

/// The keys of the sequence that start in the given room, in order.
pub open spec fn spec_keys_for_room(ks: Seq<RoomKey>, room: usize) -> Seq<RoomKey>
    decreases ks.len(),
{
    if ks.len() == 0 {
        Seq::empty()
    } else if ks.last().starts_roomid == room {
        spec_keys_for_room(ks.drop_last(), room).push(ks.last())
    } else {
        spec_keys_for_room(ks.drop_last(), room)
    }
}

/// Id of the first room whose rectangle contains (x, z), scanning from `i`.
pub open spec fn spec_find_room_from(
    rooms: Seq<Room>,
    w: int,
    l: int,
    x: int,
    z: int,
    i: int,
) -> Option<usize>
    decreases rooms.len() - i,
{
    if i < 0 || i >= rooms.len() {
        None
    } else if rooms[i].spec_contains(w, l, x, z) {
        Some(rooms[i].id)
    } else {
        spec_find_room_from(rooms, w, l, x, z, i + 1)
    }
}

/// Id of the first room whose rectangle contains (x, z), or `None` when the
/// point lies outside every room.
pub open spec fn spec_find_room(rooms: Seq<Room>, w: int, l: int, x: int, z: int) -> Option<
    usize,
> {
    spec_find_room_from(rooms, w, l, x, z, 0)
}

/// What the containment scan returns: `None` exactly when no room from `i`
/// on contains the point, and otherwise the id of the first containing room.
pub proof fn lemma_find_room_from_props(rooms: Seq<Room>, w: int, l: int, x: int, z: int, i: int)
    requires
        0 <= i <= rooms.len(),
    ensures
        spec_find_room_from(rooms, w, l, x, z, i) is None <==> (forall|j: int|
            i <= j < rooms.len() ==> !(#[trigger] rooms[j]).spec_contains(w, l, x, z)),
        spec_find_room_from(rooms, w, l, x, z, i) matches Some(id) ==> (exists|j: int|
            i <= j < rooms.len() && (#[trigger] rooms[j]).spec_contains(w, l, x, z) && rooms[j].id
                == id),
    decreases rooms.len() - i,
{
    if i < rooms.len() {
        if !rooms[i].spec_contains(w, l, x, z) {
            lemma_find_room_from_props(rooms, w, l, x, z, i + 1);
        }
    }
}

/// Law: in a map whose room rectangles do not overlap, containment lookup
/// returns the id of the one room containing the point, whichever position
/// that room holds in the list.
pub proof fn lemma_find_room_unique(rooms: Seq<Room>, w: int, l: int, x: int, z: int, k: int)
    requires
        non_overlapping(rooms, w, l),
        0 <= k < rooms.len(),
        rooms[k].spec_contains(w, l, x, z),
    ensures
        spec_find_room(rooms, w, l, x, z) == Some(rooms[k].id),
{
    lemma_find_room_from_props(rooms, w, l, x, z, 0);
    assert(forall|j: int|
        0 <= j < rooms.len() && j != k ==> !(#[trigger] rooms[j]).spec_contains(w, l, x, z));
    let r = spec_find_room(rooms, w, l, x, z);
    assert(r is Some);
    let j = choose|j: int|
        0 <= j < rooms.len() && (#[trigger] rooms[j]).spec_contains(w, l, x, z) && rooms[j].id
            == r->Some_0;
    assert(j == k);
}

/// The room graph and key/lock registry of one map.
#[derive(Debug)]
pub struct RoomMap {
    pub start_room_id: usize,
    pub rooms_list: Vec<Room>,
    pub room_keys: Vec<KeyList>,
    pub end_room_id: usize,
    pub walls: Vec<Wall>,
    pub room_width: i64,
    pub room_length: i64,
}

impl RoomMap {
    /// Room dimensions are sane and every room's rectangle is in range,
    /// with no two rooms sharing an id.
    pub open spec fn rooms_wf(self) -> bool {
        &&& MIN_ROOM_EXTENT <= self.room_width <= COORD_LIMIT
        &&& MIN_ROOM_EXTENT <= self.room_length <= COORD_LIMIT
        &&& forall|i: int|
            0 <= i < self.rooms_list@.len() ==> (#[trigger] self.rooms_list@[i]).in_map_range(
                self.room_width as int,
                self.room_length as int,
            )
        &&& forall|i: int, j: int|
            #![trigger self.rooms_list@[i], self.rooms_list@[j]]
            0 <= i < j < self.rooms_list@.len() ==> self.rooms_list@[i].id
                != self.rooms_list@[j].id
    }

    /// Each room has at most one key list; keys sit in the list of the room
    /// they start in, are not yet picked up, and carry globally unique ids.
    pub open spec fn keys_wf(self) -> bool {
        &&& forall|i: int, j: int|
            #![trigger self.room_keys@[i], self.room_keys@[j]]
            0 <= i < j < self.room_keys@.len() ==> self.room_keys@[i].room
                != self.room_keys@[j].room
        &&& forall|i: int, k: int|
            #![trigger self.room_keys@[i].keys@[k]]
            0 <= i < self.room_keys@.len() && 0 <= k < self.room_keys@[i].keys@.len() ==> {
                &&& self.room_keys@[i].keys@[k].starts_roomid == self.room_keys@[i].room
                &&& !self.room_keys@[i].keys@[k].picked_up
            }
        &&& forall|i: int, k: int, i2: int, k2: int|
            #![trigger self.room_keys@[i].keys@[k], self.room_keys@[i2].keys@[k2]]
            0 <= i < self.room_keys@.len() && 0 <= k < self.room_keys@[i].keys@.len() && 0 <= i2
                < self.room_keys@.len() && 0 <= k2 < self.room_keys@[i2].keys@.len() && !(i == i2
                && k == k2) ==> self.room_keys@[i].keys@[k].key_id
                != self.room_keys@[i2].keys@[k2].key_id
    }

    /// The map's invariant.
    pub open spec fn wf(self) -> bool {
        self.rooms_wf() && self.keys_wf()
    }

    /// The keys currently lying in the given room.
    pub open spec fn keys_in_room(self, room: usize) -> Seq<RoomKey> {
        match list_index_for(self.room_keys@, room) {
            Some(i) => self.room_keys@[i].keys@,
            None => Seq::empty(),
        }
    }

    /// Some key with the given id lies in some room.
    pub open spec fn has_key_id(self, id: usize) -> bool {
        exists|i: int, k: int|
            0 <= i < self.room_keys@.len() && 0 <= k < self.room_keys@[i].keys@.len() && (
            #[trigger] self.room_keys@[i].keys@[k]).key_id == id
    }

    /// The first room in the list with the given id, if any.
    pub open spec fn spec_room_by_id(self, id: usize) -> Option<Room> {
        match room_index_of(self.rooms_list@, id) {
            Some(i) => Some(self.rooms_list@[i]),
            None => None,
        }
    }

    /// An empty map with the default room dimensions.
    pub fn new(start_room_id: usize, end_room_id: usize) -> (m: RoomMap)
        ensures
            m.start_room_id == start_room_id,
            m.end_room_id == end_room_id,
            m.rooms_list@ == Seq::<Room>::empty(),
            m.room_keys@ == Seq::<KeyList>::empty(),
            m.walls@ == Seq::<Wall>::empty(),
            m.room_width == ROOM_WIDTH,
            m.room_length == ROOM_LENGTH,
            m.wf(),
    {
        RoomMap {
            start_room_id,
            rooms_list: Vec::new(),
            room_keys: Vec::new(),
            end_room_id,
            walls: Vec::new(),
            room_width: ROOM_WIDTH,
            room_length: ROOM_LENGTH,
        }
    }

    /// An empty map with explicit room dimensions, for maps at other scales.
    pub fn with_dimensions(start_room_id: usize, end_room_id: usize, room_width: i64, room_length: i64) -> (m:
        RoomMap)
        requires
            MIN_ROOM_EXTENT <= room_width <= COORD_LIMIT,
            MIN_ROOM_EXTENT <= room_length <= COORD_LIMIT,
        ensures
            m.start_room_id == start_room_id,
            m.end_room_id == end_room_id,
            m.rooms_list@ == Seq::<Room>::empty(),
            m.room_keys@ == Seq::<KeyList>::empty(),
            m.walls@ == Seq::<Wall>::empty(),
            m.room_width == room_width,
            m.room_length == room_length,
            m.wf(),
    {
        RoomMap {
            start_room_id,
            rooms_list: Vec::new(),
            room_keys: Vec::new(),
            end_room_id,
            walls: Vec::new(),
            room_width,
            room_length,
        }
    }

    /// The rooms of the map, in insertion order.
    pub fn get_rooms_list(&self) -> (r: &Vec<Room>)
        ensures
            r@ == self.rooms_list@,
    {
        &self.rooms_list
    }

    /// Add a room. Re-adding an id overwrites the previous entry, so the
    /// operation is idempotent by id.
    pub fn add_room(
        &mut self,
        id: usize,
        flats: [usize; 4],
        connected_rooms: [usize; 4],
        bottom_left_corner: [i64; 2],
    )
        requires
            old(self).wf(),
            in_coord_range(bottom_left_corner[0] as int),
            in_coord_range(bottom_left_corner[0] + old(self).room_width),
            in_coord_range(bottom_left_corner[1] as int),
            in_coord_range(bottom_left_corner[1] + old(self).room_length),
        ensures
            final(self).wf(),
            final(self).room_keys == old(self).room_keys,
            final(self).walls == old(self).walls,
            final(self).start_room_id == old(self).start_room_id,
            final(self).end_room_id == old(self).end_room_id,
            final(self).room_width == old(self).room_width,
            final(self).room_length == old(self).room_length,
            ({
                let room = Room { id, flats, connected_rooms, bottom_left_corner };
                match room_index_of(old(self).rooms_list@, id) {
                    Some(i) => final(self).rooms_list@ == old(self).rooms_list@.update(i, room),
                    None => final(self).rooms_list@ == old(self).rooms_list@.push(room),
                }
            }),
    {
        let room = Room { id, flats, connected_rooms, bottom_left_corner };
        let n = self.rooms_list.len();
        let mut i: usize = 0;
        while i < n
            invariant
                n == self.rooms_list@.len(),
                0 <= i <= n,
                *self == *old(self),
                old(self).wf(),
                room == (Room { id, flats, connected_rooms, bottom_left_corner }),
                room.in_map_range(old(self).room_width as int, old(self).room_length as int),
                room_index_of(self.rooms_list@, id) == room_index_from(
                    self.rooms_list@,
                    id,
                    i as int,
                ),
            decreases n - i,
        {
            if self.rooms_list[i].id == id {
                self.rooms_list.set(i, room);
                proof {
                    lemma_rooms_wf_update(*old(self), *self, i as int, room);
                }
                return ;
            }
            i += 1;
        }
        proof {
            assert(room_index_of(self.rooms_list@, id) is None);
        }
        self.rooms_list.push(room);
        proof {
            let rs = self.rooms_list@;
            assert forall|a: int, b: int|
                #![trigger rs[a], rs[b]]
                0 <= a < b < rs.len() implies rs[a].id != rs[b].id by {
                if b == rs.len() - 1 {
                    lemma_room_index_from_none(old(self).rooms_list@, id, a);
                }
            }
            assert forall|a: int|
                0 <= a < rs.len() implies (#[trigger] rs[a]).in_map_range(
                self.room_width as int,
                self.room_length as int,
            ) by {
                if a < rs.len() - 1 {
                    assert(rs[a] == old(self).rooms_list@[a]);
                }
            }
        }
    }

    /// Add walls to the map, replacing any previous set.
    pub fn add_walls(&mut self, w: Vec<Wall>)
        ensures
            final(self).walls == w,
            final(self).rooms_list == old(self).rooms_list,
            final(self).room_keys == old(self).room_keys,
            final(self).start_room_id == old(self).start_room_id,
            final(self).end_room_id == old(self).end_room_id,
            final(self).room_width == old(self).room_width,
            final(self).room_length == old(self).room_length,
            old(self).wf() ==> final(self).wf(),
    {
        self.walls = w;
    }

    /// Id of the first room whose bounding rectangle contains (x, z),
    /// boundaries included, or `None` when the point lies in no room.
    /// With non-overlapping rooms the match is unique; with overlapping
    /// rooms (not a supported configuration) list order decides.
    pub fn find_current_room(&self, x: i64, z: i64) -> (r: Option<usize>)
        requires
            self.wf(),
        ensures
            r == spec_find_room(
                self.rooms_list@,
                self.room_width as int,
                self.room_length as int,
                x as int,
                z as int,
            ),
            r is None <==> (forall|j: int|
                0 <= j < self.rooms_list@.len() ==> !(#[trigger] self.rooms_list@[j]).spec_contains(
                    self.room_width as int,
                    self.room_length as int,
                    x as int,
                    z as int,
                )),
            r matches Some(id) ==> (exists|j: int|
                0 <= j < self.rooms_list@.len() && (#[trigger] self.rooms_list@[j]).spec_contains(
                    self.room_width as int,
                    self.room_length as int,
                    x as int,
                    z as int,
                ) && self.rooms_list@[j].id == id),
    {
        proof {
            lemma_find_room_from_props(
                self.rooms_list@,
                self.room_width as int,
                self.room_length as int,
                x as int,
                z as int,
                0,
            );
        }
        let n = self.rooms_list.len();
        let mut i: usize = 0;
        while i < n
            invariant
                self.wf(),
                n == self.rooms_list@.len(),
                0 <= i <= n,
                spec_find_room(
                    self.rooms_list@,
                    self.room_width as int,
                    self.room_length as int,
                    x as int,
                    z as int,
                ) == spec_find_room_from(
                    self.rooms_list@,
                    self.room_width as int,
                    self.room_length as int,
                    x as int,
                    z as int,
                    i as int,
                ),
            decreases n - i,
        {
            let room = &self.rooms_list[i];
            if room.contains(self.room_width, self.room_length, x, z) {
                return Some(room.id);
            }
            i += 1;
        }
        None
    }

    /// The first room in the list with the given id, if any.
    pub fn room_by_id(&self, id: usize) -> (r: Option<Room>)
        ensures
            r == self.spec_room_by_id(id),
            r matches Some(room) ==> room.id == id,
    {
        let n = self.rooms_list.len();
        let mut i: usize = 0;
        while i < n
            invariant
                n == self.rooms_list@.len(),
                0 <= i <= n,
                room_index_of(self.rooms_list@, id) == room_index_from(
                    self.rooms_list@,
                    id,
                    i as int,
                ),
            decreases n - i,
        {
            if self.rooms_list[i].id == id {
                return Some(self.rooms_list[i]);
            }
            i += 1;
        }
        None
    }

    /// The neighbor of the given room in the given direction (0 north,
    /// 1 east, 2 south, 3 west), or `None` when the room is unknown or the
    /// slot holds the no-neighbor sentinel.
    pub fn neighbor(&self, room_id: usize, direction: usize) -> (r: Option<usize>)
        requires
            direction < 4,
        ensures
            r == match self.spec_room_by_id(room_id) {
                Some(room) => if room.connected_rooms[direction as int] == NO_NEIGHBOR {
                    None::<usize>
                } else {
                    Some(room.connected_rooms[direction as int])
                },
                None => None::<usize>,
            },
    {
        let n = self.rooms_list.len();
        let mut i: usize = 0;
        while i < n
            invariant
                n == self.rooms_list@.len(),
                0 <= i <= n,
                direction < 4,
                room_index_of(self.rooms_list@, room_id) == room_index_from(
                    self.rooms_list@,
                    room_id,
                    i as int,
                ),
            decreases n - i,
        {
            if self.rooms_list[i].id == room_id {
                let slot = self.rooms_list[i].connected_rooms[direction];
                if slot == NO_NEIGHBOR {
                    return None;
                } else {
                    return Some(slot);
                }
            }
            i += 1;
        }
        None
    }
}

impl RoomMap {
    /// Append `key` to the key list of entry `i`, leaving every other entry
    /// untouched.
    fn push_key_at(&mut self, i: usize, key: RoomKey)
        requires
            i < old(self).room_keys@.len(),
        ensures
            final(self).room_keys@.len() == old(self).room_keys@.len(),
            forall|j: int|
                0 <= j < old(self).room_keys@.len() && j != i ==> final(self).room_keys@[j] == old(
                    self,
                ).room_keys@[j],
            final(self).room_keys@[i as int].room == old(self).room_keys@[i as int].room,
            final(self).room_keys@[i as int].keys@ == old(self).room_keys@[i as int].keys@.push(
                key,
            ),
            final(self).rooms_list == old(self).rooms_list,
            final(self).walls == old(self).walls,
            final(self).start_room_id == old(self).start_room_id,
            final(self).end_room_id == old(self).end_room_id,
            final(self).room_width == old(self).room_width,
            final(self).room_length == old(self).room_length,
    {
        let mut entry = self.room_keys.remove(i);
        entry.keys.push(key);
        self.room_keys.insert(i, entry);
    }

    /// Remove and return the key at position `k` of the key list of entry
    /// `i`, leaving every other entry untouched.
    fn remove_key_at(&mut self, i: usize, k: usize) -> (r: RoomKey)
        requires
            i < old(self).room_keys@.len(),
            k < old(self).room_keys@[i as int].keys@.len(),
        ensures
            r == old(self).room_keys@[i as int].keys@[k as int],
            final(self).room_keys@.len() == old(self).room_keys@.len(),
            forall|j: int|
                0 <= j < old(self).room_keys@.len() && j != i ==> final(self).room_keys@[j] == old(
                    self,
                ).room_keys@[j],
            final(self).room_keys@[i as int].room == old(self).room_keys@[i as int].room,
            final(self).room_keys@[i as int].keys@ == old(self).room_keys@[i as int].keys@.remove(
                k as int,
            ),
            final(self).rooms_list == old(self).rooms_list,
            final(self).walls == old(self).walls,
            final(self).start_room_id == old(self).start_room_id,
            final(self).end_room_id == old(self).end_room_id,
            final(self).room_width == old(self).room_width,
            final(self).room_length == old(self).room_length,
    {
        let mut entry = self.room_keys.remove(i);
        let key = entry.keys.remove(k);
        self.room_keys.insert(i, entry);
        key
    }

    /// Open the wall the given slot refers to: a locked door becomes an open
    /// door and the wall's collision box is cleared. A slot out of range or
    /// a wall without a locked door is left unchanged.
    pub fn open_wall(&mut self, wall_id: usize)
        ensures
            final(self).rooms_list == old(self).rooms_list,
            final(self).room_keys == old(self).room_keys,
            final(self).start_room_id == old(self).start_room_id,
            final(self).end_room_id == old(self).end_room_id,
            final(self).room_width == old(self).room_width,
            final(self).room_length == old(self).room_length,
            old(self).wf() ==> final(self).wf(),
            if wall_id < old(self).walls@.len() && old(self).walls@[wall_id as int].door is Locked {
                &&& final(self).walls@.len() == old(self).walls@.len()
                &&& final(self).walls@[wall_id as int].door is Open
                &&& final(self).walls@[wall_id as int].collision is None
                &&& forall|j: int|
                    0 <= j < old(self).walls@.len() && j != wall_id ==> final(self).walls@[j]
                        == old(self).walls@[j]
            } else {
                final(self).walls == old(self).walls
            },
    {
        if wall_id < self.walls.len() {
            match self.walls[wall_id].door {
                DoorState::Locked => {
                    self.walls.set(wall_id, Wall { collision: None, door: DoorState::Open });
                },
                _ => {},
            }
        }
    }
}

/// What the room-id scan returns: `None` exactly when no room from `i` on
/// carries the id, and otherwise the position of the first room that does.
pub proof fn lemma_room_index_from_props(rooms: Seq<Room>, id: usize, i: int)
    requires
        0 <= i <= rooms.len(),
    ensures
        room_index_from(rooms, id, i) is None <==> (forall|j: int|
            i <= j < rooms.len() ==> (#[trigger] rooms[j]).id != id),
        room_index_from(rooms, id, i) matches Some(j) ==> i <= j < rooms.len() && rooms[j].id
            == id,
    decreases rooms.len() - i,
{
    if i < rooms.len() {
        if rooms[i].id != id {
            lemma_room_index_from_props(rooms, id, i + 1);
        }
    }
}

/// A room found by id in a well-formed map lies within the map's coordinate
/// range.
pub proof fn lemma_room_in_map_range(m: RoomMap, room: Room, id: usize)
    requires
        m.wf(),
        m.spec_room_by_id(id) == Some(room),
    ensures
        room.in_map_range(m.room_width as int, m.room_length as int),
        room.id == id,
{
    lemma_room_index_from_props(m.rooms_list@, id, 0);
}

/// What the key-list scan returns: `None` exactly when no list from `i` on
/// belongs to `room`, and otherwise the position of the first such list.
pub proof fn lemma_list_index_from_props(lists: Seq<KeyList>, room: usize, i: int)
    requires
        0 <= i <= lists.len(),
    ensures
        list_index_from(lists, room, i) is None <==> (forall|j: int|
            i <= j < lists.len() ==> (#[trigger] lists[j]).room != room),
        list_index_from(lists, room, i) matches Some(j) ==> i <= j < lists.len() && lists[j].room
            == room && (forall|j2: int| i <= j2 < j ==> (#[trigger] lists[j2]).room != room),
    decreases lists.len() - i,
{
    if i < lists.len() {
        if lists[i].room != room {
            lemma_list_index_from_props(lists, room, i + 1);
        }
    }
}

/// Two key-list sequences with the same length and room tags scan alike.
proof fn lemma_list_index_same_rooms(l0: Seq<KeyList>, l1: Seq<KeyList>, room: usize, i: int)
    requires
        l0.len() == l1.len(),
        forall|j: int| 0 <= j < l0.len() ==> (#[trigger] l0[j]).room == l1[j].room,
        0 <= i,
    ensures
        list_index_from(l0, room, i) == list_index_from(l1, room, i),
    decreases l0.len() - i,
{
    if i < l0.len() {
        lemma_list_index_same_rooms(l0, l1, room, i + 1);
    }
}

/// Appending a key list changes a scan only where the scan found nothing.
proof fn lemma_list_index_push(lists: Seq<KeyList>, nl: KeyList, room: usize, i: int)
    requires
        0 <= i <= lists.len(),
    ensures
        list_index_from(lists.push(nl), room, i) == match list_index_from(lists, room, i) {
            Some(j) => Some(j),
            None => if nl.room == room {
                Some(lists.len() as int)
            } else {
                None
            },
        },
    decreases lists.len() - i,
{
    if i < lists.len() {
        assert(lists.push(nl)[i] == lists[i]);
        lemma_list_index_push(lists, nl, room, i + 1);
    } else {
        assert(lists.push(nl)[i] == nl);
        if nl.room != room {
            assert(list_index_from(lists.push(nl), room, i + 1) is None);
        }
    }
}

/// What the key scan returns: `None` exactly when no key from `i` on bears
/// the id, and otherwise the position of the first key that does.
pub proof fn lemma_key_index_from_props(keys: Seq<RoomKey>, id: usize, i: int)
    requires
        0 <= i <= keys.len(),
    ensures
        key_index_from(keys, id, i) is None <==> (forall|j: int|
            i <= j < keys.len() ==> (#[trigger] keys[j]).key_id != id),
        key_index_from(keys, id, i) matches Some(j) ==> i <= j < keys.len() && keys[j].key_id == id
            && (forall|j2: int| i <= j2 < j ==> (#[trigger] keys[j2]).key_id != id),
    decreases keys.len() - i,
{
    if i < keys.len() {
        if keys[i].key_id != id {
            lemma_key_index_from_props(keys, id, i + 1);
        }
    }
}

impl RoomMap {
    /// Append a key to the list of the room it starts in, creating the list
    /// when the room has none yet. The key's id must be fresh.
    pub fn add_key(&mut self, key: RoomKey)
        requires
            old(self).wf(),
            !old(self).has_key_id(key.key_id),
            !key.picked_up,
        ensures
            final(self).wf(),
            final(self).rooms_list == old(self).rooms_list,
            final(self).walls == old(self).walls,
            final(self).start_room_id == old(self).start_room_id,
            final(self).end_room_id == old(self).end_room_id,
            final(self).room_width == old(self).room_width,
            final(self).room_length == old(self).room_length,
            final(self).keys_in_room(key.starts_roomid) == old(self).keys_in_room(
                key.starts_roomid,
            ).push(key),
            forall|r2: usize|
                r2 != key.starts_roomid ==> final(self).keys_in_room(r2) == old(self).keys_in_room(
                    r2,
                ),
            forall|id: usize|
                final(self).has_key_id(id) <==> (old(self).has_key_id(id) || id == key.key_id),
    {
        let room = key.starts_roomid;
        let n = self.room_keys.len();
        let mut i: usize = 0;
        while i < n
            invariant
                n == self.room_keys@.len(),
                0 <= i <= n,
                *self == *old(self),
                old(self).wf(),
                !old(self).has_key_id(key.key_id),
                !key.picked_up,
                room == key.starts_roomid,
                list_index_for(self.room_keys@, room) == list_index_from(
                    self.room_keys@,
                    room,
                    i as int,
                ),
            decreases n - i,
        {
            if self.room_keys[i].room == room {
                self.push_key_at(i, key);
                proof {
                    lemma_add_key_update(*old(self), *self, i as int, key);
                }
                return ;
            }
            i += 1;
        }
        let mut keys: Vec<RoomKey> = Vec::new();
        keys.push(key);
        let nl = KeyList { room, keys };
        proof {
            assert(list_index_for(self.room_keys@, room) is None);
        }
        self.room_keys.push(nl);
        proof {
            lemma_add_key_push(*old(self), *self, key);
        }
    }

    /// Append several keys, each to the list of the room it starts in. The
    /// ids must be fresh and pairwise distinct.
    pub fn add_mult_keys(&mut self, keys: Vec<RoomKey>)
        requires
            old(self).wf(),
            forall|i: int|
                0 <= i < keys@.len() ==> !old(self).has_key_id((#[trigger] keys@[i]).key_id)
                    && !keys@[i].picked_up,
            forall|i: int, j: int|
                #![trigger keys@[i], keys@[j]]
                0 <= i < j < keys@.len() ==> keys@[i].key_id != keys@[j].key_id,
        ensures
            final(self).wf(),
            final(self).rooms_list == old(self).rooms_list,
            final(self).walls == old(self).walls,
            final(self).start_room_id == old(self).start_room_id,
            final(self).end_room_id == old(self).end_room_id,
            final(self).room_width == old(self).room_width,
            final(self).room_length == old(self).room_length,
            forall|id: usize|
                final(self).has_key_id(id) <==> (old(self).has_key_id(id) || exists|i: int|
                    0 <= i < keys@.len() && (#[trigger] keys@[i]).key_id == id),
            forall|i: int|
                0 <= i < keys@.len() ==> final(self).keys_in_room(
                    (#[trigger] keys@[i]).starts_roomid,
                ).contains(keys@[i]),
            // Equivalent to adding each key in order: every room's list
            // grows by exactly its keys of the input, appended in input
            // order.
            forall|r: usize|
                #[trigger] final(self).keys_in_room(r) == old(self).keys_in_room(r)
                    + spec_keys_for_room(keys@, r),
    {
        let n = keys.len();
        proof {
            assert forall|r: usize| #[trigger] self.keys_in_room(r) == old(self).keys_in_room(r)
                + spec_keys_for_room(keys@.take(0), r) by {
                assert(keys@.take(0) =~= Seq::<RoomKey>::empty());
                assert(spec_keys_for_room(keys@.take(0), r) =~= Seq::<RoomKey>::empty());
                assert(old(self).keys_in_room(r) + Seq::<RoomKey>::empty() =~= old(
                    self,
                ).keys_in_room(r));
            }
        }
        let mut i: usize = 0;
        while i < n
            invariant
                n == keys@.len(),
                0 <= i <= n,
                self.wf(),
                self.rooms_list == old(self).rooms_list,
                self.walls == old(self).walls,
                self.start_room_id == old(self).start_room_id,
                self.end_room_id == old(self).end_room_id,
                self.room_width == old(self).room_width,
                self.room_length == old(self).room_length,
                forall|j: int, j2: int|
                    #![trigger keys@[j], keys@[j2]]
                    0 <= j < j2 < keys@.len() ==> keys@[j].key_id != keys@[j2].key_id,
                forall|j: int|
                    0 <= j < keys@.len() ==> !old(self).has_key_id((#[trigger] keys@[j]).key_id)
                        && !keys@[j].picked_up,
                forall|id: usize|
                    self.has_key_id(id) <==> (old(self).has_key_id(id) || exists|j: int|
                        0 <= j < i && (#[trigger] keys@[j]).key_id == id),
                forall|j: int|
                    0 <= j < i ==> self.keys_in_room((#[trigger] keys@[j]).starts_roomid).contains(
                        keys@[j],
                    ),
                forall|r: usize|
                    #[trigger] self.keys_in_room(r) == old(self).keys_in_room(r)
                        + spec_keys_for_room(keys@.take(i as int), r),
            decreases n - i,
        {
            let key = keys[i];
            proof {
                assert(!self.has_key_id(key.key_id));
            }
            let ghost pre = *self;
            self.add_key(key);
            proof {
                assert forall|j: int|
                    0 <= j < i + 1 implies self.keys_in_room(
                    (#[trigger] keys@[j]).starts_roomid,
                ).contains(keys@[j]) by {
                    if j < i {
                        if keys@[j].starts_roomid == key.starts_roomid {
                            let s0 = pre.keys_in_room(keys@[j].starts_roomid);
                            let w = choose|w: int| 0 <= w < s0.len() && s0[w] == keys@[j];
                            assert(self.keys_in_room(keys@[j].starts_roomid)[w] == keys@[j]);
                        }
                    } else {
                        let s1 = self.keys_in_room(key.starts_roomid);
                        assert(s1[s1.len() - 1] == key);
                    }
                }
                assert(keys@.take(i as int + 1).drop_last() =~= keys@.take(i as int));
                assert(keys@.take(i as int + 1).last() == keys@[i as int]);
                assert forall|r: usize| #[trigger] self.keys_in_room(r) == old(self).keys_in_room(
                    r,
                ) + spec_keys_for_room(keys@.take(i as int + 1), r) by {
                    let f_i = spec_keys_for_room(keys@.take(i as int), r);
                    if r == key.starts_roomid {
                        assert(spec_keys_for_room(keys@.take(i as int + 1), r) == f_i.push(key));
                        assert((old(self).keys_in_room(r) + f_i).push(key) =~= old(
                            self,
                        ).keys_in_room(r) + f_i.push(key));
                        assert(self.keys_in_room(r) == pre.keys_in_room(r).push(key));
                    } else {
                        assert(spec_keys_for_room(keys@.take(i as int + 1), r) == f_i);
                        assert(self.keys_in_room(r) == pre.keys_in_room(r));
                    }
                }
            }
            i += 1;
        }
        proof {
            assert(keys@.take(n as int) =~= keys@);
        }
    }

    /// Atomically remove the key with the given id from the given room's
    /// key list and return it; `None` (and no change) when that room holds
    /// no such key.
    pub fn take_key(&mut self, room: usize, key_id: usize) -> (r: Option<RoomKey>)
        requires
            old(self).wf(),
        ensures
            final(self).wf(),
            final(self).rooms_list == old(self).rooms_list,
            final(self).walls == old(self).walls,
            final(self).start_room_id == old(self).start_room_id,
            final(self).end_room_id == old(self).end_room_id,
            final(self).room_width == old(self).room_width,
            final(self).room_length == old(self).room_length,
            match key_index_of(old(self).keys_in_room(room), key_id) {
                None => r is None && final(self).room_keys == old(self).room_keys,
                Some(ki) => {
                    &&& r == Some(old(self).keys_in_room(room)[ki])
                    &&& final(self).keys_in_room(room) == old(self).keys_in_room(room).remove(ki)
                    &&& forall|r2: usize|
                        r2 != room ==> final(self).keys_in_room(r2) == old(self).keys_in_room(r2)
                    &&& !final(self).has_key_id(key_id)
                    &&& forall|id: usize|
                        id != key_id ==> (final(self).has_key_id(id) <==> old(self).has_key_id(id))
                },
            },
    {
        let n = self.room_keys.len();
        let mut i: usize = 0;
        while i < n
            invariant
                n == self.room_keys@.len(),
                0 <= i <= n,
                *self == *old(self),
                old(self).wf(),
                list_index_for(self.room_keys@, room) == list_index_from(
                    self.room_keys@,
                    room,
                    i as int,
                ),
            decreases n - i,
        {
            if self.room_keys[i].room == room {
                let m = self.room_keys[i].keys.len();
                let mut k: usize = 0;
                while k < m
                    invariant
                        n == self.room_keys@.len(),
                        0 <= i < n,
                        m == self.room_keys@[i as int].keys@.len(),
                        0 <= k <= m,
                        *self == *old(self),
                        old(self).wf(),
                        self.room_keys@[i as int].room == room,
                        list_index_for(self.room_keys@, room) == Some(i as int),
                        key_index_of(self.room_keys@[i as int].keys@, key_id) == key_index_from(
                            self.room_keys@[i as int].keys@,
                            key_id,
                            k as int,
                        ),
                    decreases m - k,
                {
                    if self.room_keys[i].keys[k].key_id == key_id {
                        let key = self.remove_key_at(i, k);
                        proof {
                            lemma_take_key_effect(*old(self), *self, i as int, k as int, room, key_id);
                        }
                        return Some(key);
                    }
                    k += 1;
                }
                proof {
                    assert(key_index_of(self.room_keys@[i as int].keys@, key_id) is None);
                }
                return None;
            }
            i += 1;
        }
        proof {
            assert(list_index_for(self.room_keys@, room) is None);
            assert(self.keys_in_room(room) == Seq::<RoomKey>::empty());
        }
        None
    }
}

/// Pushing a fresh key onto the list at `li` (the list of its start room)
/// preserves the invariant and shifts the registry exactly as `add_key`
/// states.
proof fn lemma_add_key_update(m0: RoomMap, m1: RoomMap, li: int, key: RoomKey)
    requires
        m0.wf(),
        !m0.has_key_id(key.key_id),
        !key.picked_up,
        0 <= li < m0.room_keys@.len(),
        m0.room_keys@[li].room == key.starts_roomid,
        list_index_for(m0.room_keys@, key.starts_roomid) == Some(li),
        m1.room_keys@.len() == m0.room_keys@.len(),
        forall|j: int| 0 <= j < m0.room_keys@.len() && j != li ==> m1.room_keys@[j] == m0.room_keys@[j],
        m1.room_keys@[li].room == m0.room_keys@[li].room,
        m1.room_keys@[li].keys@ == m0.room_keys@[li].keys@.push(key),
        m1.rooms_list == m0.rooms_list,
        m1.room_width == m0.room_width,
        m1.room_length == m0.room_length,
    ensures
        m1.wf(),
        m1.keys_in_room(key.starts_roomid) == m0.keys_in_room(key.starts_roomid).push(key),
        forall|r2: usize| r2 != key.starts_roomid ==> m1.keys_in_room(r2) == m0.keys_in_room(r2),
        forall|id: usize| m1.has_key_id(id) <==> (m0.has_key_id(id) || id == key.key_id),
    decreases 0int,
{
    assert forall|r2: usize| true implies list_index_for(m1.room_keys@, r2) == list_index_for(
        m0.room_keys@,
        r2,
    ) by {
        lemma_list_index_same_rooms(m0.room_keys@, m1.room_keys@, r2, 0);
    }
    assert forall|r2: usize| r2 != key.starts_roomid implies m1.keys_in_room(r2)
        == m0.keys_in_room(r2) by {
        lemma_list_index_from_props(m0.room_keys@, r2, 0);
        match list_index_for(m0.room_keys@, r2) {
            Some(j) => {
                assert(m0.room_keys@[j].room == r2);
                assert(j != li);
            },
            None => {},
        }
    }
    assert forall|id: usize| true implies (m1.has_key_id(id) <==> (m0.has_key_id(id) || id
        == key.key_id)) by {
        if m0.has_key_id(id) {
            let (i2, k2) = choose|i2: int, k2: int|
                0 <= i2 < m0.room_keys@.len() && 0 <= k2 < m0.room_keys@[i2].keys@.len() && (
                #[trigger] m0.room_keys@[i2].keys@[k2]).key_id == id;
            assert(m1.room_keys@[i2].keys@[k2].key_id == id);
        }
        if id == key.key_id {
            let k2 = m1.room_keys@[li].keys@.len() - 1;
            assert(m1.room_keys@[li].keys@[k2].key_id == id);
        }
        if m1.has_key_id(id) {
            let (i2, k2) = choose|i2: int, k2: int|
                0 <= i2 < m1.room_keys@.len() && 0 <= k2 < m1.room_keys@[i2].keys@.len() && (
                #[trigger] m1.room_keys@[i2].keys@[k2]).key_id == id;
            if i2 == li && k2 == m1.room_keys@[li].keys@.len() - 1 {
                assert(id == key.key_id);
            } else {
                assert(m0.room_keys@[i2].keys@[k2].key_id == id);
            }
        }
    }
    assert(m1.keys_wf()) by {
        assert forall|i: int, k: int, i2: int, k2: int|
            #![trigger m1.room_keys@[i].keys@[k], m1.room_keys@[i2].keys@[k2]]
            0 <= i < m1.room_keys@.len() && 0 <= k < m1.room_keys@[i].keys@.len() && 0 <= i2
                < m1.room_keys@.len() && 0 <= k2 < m1.room_keys@[i2].keys@.len() && !(i == i2 && k
                == k2) implies m1.room_keys@[i].keys@[k].key_id
            != m1.room_keys@[i2].keys@[k2].key_id by {
            let newpos = m1.room_keys@[li].keys@.len() - 1;
            if i == li && k == newpos {
                if !(i2 == li && k2 == newpos) {
                    assert(m1.room_keys@[i2].keys@[k2] == m0.room_keys@[i2].keys@[k2]);
                    assert(m0.has_key_id(m0.room_keys@[i2].keys@[k2].key_id));
                }
            } else if i2 == li && k2 == newpos {
                assert(m1.room_keys@[i].keys@[k] == m0.room_keys@[i].keys@[k]);
                assert(m0.has_key_id(m0.room_keys@[i].keys@[k].key_id));
            } else {
                assert(m1.room_keys@[i].keys@[k] == m0.room_keys@[i].keys@[k]);
                assert(m1.room_keys@[i2].keys@[k2] == m0.room_keys@[i2].keys@[k2]);
            }
        }
    }
}

/// Appending a brand-new one-key list for a room that had none preserves
/// the invariant and extends the registry exactly as `add_key` states.
proof fn lemma_add_key_push(m0: RoomMap, m1: RoomMap, key: RoomKey)
    requires
        m0.wf(),
        !m0.has_key_id(key.key_id),
        !key.picked_up,
        list_index_for(m0.room_keys@, key.starts_roomid) is None,
        m1.room_keys@.len() == m0.room_keys@.len() + 1,
        forall|j: int| 0 <= j < m0.room_keys@.len() ==> m1.room_keys@[j] == m0.room_keys@[j],
        m1.room_keys@[m0.room_keys@.len() as int].room == key.starts_roomid,
        m1.room_keys@[m0.room_keys@.len() as int].keys@ == Seq::<RoomKey>::empty().push(key),
        m1.rooms_list == m0.rooms_list,
        m1.room_width == m0.room_width,
        m1.room_length == m0.room_length,
    ensures
        m1.wf(),
        m1.keys_in_room(key.starts_roomid) == m0.keys_in_room(key.starts_roomid).push(key),
        forall|r2: usize| r2 != key.starts_roomid ==> m1.keys_in_room(r2) == m0.keys_in_room(r2),
        forall|id: usize| m1.has_key_id(id) <==> (m0.has_key_id(id) || id == key.key_id),
{
    let len0 = m0.room_keys@.len() as int;
    lemma_list_index_from_props(m0.room_keys@, key.starts_roomid, 0);
    assert forall|r2: usize| true implies list_index_for(m1.room_keys@, r2) == (match
        list_index_for(m0.room_keys@, r2) {
        Some(j) => Some(j),
        None => if key.starts_roomid == r2 {
            Some(len0)
        } else {
            None::<int>
        },
    }) by {
        assert(m1.room_keys@ =~= m0.room_keys@.push(m1.room_keys@[len0]));
        lemma_list_index_push(m0.room_keys@, m1.room_keys@[len0], r2, 0);
    }
    assert(m0.keys_in_room(key.starts_roomid) == Seq::<RoomKey>::empty());
    assert(m1.keys_in_room(key.starts_roomid) =~= m0.keys_in_room(key.starts_roomid).push(key));
    assert forall|r2: usize| r2 != key.starts_roomid implies m1.keys_in_room(r2)
        == m0.keys_in_room(r2) by {
        lemma_list_index_from_props(m0.room_keys@, r2, 0);
        match list_index_for(m0.room_keys@, r2) {
            Some(j) => {
                assert(m0.room_keys@[j].room == r2);
                assert(j < len0);
            },
            None => {},
        }
    }
    assert forall|id: usize| true implies (m1.has_key_id(id) <==> (m0.has_key_id(id) || id
        == key.key_id)) by {
        if m0.has_key_id(id) {
            let (i2, k2) = choose|i2: int, k2: int|
                0 <= i2 < m0.room_keys@.len() && 0 <= k2 < m0.room_keys@[i2].keys@.len() && (
                #[trigger] m0.room_keys@[i2].keys@[k2]).key_id == id;
            assert(m1.room_keys@[i2].keys@[k2].key_id == id);
        }
        if id == key.key_id {
            assert(m1.room_keys@[len0].keys@[0].key_id == id);
        }
        if m1.has_key_id(id) {
            let (i2, k2) = choose|i2: int, k2: int|
                0 <= i2 < m1.room_keys@.len() && 0 <= k2 < m1.room_keys@[i2].keys@.len() && (
                #[trigger] m1.room_keys@[i2].keys@[k2]).key_id == id;
            if i2 == len0 {
                assert(id == key.key_id);
            } else {
                assert(m0.room_keys@[i2].keys@[k2].key_id == id);
            }
        }
    }
    assert(m1.keys_wf()) by {
        assert forall|i: int, k: int, i2: int, k2: int|
            #![trigger m1.room_keys@[i].keys@[k], m1.room_keys@[i2].keys@[k2]]
            0 <= i < m1.room_keys@.len() && 0 <= k < m1.room_keys@[i].keys@.len() && 0 <= i2
                < m1.room_keys@.len() && 0 <= k2 < m1.room_keys@[i2].keys@.len() && !(i == i2 && k
                == k2) implies m1.room_keys@[i].keys@[k].key_id
            != m1.room_keys@[i2].keys@[k2].key_id by {
            if i == len0 && !(i2 == len0) {
                assert(m0.has_key_id(m0.room_keys@[i2].keys@[k2].key_id));
            } else if i2 == len0 && !(i == len0) {
                assert(m0.has_key_id(m0.room_keys@[i].keys@[k].key_id));
            }
        }
        assert forall|i: int, j: int|
            #![trigger m1.room_keys@[i], m1.room_keys@[j]]
            0 <= i < j < m1.room_keys@.len() implies m1.room_keys@[i].room
            != m1.room_keys@[j].room by {
            if j == len0 {
                lemma_list_index_from_props(m0.room_keys@, key.starts_roomid, 0);
            }
        }
    }
}

/// Removing the key at a known position preserves the invariant and shrinks
/// the registry exactly as `take_key` states.
proof fn lemma_take_key_effect(
    m0: RoomMap,
    m1: RoomMap,
    li: int,
    ki: int,
    room: usize,
    key_id: usize,
)
    requires
        m0.wf(),
        0 <= li < m0.room_keys@.len(),
        m0.room_keys@[li].room == room,
        list_index_for(m0.room_keys@, room) == Some(li),
        0 <= ki < m0.room_keys@[li].keys@.len(),
        m0.room_keys@[li].keys@[ki].key_id == key_id,
        key_index_of(m0.room_keys@[li].keys@, key_id) == Some(ki),
        m1.room_keys@.len() == m0.room_keys@.len(),
        forall|j: int| 0 <= j < m0.room_keys@.len() && j != li ==> m1.room_keys@[j] == m0.room_keys@[j],
        m1.room_keys@[li].room == m0.room_keys@[li].room,
        m1.room_keys@[li].keys@ == m0.room_keys@[li].keys@.remove(ki),
        m1.rooms_list == m0.rooms_list,
        m1.room_width == m0.room_width,
        m1.room_length == m0.room_length,
    ensures
        m1.wf(),
        m1.keys_in_room(room) == m0.keys_in_room(room).remove(ki),
        forall|r2: usize| r2 != room ==> m1.keys_in_room(r2) == m0.keys_in_room(r2),
        !m1.has_key_id(key_id),
        forall|id: usize| id != key_id ==> (m1.has_key_id(id) <==> m0.has_key_id(id)),
{
    assert forall|r2: usize| true implies list_index_for(m1.room_keys@, r2) == list_index_for(
        m0.room_keys@,
        r2,
    ) by {
        lemma_list_index_same_rooms(m0.room_keys@, m1.room_keys@, r2, 0);
    }
    assert forall|r2: usize| r2 != room implies m1.keys_in_room(r2) == m0.keys_in_room(r2) by {
        lemma_list_index_from_props(m0.room_keys@, r2, 0);
        match list_index_for(m0.room_keys@, r2) {
            Some(j) => {
                assert(m0.room_keys@[j].room == r2);
                assert(j != li);
            },
            None => {},
        }
    }
    let keys0 = m0.room_keys@[li].keys@;
    let keys1 = m1.room_keys@[li].keys@;
    assert(forall|k: int| 0 <= k < ki ==> keys1[k] == keys0[k]);
    assert(forall|k: int| ki <= k < keys1.len() ==> keys1[k] == keys0[k + 1]);
    assert(m1.keys_wf()) by {
        assert forall|i: int, k: int, i2: int, k2: int|
            #![trigger m1.room_keys@[i].keys@[k], m1.room_keys@[i2].keys@[k2]]
            0 <= i < m1.room_keys@.len() && 0 <= k < m1.room_keys@[i].keys@.len() && 0 <= i2
                < m1.room_keys@.len() && 0 <= k2 < m1.room_keys@[i2].keys@.len() && !(i == i2 && k
                == k2) implies m1.room_keys@[i].keys@[k].key_id
            != m1.room_keys@[i2].keys@[k2].key_id by {
            let ok = if i == li && k >= ki {
                k + 1
            } else {
                k
            };
            let ok2 = if i2 == li && k2 >= ki {
                k2 + 1
            } else {
                k2
            };
            assert(m1.room_keys@[i].keys@[k] == m0.room_keys@[i].keys@[ok]);
            assert(m1.room_keys@[i2].keys@[k2] == m0.room_keys@[i2].keys@[ok2]);
        }
        assert forall|i: int, k: int|
            #![trigger m1.room_keys@[i].keys@[k]]
            0 <= i < m1.room_keys@.len() && 0 <= k < m1.room_keys@[i].keys@.len() implies {
            &&& m1.room_keys@[i].keys@[k].starts_roomid == m1.room_keys@[i].room
            &&& !m1.room_keys@[i].keys@[k].picked_up
        } by {
            let ok = if i == li && k >= ki {
                k + 1
            } else {
                k
            };
            assert(m1.room_keys@[i].keys@[k] == m0.room_keys@[i].keys@[ok]);
        }
    }
    assert(!m1.has_key_id(key_id)) by {
        if m1.has_key_id(key_id) {
            let (i2, k2) = choose|i2: int, k2: int|
                0 <= i2 < m1.room_keys@.len() && 0 <= k2 < m1.room_keys@[i2].keys@.len() && (
                #[trigger] m1.room_keys@[i2].keys@[k2]).key_id == key_id;
            let ok2 = if i2 == li && k2 >= ki {
                k2 + 1
            } else {
                k2
            };
            assert(m0.room_keys@[i2].keys@[ok2].key_id == key_id);
            assert(m0.room_keys@[li].keys@[ki].key_id == key_id);
            assert(!(i2 == li && ok2 == ki));
        }
    }
    assert forall|id: usize| id != key_id implies (m1.has_key_id(id) <==> m0.has_key_id(id)) by {
        if m0.has_key_id(id) {
            let (i2, k2) = choose|i2: int, k2: int|
                0 <= i2 < m0.room_keys@.len() && 0 <= k2 < m0.room_keys@[i2].keys@.len() && (
                #[trigger] m0.room_keys@[i2].keys@[k2]).key_id == id;
            assert(!(i2 == li && k2 == ki));
            let nk2 = if i2 == li && k2 > ki {
                k2 - 1
            } else {
                k2
            };
            assert(m1.room_keys@[i2].keys@[nk2].key_id == id);
        }
        if m1.has_key_id(id) {
            let (i2, k2) = choose|i2: int, k2: int|
                0 <= i2 < m1.room_keys@.len() && 0 <= k2 < m1.room_keys@[i2].keys@.len() && (
                #[trigger] m1.room_keys@[i2].keys@[k2]).key_id == id;
            let ok2 = if i2 == li && k2 >= ki {
                k2 + 1
            } else {
                k2
            };
            assert(m0.room_keys@[i2].keys@[ok2].key_id == id);
        }
    }
}

/// Replacing a room with one of the same id preserves the map invariant on
/// rooms.
proof fn lemma_rooms_wf_update(m0: RoomMap, m1: RoomMap, i: int, room: Room)
    requires
        m0.wf(),
        0 <= i < m0.rooms_list@.len(),
        m0.rooms_list@[i].id == room.id,
        room.in_map_range(m0.room_width as int, m0.room_length as int),
        m1.rooms_list@ == m0.rooms_list@.update(i, room),
        m1.room_keys == m0.room_keys,
        m1.room_width == m0.room_width,
        m1.room_length == m0.room_length,
    ensures
        m1.wf(),
{
    assert(forall|a: int|
        0 <= a < m1.rooms_list@.len() && a != i ==> m1.rooms_list@[a] == m0.rooms_list@[a]);
}

/// A scan that never found the id means no earlier entry carries it.
proof fn lemma_room_index_from_none(rooms: Seq<Room>, id: usize, j: int)
    requires
        0 <= j < rooms.len(),
        room_index_from(rooms, id, 0) is None,
    ensures
        rooms[j].id != id,
    decreases j,
{
    lemma_room_index_from_none_rec(rooms, id, 0, j);
}

/// Helper for `lemma_room_index_from_none`: the scan from `i` finds nothing,
/// so no entry at or after `i` carries the id.
proof fn lemma_room_index_from_none_rec(rooms: Seq<Room>, id: usize, i: int, j: int)
    requires
        0 <= i <= j < rooms.len(),
        room_index_from(rooms, id, i) is None,
    ensures
        rooms[j].id != id,
    decreases j - i,
{
    if i < j {
        lemma_room_index_from_none_rec(rooms, id, i + 1, j);
    }
}

} // verus!
