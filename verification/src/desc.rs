//! The map description: the structured document a world is built from.
//! Per room: id, four wall-slot references, four direction-ordered neighbor
//! ids, and a bottom-left corner. Per wall (flat): position, orientation
//! flag, and a door-state code (0 solid, 1 open door, 2 locked door).
//!
//! The document is JSON; serde_json parses the text, and the verified code
//! here walks the parsed value, validates every field, and produces plain
//! description records. What the parser and its accessors yield is given
//! names (`json_parsed`, `json_member_of`, ...), and the parsing contract
//! states over those names exactly when each error is returned and that a
//! successful result carries the document's own fields. A malformed
//! document yields an error instead of a crash: map loading fails fast and
//! never panics.

use crate::in_coord_range;
use crate::map::{NO_NEIGHBOR, ROOM_LENGTH, ROOM_WIDTH};
use crate::COORD_LIMIT;
use vstd::prelude::*;

verus! {

/// Horizontal offset between a wall's visual position and the center of its
/// collision box, on both axes.
pub const WALL_FIX: i64 = 45;

/// serde_json's parsed JSON value, opaque to the verifier.
#[verifier::external_type_specification]
#[verifier::external_body]
pub struct ExValue(serde_json::Value);

/// serde_json's parse error, opaque to the verifier.
#[verifier::external_type_specification]
#[verifier::external_body]
pub struct ExJsonError(serde_json::Error);

/// What serde_json parses the given text to: `None` exactly when the text
/// is not valid JSON. The result depends on the text alone.
pub uninterp spec fn json_parsed(s: Seq<char>) -> Option<serde_json::Value>;

/// What `Value::get` yields for a string key: `Some` exactly when the value
/// is an object that has the key.
pub uninterp spec fn json_member_of(v: serde_json::Value, key: Seq<char>) -> Option<
    serde_json::Value,
>;

/// What `Value::as_array` yields: the elements, exactly when the value is
/// an array.
pub uninterp spec fn json_array_elems(v: serde_json::Value) -> Option<Seq<serde_json::Value>>;

/// What `Value::as_i64` yields: the integer, exactly when the value is an
/// integer representable in an `i64`.
pub uninterp spec fn json_int(v: serde_json::Value) -> Option<i64>;

/// What `Value::as_bool` yields: the boolean, exactly when the value is a
/// boolean.
pub uninterp spec fn json_bool(v: serde_json::Value) -> Option<bool>;

/// Relies on serde_json::from_str: parses JSON text into a `Value`, failing
/// exactly on text that is not valid JSON.
#[verifier::external_body]
fn json_from_str(s: &str) -> (r: Result<serde_json::Value, serde_json::Error>)
    ensures
        r is Ok <==> json_parsed(s@) is Some,
        r matches Ok(v) ==> Some(v) == json_parsed(s@),
{
    serde_json::from_str(s)
}

/// Relies on serde_json::Value::get: `Some` exactly when the value is an
/// object that has the key.
#[verifier::external_body]
fn json_get<'a>(v: &'a serde_json::Value, key: &str) -> (r: Option<&'a serde_json::Value>)
    ensures
        r is Some <==> json_member_of(*v, key@) is Some,
        r matches Some(w) ==> Some(*w) == json_member_of(*v, key@),
{
    v.get(key)
}

/// Relies on serde_json::Value::as_array: `Some` exactly when the value is
/// an array.
#[verifier::external_body]
fn json_as_array(v: &serde_json::Value) -> (r: Option<&Vec<serde_json::Value>>)
    ensures
        r is Some <==> json_array_elems(*v) is Some,
        r matches Some(a) ==> Some(a@) == json_array_elems(*v),
{
    v.as_array()
}

/// Relies on serde_json::Value::as_i64: `Some` exactly when the value is an
/// integer representable in an `i64`.
#[verifier::external_body]
fn json_as_i64(v: &serde_json::Value) -> (r: Option<i64>)
    ensures
        r == json_int(*v),
{
    v.as_i64()
}

/// Relies on serde_json::Value::as_bool: `Some` exactly when the value is a
/// boolean.
#[verifier::external_body]
fn json_as_bool(v: &serde_json::Value) -> (r: Option<bool>)
    ensures
        r == json_bool(*v),
{
    v.as_bool()
}

/// Why a map description was rejected.
#[derive(Clone, Copy, PartialEq, Eq, Structural, Debug)]
pub enum MapError {
    /// The text is not valid JSON.
    Parse,
    /// A required field is absent.
    MissingField,
    /// A field has the wrong type or an invalid value (such as an unknown
    /// door-state code).
    BadValue,
    /// A coordinate lies outside the supported range.
    OutOfRange,
}

/// One room of the description.
#[derive(Clone, Copy, Debug)]
pub struct RoomDesc {
    pub id: usize,
    pub flats: [usize; 4],
    pub connected_rooms: [usize; 4],
    pub bottom_left_corner: [i64; 2],
}

impl RoomDesc {
    /// The room's rectangle (at the default room dimensions) lies within
    /// the supported coordinate range.
    pub open spec fn wf(self) -> bool {
        &&& in_coord_range(self.bottom_left_corner[0] as int)
        &&& in_coord_range(self.bottom_left_corner[0] + ROOM_WIDTH)
        &&& in_coord_range(self.bottom_left_corner[1] as int)
        &&& in_coord_range(self.bottom_left_corner[1] + ROOM_LENGTH)
    }
}

/// One wall (flat) of the description.
#[derive(Clone, Copy, PartialEq, Eq, Structural, Debug)]
pub struct FlatDesc {
    pub x: i64,
    pub z: i64,
    /// Walls stand in their default orientation or rotated a quarter turn.
    pub is_identity: bool,
    /// Door-state code: 0 solid, 1 open door, 2 locked door.
    pub door: i64,
}

impl FlatDesc {
    /// The door code is known and the wall's position and collision-box
    /// center lie within the supported coordinate range.
    pub open spec fn wf(self) -> bool {
        &&& 0 <= self.door <= 2
        &&& in_coord_range(self.x as int)
        &&& in_coord_range(self.x - WALL_FIX)
        &&& in_coord_range(self.z as int)
        &&& in_coord_range(self.z - WALL_FIX)
    }
}

/// A parsed and validated map description.
#[derive(Debug)]
pub struct MapDescription {
    pub rooms: Vec<RoomDesc>,
    pub flats: Vec<FlatDesc>,
}

impl MapDescription {
    /// Every room and wall of the description is well formed.
    pub open spec fn wf(self) -> bool {
        &&& forall|i: int| 0 <= i < self.rooms@.len() ==> (#[trigger] self.rooms@[i]).wf()
        &&& forall|i: int| 0 <= i < self.flats@.len() ==> (#[trigger] self.flats@[i]).wf()
    }
}

/// Reading the integer field `key` of `v`: absent fields are missing,
/// non-integer fields are bad values.
pub open spec fn spec_get_i64(v: serde_json::Value, key: Seq<char>) -> Result<i64, MapError> {
    match json_member_of(v, key) {
        None => Err(MapError::MissingField),
        Some(f) => match json_int(f) {
            Some(n) => Ok(n),
            None => Err(MapError::BadValue),
        },
    }
}

/// Converting an integer to an index: rejected unless it is non-negative
/// and fits a `usize`.
pub open spec fn spec_to_usize(n: i64) -> Result<usize, MapError> {
    if 0 <= n <= usize::MAX {
        Ok(n as usize)
    } else {
        Err(MapError::BadValue)
    }
}

/// One entry of an index array: an integer converted to an index, with a
/// negative entry meaning "no neighbor" when `neg` is set.
pub open spec fn spec_index_entry(e: serde_json::Value, neg: bool) -> Result<usize, MapError> {
    match json_int(e) {
        None => Err(MapError::BadValue),
        Some(n) => if n < 0 && neg {
            Ok(NO_NEIGHBOR)
        } else {
            spec_to_usize(n)
        },
    }
}

/// First invalid entry at or after `j` of an index array, scanned in order.
pub open spec fn spec_entries_error_from(es: Seq<serde_json::Value>, neg: bool, j: int) -> Option<
    MapError,
>
    decreases es.len() - j,
{
    if j < 0 || j >= es.len() {
        None
    } else {
        match spec_index_entry(es[j], neg) {
            Err(e) => Some(e),
            Ok(_) => spec_entries_error_from(es, neg, j + 1),
        }
    }
}

/// Why the four-entry index array field `key` of `v` is rejected, or `None`
/// when it is well formed.
pub open spec fn spec_index_array_error(v: serde_json::Value, key: Seq<char>, neg: bool) -> Option<
    MapError,
> {
    match json_member_of(v, key) {
        None => Some(MapError::MissingField),
        Some(f) => match json_array_elems(f) {
            None => Some(MapError::BadValue),
            Some(es) => if es.len() != 4 {
                Some(MapError::BadValue)
            } else {
                spec_entries_error_from(es, neg, 0)
            },
        },
    }
}

/// Entry `j` of the well-formed index array field `key` of `v`.
pub open spec fn spec_index_at(v: serde_json::Value, key: Seq<char>, neg: bool, j: int) -> usize {
    spec_index_entry(
        json_array_elems(json_member_of(v, key)->Some_0)->Some_0[j],
        neg,
    )->Ok_0
}

/// Why a room record's "bottom_left_corner" field is rejected, or `None`
/// when it is a two-entry integer array within the supported range.
pub open spec fn spec_corner_error(v: serde_json::Value) -> Option<MapError> {
    match json_member_of(v, "bottom_left_corner"@) {
        None => Some(MapError::MissingField),
        Some(f) => match json_array_elems(f) {
            None => Some(MapError::BadValue),
            Some(es) => if es.len() != 2 {
                Some(MapError::BadValue)
            } else {
                match json_int(es[0]) {
                    None => Some(MapError::BadValue),
                    Some(cx) => match json_int(es[1]) {
                        None => Some(MapError::BadValue),
                        Some(cz) => if !(-COORD_LIMIT <= cx <= COORD_LIMIT - ROOM_WIDTH) {
                            Some(MapError::OutOfRange)
                        } else if !(-COORD_LIMIT <= cz <= COORD_LIMIT - ROOM_LENGTH) {
                            Some(MapError::OutOfRange)
                        } else {
                            None
                        },
                    },
                }
            },
        },
    }
}

/// The x coordinate of a well-formed room record's corner.
pub open spec fn spec_corner_x(v: serde_json::Value) -> i64 {
    json_int(json_array_elems(json_member_of(v, "bottom_left_corner"@)->Some_0)->Some_0[0])->Some_0
}

/// The z coordinate of a well-formed room record's corner.
pub open spec fn spec_corner_z(v: serde_json::Value) -> i64 {
    json_int(json_array_elems(json_member_of(v, "bottom_left_corner"@)->Some_0)->Some_0[1])->Some_0
}

/// Why a room record is rejected, checking its fields in the order the
/// parser reads them, or `None` when the record is well formed.
pub open spec fn spec_room_error(v: serde_json::Value) -> Option<MapError> {
    match spec_get_i64(v, "id"@) {
        Err(e) => Some(e),
        Ok(n) => match spec_to_usize(n) {
            Err(e) => Some(e),
            Ok(_) => match spec_index_array_error(v, "flats"@, false) {
                Some(e) => Some(e),
                None => match spec_index_array_error(v, "connected_rooms"@, true) {
                    Some(e) => Some(e),
                    None => spec_corner_error(v),
                },
            },
        },
    }
}

/// The id of a well-formed room record.
pub open spec fn spec_room_id(v: serde_json::Value) -> usize {
    spec_to_usize(spec_get_i64(v, "id"@)->Ok_0)->Ok_0
}

/// The description record `d` carries exactly the fields of the room
/// record `v`.
pub open spec fn spec_room_matches(d: RoomDesc, v: serde_json::Value) -> bool {
    &&& d.id == spec_room_id(v)
    &&& forall|j: int| 0 <= j < 4 ==> #[trigger] d.flats[j] == spec_index_at(v, "flats"@, false, j)
    &&& forall|j: int|
        0 <= j < 4 ==> #[trigger] d.connected_rooms[j] == spec_index_at(
            v,
            "connected_rooms"@,
            true,
            j,
        )
    &&& d.bottom_left_corner[0] == spec_corner_x(v)
    &&& d.bottom_left_corner[1] == spec_corner_z(v)
}

/// First rejected room record at or after `i`, scanned in order.
pub open spec fn spec_rooms_error_from(es: Seq<serde_json::Value>, i: int) -> Option<MapError>
    decreases es.len() - i,
{
    if i < 0 || i >= es.len() {
        None
    } else {
        match spec_room_error(es[i]) {
            Some(e) => Some(e),
            None => spec_rooms_error_from(es, i + 1),
        }
    }
}

/// Why a wall record is rejected, checking its fields in the order the
/// parser reads them, or `None` when the record is well formed.
pub open spec fn spec_flat_error(v: serde_json::Value) -> Option<MapError> {
    match spec_get_i64(v, "x"@) {
        Err(e) => Some(e),
        Ok(x) => match spec_get_i64(v, "z"@) {
            Err(e) => Some(e),
            Ok(z) => match json_member_of(v, "is_identity"@) {
                None => Some(MapError::MissingField),
                Some(f) => match json_bool(f) {
                    None => Some(MapError::BadValue),
                    Some(_) => match spec_get_i64(v, "door"@) {
                        Err(e) => Some(e),
                        Ok(door) => if !(0 <= door <= 2) {
                            Some(MapError::BadValue)
                        } else if !(-COORD_LIMIT + WALL_FIX <= x <= COORD_LIMIT) {
                            Some(MapError::OutOfRange)
                        } else if !(-COORD_LIMIT + WALL_FIX <= z <= COORD_LIMIT) {
                            Some(MapError::OutOfRange)
                        } else {
                            None
                        },
                    },
                },
            },
        },
    }
}

/// The description record a well-formed wall record carries.
pub open spec fn spec_flat_record(v: serde_json::Value) -> FlatDesc {
    FlatDesc {
        x: spec_get_i64(v, "x"@)->Ok_0,
        z: spec_get_i64(v, "z"@)->Ok_0,
        is_identity: json_bool(json_member_of(v, "is_identity"@)->Some_0)->Some_0,
        door: spec_get_i64(v, "door"@)->Ok_0,
    }
}

/// First rejected wall record at or after `i`, scanned in order.
pub open spec fn spec_flats_error_from(es: Seq<serde_json::Value>, i: int) -> Option<MapError>
    decreases es.len() - i,
{
    if i < 0 || i >= es.len() {
        None
    } else {
        match spec_flat_error(es[i]) {
            Some(e) => Some(e),
            None => spec_flats_error_from(es, i + 1),
        }
    }
}

/// The document's room records: the "rooms" array of the parsed text, when
/// the text parses, the field exists and it is an array.
pub open spec fn spec_doc_rooms(s: Seq<char>) -> Option<Seq<serde_json::Value>> {
    match json_parsed(s) {
        None => None,
        Some(root) => match json_member_of(root, "rooms"@) {
            None => None,
            Some(rf) => json_array_elems(rf),
        },
    }
}

/// The document's wall records: the "flats" array of the parsed text, when
/// the text parses, the field exists and it is an array.
pub open spec fn spec_doc_flats(s: Seq<char>) -> Option<Seq<serde_json::Value>> {
    match json_parsed(s) {
        None => None,
        Some(root) => match json_member_of(root, "flats"@) {
            None => None,
            Some(ff) => json_array_elems(ff),
        },
    }
}

/// Why the document is rejected, in the order the parser reads it: the
/// text, the "rooms" field, each room record, the "flats" field, each wall
/// record. `None` exactly when the whole document is valid.
pub open spec fn spec_parse_error(s: Seq<char>) -> Option<MapError> {
    match json_parsed(s) {
        None => Some(MapError::Parse),
        Some(root) => match json_member_of(root, "rooms"@) {
            None => Some(MapError::MissingField),
            Some(rf) => match json_array_elems(rf) {
                None => Some(MapError::BadValue),
                Some(rooms) => match spec_rooms_error_from(rooms, 0) {
                    Some(e) => Some(e),
                    None => match json_member_of(root, "flats"@) {
                        None => Some(MapError::MissingField),
                        Some(ff) => match json_array_elems(ff) {
                            None => Some(MapError::BadValue),
                            Some(flats) => spec_flats_error_from(flats, 0),
                        },
                    },
                },
            },
        },
    }
}

/// Read the integer field `key` of `v`.
fn get_i64(v: &serde_json::Value, key: &str) -> (r: Result<i64, MapError>)
    ensures
        r == spec_get_i64(*v, key@),
{
    match json_get(v, key) {
        Some(f) => match json_as_i64(f) {
            Some(n) => Ok(n),
            None => Err(MapError::BadValue),
        },
        None => Err(MapError::MissingField),
    }
}

/// Convert a non-negative integer that fits a `usize`.
fn to_usize(n: i64) -> (r: Result<usize, MapError>)
    ensures
        r == spec_to_usize(n),
{
    if n < 0 {
        return Err(MapError::BadValue);
    }
    let u: u64 = n as u64;
    if u > usize::MAX as u64 {
        return Err(MapError::BadValue);
    }
    Ok(u as usize)
}

/// Read one index entry; a negative entry means "no neighbor" when
/// `negative_is_none` is set.
fn index_entry(e: &serde_json::Value, negative_is_none: bool) -> (r: Result<usize, MapError>)
    ensures
        r == spec_index_entry(*e, negative_is_none),
{
    match json_as_i64(e) {
        None => Err(MapError::BadValue),
        Some(n) => if n < 0 && negative_is_none {
            Ok(NO_NEIGHBOR)
        } else {
            to_usize(n)
        },
    }
}

/// Read four index entries from the array field `key` of `v`; a negative
/// neighbor entry means "no neighbor" when `negative_is_none` is set.
fn get_index_array(v: &serde_json::Value, key: &str, negative_is_none: bool) -> (r: Result<
    [usize; 4],
    MapError,
>)
    ensures
        match spec_index_array_error(*v, key@, negative_is_none) {
            Some(e) => r == Err::<[usize; 4], MapError>(e),
            None => r matches Ok(a) && forall|j: int|
                0 <= j < 4 ==> a[j] == spec_index_at(*v, key@, negative_is_none, j),
        },
{
    broadcast use vstd::array::group_array_axioms;

    let arr = match json_get(v, key) {
        Some(f) => match json_as_array(f) {
            Some(a) => a,
            None => {
                return Err(MapError::BadValue);
            },
        },
        None => {
            return Err(MapError::MissingField);
        },
    };
    if arr.len() != 4 {
        return Err(MapError::BadValue);
    }
    let ghost es = arr@;
    let e0 = match index_entry(&arr[0], negative_is_none) {
        Ok(u) => u,
        Err(e) => {
            proof {
                assert(spec_entries_error_from(es, negative_is_none, 0) == Some(e));
            }
            return Err(e);
        },
    };
    let e1 = match index_entry(&arr[1], negative_is_none) {
        Ok(u) => u,
        Err(e) => {
            proof {
                assert(spec_entries_error_from(es, negative_is_none, 1) == Some(e));
                assert(spec_entries_error_from(es, negative_is_none, 0) == Some(e));
            }
            return Err(e);
        },
    };
    let e2 = match index_entry(&arr[2], negative_is_none) {
        Ok(u) => u,
        Err(e) => {
            proof {
                assert(spec_entries_error_from(es, negative_is_none, 2) == Some(e));
                assert(spec_entries_error_from(es, negative_is_none, 1) == Some(e));
                assert(spec_entries_error_from(es, negative_is_none, 0) == Some(e));
            }
            return Err(e);
        },
    };
    let e3 = match index_entry(&arr[3], negative_is_none) {
        Ok(u) => u,
        Err(e) => {
            proof {
                assert(spec_entries_error_from(es, negative_is_none, 3) == Some(e));
                assert(spec_entries_error_from(es, negative_is_none, 2) == Some(e));
                assert(spec_entries_error_from(es, negative_is_none, 1) == Some(e));
                assert(spec_entries_error_from(es, negative_is_none, 0) == Some(e));
            }
            return Err(e);
        },
    };
    proof {
        assert(spec_entries_error_from(es, negative_is_none, 4) is None);
        assert(spec_entries_error_from(es, negative_is_none, 3) is None);
        assert(spec_entries_error_from(es, negative_is_none, 2) is None);
        assert(spec_entries_error_from(es, negative_is_none, 1) is None);
        assert(spec_entries_error_from(es, negative_is_none, 0) is None);
    }
    let out: [usize; 4] = [e0, e1, e2, e3];
    proof {
        assert forall|j: int|
            0 <= j < 4 implies out[j] == spec_index_at(*v, key@, negative_is_none, j) by {
            if j == 0 {
                assert(out[0] == e0);
            } else if j == 1 {
                assert(out[1] == e1);
            } else if j == 2 {
                assert(out[2] == e2);
            } else {
                assert(out[3] == e3);
            }
        }
    }
    Ok(out)
}

/// Parse and validate a map description from JSON text. The document holds
/// a "rooms" array (fields "id", "flats", "connected_rooms",
/// "bottom_left_corner") and a "flats" array (fields "x", "z",
/// "is_identity", "door"). The result succeeds exactly when the whole
/// document is valid, carrying the document's own records; otherwise it is
/// the error for the first offense the parser meets: `Parse` for text that
/// is not JSON, `MissingField` for an absent field, `BadValue` for a
/// wrongly typed field or an unknown door code, and `OutOfRange` for a
/// coordinate outside the supported range.
pub fn parse_map_description(text: &str) -> (r: Result<MapDescription, MapError>)
    ensures
        r is Err <==> spec_parse_error(text@) is Some,
        r matches Err(e) ==> Some(e) == spec_parse_error(text@),
        r matches Ok(d) ==> {
            let rooms = spec_doc_rooms(text@)->Some_0;
            let flats = spec_doc_flats(text@)->Some_0;
            &&& d.wf()
            &&& spec_doc_rooms(text@) is Some
            &&& spec_doc_flats(text@) is Some
            &&& d.rooms@.len() == rooms.len()
            &&& forall|i: int|
                0 <= i < rooms.len() ==> spec_room_matches(#[trigger] d.rooms@[i], rooms[i])
            &&& d.flats@.len() == flats.len()
            &&& forall|i: int| 0 <= i < flats.len() ==> #[trigger] d.flats@[i] == spec_flat_record(flats[i])
        },
{
    let root = match json_from_str(text) {
        Ok(v) => v,
        Err(_) => {
            return Err(MapError::Parse);
        },
    };
    let rooms_arr = match json_get(&root, "rooms") {
        Some(v) => match json_as_array(v) {
            Some(a) => a,
            None => {
                return Err(MapError::BadValue);
            },
        },
        None => {
            return Err(MapError::MissingField);
        },
    };
    let ghost rseq = rooms_arr@;
    let mut rooms: Vec<RoomDesc> = Vec::new();
    let n = rooms_arr.len();
    let mut i: usize = 0;
    while i < n
        invariant
            n == rooms_arr@.len(),
            rooms_arr@ == rseq,
            0 <= i <= n,
            Some(root) == json_parsed(text@),
            spec_doc_rooms(text@) == Some(rseq),
            json_member_of(root, "rooms"@) is Some,
            json_array_elems(json_member_of(root, "rooms"@)->Some_0) == Some(rseq),
            spec_rooms_error_from(rseq, 0) == spec_rooms_error_from(rseq, i as int),
            rooms@.len() == i,
            forall|j: int|
                0 <= j < i ==> spec_room_matches(#[trigger] rooms@[j], rseq[j]) && rooms@[j].wf(),
        decreases n - i,
    {
        let room = &rooms_arr[i];
        let id_n = match get_i64(room, "id") {
            Ok(v) => v,
            Err(e) => {
                return Err(e);
            },
        };
        let id = match to_usize(id_n) {
            Ok(u) => u,
            Err(e) => {
                return Err(e);
            },
        };
        let flats = match get_index_array(room, "flats", false) {
            Ok(a) => a,
            Err(e) => {
                return Err(e);
            },
        };
        let connected_rooms = match get_index_array(room, "connected_rooms", true) {
            Ok(a) => a,
            Err(e) => {
                return Err(e);
            },
        };
        let corner_arr = match json_get(room, "bottom_left_corner") {
            Some(v) => match json_as_array(v) {
                Some(a) => a,
                None => {
                    return Err(MapError::BadValue);
                },
            },
            None => {
                return Err(MapError::MissingField);
            },
        };
        if corner_arr.len() != 2 {
            return Err(MapError::BadValue);
        }
        let cx = match json_as_i64(&corner_arr[0]) {
            Some(v) => v,
            None => {
                return Err(MapError::BadValue);
            },
        };
        let cz = match json_as_i64(&corner_arr[1]) {
            Some(v) => v,
            None => {
                return Err(MapError::BadValue);
            },
        };
        if !(-COORD_LIMIT <= cx && cx <= COORD_LIMIT - ROOM_WIDTH) {
            return Err(MapError::OutOfRange);
        }
        if !(-COORD_LIMIT <= cz && cz <= COORD_LIMIT - ROOM_LENGTH) {
            return Err(MapError::OutOfRange);
        }
        let desc = RoomDesc { id, flats, connected_rooms, bottom_left_corner: [cx, cz] };
        proof {
            assert(spec_room_error(rseq[i as int]) is None);
            assert(spec_room_matches(desc, rseq[i as int]));
            assert(desc.wf());
        }
        rooms.push(desc);
        i += 1;
    }
    let flats_arr = match json_get(&root, "flats") {
        Some(v) => match json_as_array(v) {
            Some(a) => a,
            None => {
                return Err(MapError::BadValue);
            },
        },
        None => {
            return Err(MapError::MissingField);
        },
    };
    let ghost fseq = flats_arr@;
    let mut flats: Vec<FlatDesc> = Vec::new();
    let m = flats_arr.len();
    let mut k: usize = 0;
    while k < m
        invariant
            m == flats_arr@.len(),
            flats_arr@ == fseq,
            0 <= k <= m,
            Some(root) == json_parsed(text@),
            spec_doc_rooms(text@) == Some(rseq),
            spec_doc_flats(text@) == Some(fseq),
            json_member_of(root, "rooms"@) is Some,
            json_array_elems(json_member_of(root, "rooms"@)->Some_0) == Some(rseq),
            json_member_of(root, "flats"@) is Some,
            json_array_elems(json_member_of(root, "flats"@)->Some_0) == Some(fseq),
            spec_rooms_error_from(rseq, 0) is None,
            rooms@.len() == rseq.len(),
            forall|j: int|
                0 <= j < rseq.len() ==> spec_room_matches(#[trigger] rooms@[j], rseq[j])
                    && rooms@[j].wf(),
            spec_flats_error_from(fseq, 0) == spec_flats_error_from(fseq, k as int),
            flats@.len() == k,
            forall|j: int|
                0 <= j < k ==> #[trigger] flats@[j] == spec_flat_record(fseq[j])
                    && flats@[j].wf(),
        decreases m - k,
    {
        let flat = &flats_arr[k];
        let x = match get_i64(flat, "x") {
            Ok(v) => v,
            Err(e) => {
                return Err(e);
            },
        };
        let z = match get_i64(flat, "z") {
            Ok(v) => v,
            Err(e) => {
                return Err(e);
            },
        };
        let is_identity = match json_get(flat, "is_identity") {
            Some(v) => match json_as_bool(v) {
                Some(b) => b,
                None => {
                    return Err(MapError::BadValue);
                },
            },
            None => {
                return Err(MapError::MissingField);
            },
        };
        let door = match get_i64(flat, "door") {
            Ok(v) => v,
            Err(e) => {
                return Err(e);
            },
        };
        if !(0 <= door && door <= 2) {
            return Err(MapError::BadValue);
        }
        if !(-COORD_LIMIT + WALL_FIX <= x && x <= COORD_LIMIT) {
            return Err(MapError::OutOfRange);
        }
        if !(-COORD_LIMIT + WALL_FIX <= z && z <= COORD_LIMIT) {
            return Err(MapError::OutOfRange);
        }
        let desc = FlatDesc { x, z, is_identity, door };
        proof {
            assert(spec_flat_error(fseq[k as int]) is None);
            assert(desc == spec_flat_record(fseq[k as int]));
            assert(desc.wf());
        }
        flats.push(desc);
        k += 1;
    }
    Ok(MapDescription { rooms, flats })
}

} // verus!
