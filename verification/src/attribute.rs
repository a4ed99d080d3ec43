use vstd::prelude::*;
use slotmap::{DefaultKey, Key, KeyData, SecondaryMap};
use crate::mesh_elements::{key_of, slot_of};

verus! {

/// A point or direction in space. Each coordinate is kept as the bit pattern
/// of a single-precision number; the mesh stores and copies coordinates and
/// never computes with them.
#[derive(Debug, Clone, Copy, PartialEq, Eq, Structural)]
pub struct Point3 {
    pub x: u32,
    pub y: u32,
    pub z: u32,
}

impl Point3 {
    pub fn new(x: u32, y: u32, z: u32) -> (p: Self)
        ensures
            p == (Point3 { x, y, z }),
    {
        Point3 { x, y, z }
    }
}

/// A texture coordinate, kept like the coordinates of a `Point3`.
#[derive(Debug, Clone, Copy, PartialEq, Eq, Structural)]
pub struct Point2 {
    pub x: u32,
    pub y: u32,
}

impl Point2 {
    pub fn new(x: u32, y: u32) -> (p: Self)
        ensures
            p == (Point2 { x, y }),
    {
        Point2 { x, y }
    }
}

/// The generation of a raw identifier.
pub open spec fn generation_of(raw: u64) -> u32 {
    (raw >> 32) as u32
}

/// Whether the generation of `a` counts as older than that of `b`: the
/// generations are compared on a circle, so that they may wrap around.
pub open spec fn is_older(a: u64, b: u64) -> bool {
    if generation_of(a) >= generation_of(b) {
        generation_of(a) - generation_of(b) >= 0x8000_0000
    } else {
        generation_of(a) + 0x1_0000_0000 - generation_of(b) >= 0x8000_0000
    }
}

/// A sparse map from identifiers to values that lives beside an arena. It
/// holds at most one entry for each slot index.
#[verifier::external_body]
#[verifier::reject_recursive_types(V)]
pub struct AttrMap<V> {
    slots: SecondaryMap<DefaultKey, V>,
}

/// The entries of a map of point values, by raw identifier.
pub uninterp spec fn point_entries(m: AttrMap<Point3>) -> Map<u64, Point3>;

/// What storing `value` under the identifier `key` makes of the entries `m`.
/// The null identifier is never stored. A live entry is overwritten. An entry
/// of the same slot under another generation is replaced unless the new
/// identifier is the older one, in which case nothing is stored.
pub open spec fn point_put(m: Map<u64, Point3>, key: u64, value: Point3) -> Map<u64, Point3> {
    if slot_of(key) == 0xFFFF_FFFF {
        m
    } else if m.contains_key(key) {
        m.insert(key, value)
    } else if exists|other: u64| #[trigger] m.contains_key(other) && slot_of(other) == slot_of(key) {
        let other = choose|other: u64| #[trigger]
            m.contains_key(other) && slot_of(other) == slot_of(key);
        if is_older(key, other) {
            m
        } else {
            m.remove(other).insert(key, value)
        }
    } else {
        m.insert(key, value)
    }
}

/// What storing `value` under the identifier `key` makes of the entries `m`
/// where the entries of other generations of the slot are cleared away
/// first: they are gone, the value stands under `key`, and the entries of
/// every other slot are as they were.
pub open spec fn point_set(m: Map<u64, Point3>, key: u64, value: Point3) -> Map<u64, Point3> {
    Map::new(
        |k: u64| k == key || (m.contains_key(k) && slot_of(k) != slot_of(key)),
        |k: u64|
            if k == key {
                value
            } else {
                m[k]
            },
    )
}

/// Whether two raw identifiers have different slot indices.
pub fn slot_differs(a: u64, b: u64) -> (r: bool)
    ensures
        r == (slot_of(a) != slot_of(b)),
{
    (a & 0xFFFF_FFFF) != (b & 0xFFFF_FFFF)
}

/// `SecondaryMap::new`: a map without entries.
#[verifier::external_body]
pub(crate) fn points_new() -> (m: AttrMap<Point3>)
    ensures
        point_entries(m) == (Map::<u64, Point3>::empty()),
{
    AttrMap { slots: SecondaryMap::new() }
}

/// `SecondaryMap::insert`: stores the value as `point_put` says. No two
/// entries of the map share a slot index afterwards.
#[verifier::external_body]
pub(crate) fn points_insert(m: &mut AttrMap<Point3>, raw: u64, value: Point3)
    ensures
        point_entries(*final(m)) == point_put(point_entries(*old(m)), key_of(raw), value),
        forall|a: u64, b: u64|
            #[trigger] point_entries(*final(m)).contains_key(a) && #[trigger] point_entries(
                *final(m),
            ).contains_key(b) && slot_of(a) == slot_of(b) ==> a == b,
{
    m.slots.insert(DefaultKey::from(KeyData::from_ffi(raw)), value);
}

/// `SecondaryMap::get`: a copy of the value under the identifier, if the map
/// has one.
#[verifier::external_body]
pub(crate) fn points_get(m: &AttrMap<Point3>, raw: u64) -> (r: Option<Point3>)
    ensures
        r == (if point_entries(*m).contains_key(key_of(raw)) {
            Some(point_entries(*m)[key_of(raw)])
        } else {
            None
        }),
{
    m.slots.get(DefaultKey::from(KeyData::from_ffi(raw))).copied()
}

/// `SecondaryMap::retain` with the test `slot_differs`: the entries of the
/// slot of `raw` go, whatever their generation, and every other entry stays
/// as it is.
#[verifier::external_body]
pub(crate) fn points_clear_slot(m: &mut AttrMap<Point3>, raw: u64)
    ensures
        point_entries(*final(m)) == point_entries(*old(m)).remove_keys(
            Set::new(|k: u64| slot_of(k) == slot_of(raw)),
        ),
{
    m.slots.retain(|k, _| slot_differs(k.data().as_ffi(), raw));
}

/// Stores a value under an identifier whose slot is not the null slot, and
/// makes sure that it stands there afterwards: where the map would not take
/// it, because it holds an entry of the slot that counts as newer, that
/// entry is cleared away first.
pub(crate) fn points_store(m: &mut AttrMap<Point3>, raw: u64, value: Point3)
    requires
        slot_of(raw) != 0xFFFF_FFFF,
    ensures
        point_entries(*final(m)) == point_set(point_entries(*old(m)), key_of(raw), value),
{
    let ghost before = point_entries(*m);
    let ghost key = key_of(raw);
    proof {
        assert(slot_of(key_of(raw)) == slot_of(raw)) by {
            assert((raw | 0x1_0000_0000u64) & 0xFFFF_FFFFu64 == raw & 0xFFFF_FFFFu64)
                by (bit_vector);
        }
    }
    points_insert(m, raw, value);
    if points_get(m, raw).is_none() {
        proof {
            assert(point_entries(*m) == before);
        }
        points_clear_slot(m, raw);
        let ghost cleared = point_entries(*m);
        points_insert(m, raw, value);
        proof {
            assert(!cleared.contains_key(key));
            assert(!(exists|other: u64| #[trigger]
                cleared.contains_key(other) && slot_of(other) == slot_of(key)));
            assert(point_entries(*m) =~= point_set(before, key, value));
        }
    } else {
        proof {
            let after = point_entries(*m);
            assert(after.contains_key(key));
            assert forall|k: u64| #[trigger]
                after.contains_key(k) <==> (k == key || (before.contains_key(k) && slot_of(k)
                    != slot_of(key))) by {
                if after.contains_key(k) && k != key {
                    assert(slot_of(k) != slot_of(key));
                }
            }
            assert(after =~= point_set(before, key, value));
        }
    }
}

/// `Clone::clone` of a `SecondaryMap`: a map of its own with the same
/// entries.
#[verifier::external_body]
pub(crate) fn points_clone(m: &AttrMap<Point3>) -> (copy: AttrMap<Point3>)
    ensures
        point_entries(copy) == point_entries(*m),
{
    AttrMap { slots: m.slots.clone() }
}

/// The entries of a map of uv values, by raw identifier.
pub uninterp spec fn uv_entries(m: AttrMap<Point2>) -> Map<u64, Point2>;

/// What storing `value` under the identifier `key` makes of the entries `m`.
/// The null identifier is never stored. A live entry is overwritten. An entry
/// of the same slot under another generation is replaced unless the new
/// identifier is the older one, in which case nothing is stored.
pub open spec fn uv_put(m: Map<u64, Point2>, key: u64, value: Point2) -> Map<u64, Point2> {
    if slot_of(key) == 0xFFFF_FFFF {
        m
    } else if m.contains_key(key) {
        m.insert(key, value)
    } else if exists|other: u64| #[trigger] m.contains_key(other) && slot_of(other) == slot_of(key) {
        let other = choose|other: u64| #[trigger]
            m.contains_key(other) && slot_of(other) == slot_of(key);
        if is_older(key, other) {
            m
        } else {
            m.remove(other).insert(key, value)
        }
    } else {
        m.insert(key, value)
    }
}

/// `SecondaryMap::new`: a map without entries.
#[verifier::external_body]
pub(crate) fn uvs_new() -> (m: AttrMap<Point2>)
    ensures
        uv_entries(m) == (Map::<u64, Point2>::empty()),
{
    AttrMap { slots: SecondaryMap::new() }
}

/// `SecondaryMap::insert`: stores the value as `uv_put` says. No two
/// entries of the map share a slot index afterwards.
#[verifier::external_body]
pub(crate) fn uvs_insert(m: &mut AttrMap<Point2>, raw: u64, value: Point2)
    ensures
        uv_entries(*final(m)) == uv_put(uv_entries(*old(m)), key_of(raw), value),
        forall|a: u64, b: u64|
            #[trigger] uv_entries(*final(m)).contains_key(a) && #[trigger] uv_entries(
                *final(m),
            ).contains_key(b) && slot_of(a) == slot_of(b) ==> a == b,
{
    m.slots.insert(DefaultKey::from(KeyData::from_ffi(raw)), value);
}

/// `SecondaryMap::get`: a copy of the value under the identifier, if the map
/// has one.
#[verifier::external_body]
pub(crate) fn uvs_get(m: &AttrMap<Point2>, raw: u64) -> (r: Option<Point2>)
    ensures
        r == (if uv_entries(*m).contains_key(key_of(raw)) {
            Some(uv_entries(*m)[key_of(raw)])
        } else {
            None
        }),
{
    m.slots.get(DefaultKey::from(KeyData::from_ffi(raw))).copied()
}

/// What storing `value` under the identifier `key` makes of the entries `m`
/// where the entries of other generations of the slot are cleared away
/// first: they are gone, the value stands under `key`, and the entries of
/// every other slot are as they were.
pub open spec fn uv_set(m: Map<u64, Point2>, key: u64, value: Point2) -> Map<u64, Point2> {
    Map::new(
        |k: u64| k == key || (m.contains_key(k) && slot_of(k) != slot_of(key)),
        |k: u64|
            if k == key {
                value
            } else {
                m[k]
            },
    )
}

/// `SecondaryMap::retain` with the test `slot_differs`: the entries of the
/// slot of `raw` go, whatever their generation, and every other entry stays
/// as it is.
#[verifier::external_body]
pub(crate) fn uvs_clear_slot(m: &mut AttrMap<Point2>, raw: u64)
    ensures
        uv_entries(*final(m)) == uv_entries(*old(m)).remove_keys(
            Set::new(|k: u64| slot_of(k) == slot_of(raw)),
        ),
{
    m.slots.retain(|k, _| slot_differs(k.data().as_ffi(), raw));
}

/// Stores a value under an identifier whose slot is not the null slot, and
/// makes sure that it stands there afterwards: where the map would not take
/// it, because it holds an entry of the slot that counts as newer, that
/// entry is cleared away first.
pub(crate) fn uvs_store(m: &mut AttrMap<Point2>, raw: u64, value: Point2)
    requires
        slot_of(raw) != 0xFFFF_FFFF,
    ensures
        uv_entries(*final(m)) == uv_set(uv_entries(*old(m)), key_of(raw), value),
{
    let ghost before = uv_entries(*m);
    let ghost key = key_of(raw);
    proof {
        assert(slot_of(key_of(raw)) == slot_of(raw)) by {
            assert((raw | 0x1_0000_0000u64) & 0xFFFF_FFFFu64 == raw & 0xFFFF_FFFFu64)
                by (bit_vector);
        }
    }
    uvs_insert(m, raw, value);
    if uvs_get(m, raw).is_none() {
        proof {
            assert(uv_entries(*m) == before);
        }
        uvs_clear_slot(m, raw);
        let ghost cleared = uv_entries(*m);
        uvs_insert(m, raw, value);
        proof {
            assert(!cleared.contains_key(key));
            assert(!(exists|other: u64| #[trigger]
                cleared.contains_key(other) && slot_of(other) == slot_of(key)));
            assert(uv_entries(*m) =~= uv_set(before, key, value));
        }
    } else {
        proof {
            let after = uv_entries(*m);
            assert(after.contains_key(key));
            assert forall|k: u64| #[trigger]
                after.contains_key(k) <==> (k == key || (before.contains_key(k) && slot_of(k)
                    != slot_of(key))) by {
                if after.contains_key(k) && k != key {
                    assert(slot_of(k) != slot_of(key));
                }
            }
            assert(after =~= uv_set(before, key, value));
        }
    }
}

/// What storing a point under an identifier makes of the entries: under a
/// live identifier the value stands afterwards, whatever the map held for
/// the slot; under any other the map decides as `point_put` says.
pub open spec fn point_place(m: Map<u64, Point3>, key: u64, value: Point3, live: bool) -> Map<
    u64,
    Point3,
> {
    if live {
        point_set(m, key, value)
    } else {
        point_put(m, key, value)
    }
}

/// `point_place` for texture coordinates.
pub open spec fn uv_place(m: Map<u64, Point2>, key: u64, value: Point2, live: bool) -> Map<
    u64,
    Point2,
> {
    if live {
        uv_set(m, key, value)
    } else {
        uv_put(m, key, value)
    }
}

/// `Clone::clone` of a `SecondaryMap`: a map of its own with the same
/// entries.
#[verifier::external_body]
pub(crate) fn uvs_clone(m: &AttrMap<Point2>) -> (copy: AttrMap<Point2>)
    ensures
        uv_entries(copy) == uv_entries(*m),
{
    AttrMap { slots: m.slots.clone() }
}

} // verus!
