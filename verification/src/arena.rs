use vstd::prelude::*;
use slotmap::{DefaultKey, Key, KeyData, SlotMap};
use crate::attribute::generation_of;
use crate::mesh_elements::{key_of, slot_of, Face, Halfedge, Vertex};

verus! {

/// A generation-checked arena of records. A record is found by the raw
/// identifier that `insert` handed out for it. Its removal leaves the
/// identifier without a record; a later `insert` may use the slot again,
/// under another generation.
#[verifier::external_body]
#[verifier::reject_recursive_types(V)]
pub struct Arena<V> {
    slots: SlotMap<DefaultKey, V>,
}

/// The live vertex records of an arena, by raw identifier.
pub uninterp spec fn vertex_entries(m: Arena<Vertex>) -> Map<u64, Vertex>;

/// The number of slots that an arena of vertex records has taken into use so
/// far, its unused first slot included. Removing a record frees none.
pub uninterp spec fn vertex_slots(m: Arena<Vertex>) -> nat;

/// The generation that each slot of an arena of vertex records stands at, by
/// slot index, its unused first slot included: odd while the slot holds a
/// record, which is then found under that generation, and even while it is
/// free.
pub uninterp spec fn vertex_generations(m: Arena<Vertex>) -> Seq<u32>;

/// `SlotMap::new`: an arena without records, holding only its unused first
/// slot.
#[verifier::external_body]
pub(crate) fn vertices_new() -> (arena: Arena<Vertex>)
    ensures
        vertex_entries(arena) == (Map::<u64, Vertex>::empty()),
        vertex_slots(arena) == 1,
        vertex_generations(arena) == seq![0u32],
{
    Arena { slots: SlotMap::new() }
}

/// `SlotMap::insert`: stores the record under an identifier that was not
/// live before, in a freed slot or in one new slot. The slot is one of the
/// slots in use afterwards, and no record that was live before has it. The
/// generation of the identifier is one step after the generation at which a
/// freed slot stood, and the first odd one in a new slot; the slot stands at
/// it afterwards. It panics when every slot index is taken, which the
/// precondition leaves out.
#[verifier::external_body]
pub(crate) fn vertices_insert(m: &mut Arena<Vertex>, record: Vertex) -> (raw: u64)
    requires
        vertex_slots(*old(m)) < u32::MAX,
    ensures
        !vertex_entries(*old(m)).contains_key(raw),
        key_of(raw) == raw,
        vertex_entries(*final(m)) == vertex_entries(*old(m)).insert(raw, record),
        vertex_entries(*final(m)).dom().len() == vertex_entries(*old(m)).dom().len() + 1,
        vertex_slots(*old(m)) <= vertex_slots(*final(m)) <= vertex_slots(*old(m)) + 1,
        slot_of(raw) < vertex_slots(*final(m)),
        forall|k: u64| vertex_entries(*old(m)).contains_key(k) ==> slot_of(k) != slot_of(raw),
        slot_of(raw) < vertex_generations(*old(m)).len() ==> generation_of(raw)
            == vertex_generations(*old(m))[slot_of(raw) as int] + 1 && vertex_generations(*final(m))
            == vertex_generations(*old(m)).update(slot_of(raw) as int, generation_of(raw)),
        slot_of(raw) >= vertex_generations(*old(m)).len() ==> generation_of(raw) == 1
            && vertex_generations(*final(m)) == vertex_generations(*old(m)).push(1u32),
{
    m.slots.insert(record).data().as_ffi()
}

/// `SlotMap::get`: a copy of the record under the identifier, if it is live.
/// A live identifier has one of the slots in use, which is never the null
/// slot, and no other live identifier has that slot.
#[verifier::external_body]
pub(crate) fn vertices_get(m: &Arena<Vertex>, raw: u64) -> (r: Option<Vertex>)
    ensures
        r == (if vertex_entries(*m).contains_key(key_of(raw)) {
            Some(vertex_entries(*m)[key_of(raw)])
        } else {
            None
        }),
        r is Some ==> slot_of(raw) < vertex_slots(*m) && slot_of(raw) < 0xFFFF_FFFF,
        r is Some ==> forall|k: u64|
            vertex_entries(*m).contains_key(k) && slot_of(k) == slot_of(raw) ==> k == key_of(raw),
{
    m.slots.get(DefaultKey::from(KeyData::from_ffi(raw))).copied()
}

/// `SlotMap::get_mut`, then a store through the reference: overwrites the
/// record under a live identifier and says whether the identifier was live.
/// No generation changes.
#[verifier::external_body]
pub(crate) fn vertices_set(m: &mut Arena<Vertex>, raw: u64, record: Vertex) -> (live: bool)
    ensures
        live == vertex_entries(*old(m)).contains_key(key_of(raw)),
        live ==> vertex_entries(*final(m)) == vertex_entries(*old(m)).insert(key_of(raw), record),
        !live ==> vertex_entries(*final(m)) == vertex_entries(*old(m)),
        vertex_entries(*final(m)).dom() == vertex_entries(*old(m)).dom(),
        vertex_slots(*final(m)) == vertex_slots(*old(m)),
        vertex_generations(*final(m)) == vertex_generations(*old(m)),
{
    match m.slots.get_mut(DefaultKey::from(KeyData::from_ffi(raw))) {
        Some(slot) => {
            *slot = record;
            true
        },
        None => false,
    }
}

/// `SlotMap::remove`: takes the record under the identifier out, if it is
/// live, and hands it back. The slot stays in use. It stood at the
/// generation of the identifier, and goes one step on, from the last
/// generation back to the first.
#[verifier::external_body]
pub(crate) fn vertices_remove(m: &mut Arena<Vertex>, raw: u64) -> (r: Option<Vertex>)
    ensures
        r == (if vertex_entries(*old(m)).contains_key(key_of(raw)) {
            Some(vertex_entries(*old(m))[key_of(raw)])
        } else {
            None
        }),
        vertex_entries(*final(m)) == vertex_entries(*old(m)).remove(key_of(raw)),
        vertex_entries(*final(m)).dom().len() + (if r.is_some() { 1nat } else { 0nat })
            == vertex_entries(*old(m)).dom().len(),
        vertex_slots(*final(m)) == vertex_slots(*old(m)),
        r is None ==> vertex_generations(*final(m)) == vertex_generations(*old(m)),
        r is Some ==> slot_of(raw) < vertex_generations(*old(m)).len() && vertex_generations(
            *old(m),
        )[slot_of(raw) as int] == generation_of(key_of(raw)) && vertex_generations(*final(m))
            == vertex_generations(*old(m)).update(
            slot_of(raw) as int,
            if generation_of(key_of(raw)) == u32::MAX {
                0u32
            } else {
                (generation_of(key_of(raw)) + 1) as u32
            },
        ),
{
    m.slots.remove(DefaultKey::from(KeyData::from_ffi(raw)))
}

/// `Clone::clone` of a `SlotMap`: an arena of its own with the same records
/// under the same identifiers and the same slots in use.
#[verifier::external_body]
pub(crate) fn vertices_clone(m: &Arena<Vertex>) -> (copy: Arena<Vertex>)
    ensures
        vertex_entries(copy) == vertex_entries(*m),
        vertex_slots(copy) == vertex_slots(*m),
        vertex_generations(copy) == vertex_generations(*m),
{
    Arena { slots: m.slots.clone() }
}

/// `SlotMap::len`: the number of live records.
#[verifier::external_body]
pub(crate) fn vertices_len(m: &Arena<Vertex>) -> (n: usize)
    ensures
        n == vertex_entries(*m).dom().len(),
{
    m.slots.len()
}

/// `SlotMap::keys`: the live identifiers, each once, by rising slot index.
#[verifier::external_body]
pub(crate) fn vertices_keys(m: &Arena<Vertex>) -> (keys: Vec<u64>)
    ensures
        keys@.len() == vertex_entries(*m).dom().len(),
        forall|raw: u64| keys@.contains(raw) <==> vertex_entries(*m).contains_key(raw),
        forall|i: int| 0 <= i < keys@.len() ==> key_of(#[trigger] keys@[i]) == keys@[i],
        forall|i: int, j: int|
            0 <= i < j < keys@.len() ==> slot_of(#[trigger] keys@[i]) < slot_of(#[trigger] keys@[j]),
{
    m.slots.keys().map(|k| k.data().as_ffi()).collect()
}

/// The live halfedge records of an arena, by raw identifier.
pub uninterp spec fn halfedge_entries(m: Arena<Halfedge>) -> Map<u64, Halfedge>;

/// The number of slots that an arena of halfedge records has taken into use so
/// far, its unused first slot included. Removing a record frees none.
pub uninterp spec fn halfedge_slots(m: Arena<Halfedge>) -> nat;

/// The generation that each slot of an arena of halfedge records stands at, by
/// slot index, its unused first slot included: odd while the slot holds a
/// record, which is then found under that generation, and even while it is
/// free.
pub uninterp spec fn halfedge_generations(m: Arena<Halfedge>) -> Seq<u32>;

/// `SlotMap::new`: an arena without records, holding only its unused first
/// slot.
#[verifier::external_body]
pub(crate) fn halfedges_new() -> (arena: Arena<Halfedge>)
    ensures
        halfedge_entries(arena) == (Map::<u64, Halfedge>::empty()),
        halfedge_slots(arena) == 1,
        halfedge_generations(arena) == seq![0u32],
{
    Arena { slots: SlotMap::new() }
}

/// `SlotMap::insert`: stores the record under an identifier that was not
/// live before, in a freed slot or in one new slot. The slot is one of the
/// slots in use afterwards, and no record that was live before has it. The
/// generation of the identifier is one step after the generation at which a
/// freed slot stood, and the first odd one in a new slot; the slot stands at
/// it afterwards. It panics when every slot index is taken, which the
/// precondition leaves out.
#[verifier::external_body]
pub(crate) fn halfedges_insert(m: &mut Arena<Halfedge>, record: Halfedge) -> (raw: u64)
    requires
        halfedge_slots(*old(m)) < u32::MAX,
    ensures
        !halfedge_entries(*old(m)).contains_key(raw),
        key_of(raw) == raw,
        halfedge_entries(*final(m)) == halfedge_entries(*old(m)).insert(raw, record),
        halfedge_entries(*final(m)).dom().len() == halfedge_entries(*old(m)).dom().len() + 1,
        halfedge_slots(*old(m)) <= halfedge_slots(*final(m)) <= halfedge_slots(*old(m)) + 1,
        slot_of(raw) < halfedge_slots(*final(m)),
        forall|k: u64| halfedge_entries(*old(m)).contains_key(k) ==> slot_of(k) != slot_of(raw),
        slot_of(raw) < halfedge_generations(*old(m)).len() ==> generation_of(raw)
            == halfedge_generations(*old(m))[slot_of(raw) as int] + 1 && halfedge_generations(*final(m))
            == halfedge_generations(*old(m)).update(slot_of(raw) as int, generation_of(raw)),
        slot_of(raw) >= halfedge_generations(*old(m)).len() ==> generation_of(raw) == 1
            && halfedge_generations(*final(m)) == halfedge_generations(*old(m)).push(1u32),
{
    m.slots.insert(record).data().as_ffi()
}

/// `SlotMap::get`: a copy of the record under the identifier, if it is live.
/// A live identifier has one of the slots in use, which is never the null
/// slot, and no other live identifier has that slot.
#[verifier::external_body]
pub(crate) fn halfedges_get(m: &Arena<Halfedge>, raw: u64) -> (r: Option<Halfedge>)
    ensures
        r == (if halfedge_entries(*m).contains_key(key_of(raw)) {
            Some(halfedge_entries(*m)[key_of(raw)])
        } else {
            None
        }),
        r is Some ==> slot_of(raw) < halfedge_slots(*m) && slot_of(raw) < 0xFFFF_FFFF,
        r is Some ==> forall|k: u64|
            halfedge_entries(*m).contains_key(k) && slot_of(k) == slot_of(raw) ==> k == key_of(raw),
{
    m.slots.get(DefaultKey::from(KeyData::from_ffi(raw))).copied()
}

/// `SlotMap::get_mut`, then a store through the reference: overwrites the
/// record under a live identifier and says whether the identifier was live.
/// No generation changes.
#[verifier::external_body]
pub(crate) fn halfedges_set(m: &mut Arena<Halfedge>, raw: u64, record: Halfedge) -> (live: bool)
    ensures
        live == halfedge_entries(*old(m)).contains_key(key_of(raw)),
        live ==> halfedge_entries(*final(m)) == halfedge_entries(*old(m)).insert(key_of(raw), record),
        !live ==> halfedge_entries(*final(m)) == halfedge_entries(*old(m)),
        halfedge_entries(*final(m)).dom() == halfedge_entries(*old(m)).dom(),
        halfedge_slots(*final(m)) == halfedge_slots(*old(m)),
        halfedge_generations(*final(m)) == halfedge_generations(*old(m)),
{
    match m.slots.get_mut(DefaultKey::from(KeyData::from_ffi(raw))) {
        Some(slot) => {
            *slot = record;
            true
        },
        None => false,
    }
}

/// `SlotMap::remove`: takes the record under the identifier out, if it is
/// live, and hands it back. The slot stays in use. It stood at the
/// generation of the identifier, and goes one step on, from the last
/// generation back to the first.
#[verifier::external_body]
pub(crate) fn halfedges_remove(m: &mut Arena<Halfedge>, raw: u64) -> (r: Option<Halfedge>)
    ensures
        r == (if halfedge_entries(*old(m)).contains_key(key_of(raw)) {
            Some(halfedge_entries(*old(m))[key_of(raw)])
        } else {
            None
        }),
        halfedge_entries(*final(m)) == halfedge_entries(*old(m)).remove(key_of(raw)),
        halfedge_entries(*final(m)).dom().len() + (if r.is_some() { 1nat } else { 0nat })
            == halfedge_entries(*old(m)).dom().len(),
        halfedge_slots(*final(m)) == halfedge_slots(*old(m)),
        r is None ==> halfedge_generations(*final(m)) == halfedge_generations(*old(m)),
        r is Some ==> slot_of(raw) < halfedge_generations(*old(m)).len() && halfedge_generations(
            *old(m),
        )[slot_of(raw) as int] == generation_of(key_of(raw)) && halfedge_generations(*final(m))
            == halfedge_generations(*old(m)).update(
            slot_of(raw) as int,
            if generation_of(key_of(raw)) == u32::MAX {
                0u32
            } else {
                (generation_of(key_of(raw)) + 1) as u32
            },
        ),
{
    m.slots.remove(DefaultKey::from(KeyData::from_ffi(raw)))
}

/// `Clone::clone` of a `SlotMap`: an arena of its own with the same records
/// under the same identifiers and the same slots in use.
#[verifier::external_body]
pub(crate) fn halfedges_clone(m: &Arena<Halfedge>) -> (copy: Arena<Halfedge>)
    ensures
        halfedge_entries(copy) == halfedge_entries(*m),
        halfedge_slots(copy) == halfedge_slots(*m),
        halfedge_generations(copy) == halfedge_generations(*m),
{
    Arena { slots: m.slots.clone() }
}

/// `SlotMap::len`: the number of live records.
#[verifier::external_body]
pub(crate) fn halfedges_len(m: &Arena<Halfedge>) -> (n: usize)
    ensures
        n == halfedge_entries(*m).dom().len(),
{
    m.slots.len()
}

/// `SlotMap::keys`: the live identifiers, each once, by rising slot index.
#[verifier::external_body]
pub(crate) fn halfedges_keys(m: &Arena<Halfedge>) -> (keys: Vec<u64>)
    ensures
        keys@.len() == halfedge_entries(*m).dom().len(),
        forall|raw: u64| keys@.contains(raw) <==> halfedge_entries(*m).contains_key(raw),
        forall|i: int| 0 <= i < keys@.len() ==> key_of(#[trigger] keys@[i]) == keys@[i],
        forall|i: int, j: int|
            0 <= i < j < keys@.len() ==> slot_of(#[trigger] keys@[i]) < slot_of(#[trigger] keys@[j]),
{
    m.slots.keys().map(|k| k.data().as_ffi()).collect()
}

/// The live face records of an arena, by raw identifier.
pub uninterp spec fn face_entries(m: Arena<Face>) -> Map<u64, Face>;

/// The number of slots that an arena of face records has taken into use so
/// far, its unused first slot included. Removing a record frees none.
pub uninterp spec fn face_slots(m: Arena<Face>) -> nat;

/// The generation that each slot of an arena of face records stands at, by
/// slot index, its unused first slot included: odd while the slot holds a
/// record, which is then found under that generation, and even while it is
/// free.
pub uninterp spec fn face_generations(m: Arena<Face>) -> Seq<u32>;

/// `SlotMap::new`: an arena without records, holding only its unused first
/// slot.
#[verifier::external_body]
pub(crate) fn faces_new() -> (arena: Arena<Face>)
    ensures
        face_entries(arena) == (Map::<u64, Face>::empty()),
        face_slots(arena) == 1,
        face_generations(arena) == seq![0u32],
{
    Arena { slots: SlotMap::new() }
}

/// `SlotMap::insert`: stores the record under an identifier that was not
/// live before, in a freed slot or in one new slot. The slot is one of the
/// slots in use afterwards, and no record that was live before has it. The
/// generation of the identifier is one step after the generation at which a
/// freed slot stood, and the first odd one in a new slot; the slot stands at
/// it afterwards. It panics when every slot index is taken, which the
/// precondition leaves out.
#[verifier::external_body]
pub(crate) fn faces_insert(m: &mut Arena<Face>, record: Face) -> (raw: u64)
    requires
        face_slots(*old(m)) < u32::MAX,
    ensures
        !face_entries(*old(m)).contains_key(raw),
        key_of(raw) == raw,
        face_entries(*final(m)) == face_entries(*old(m)).insert(raw, record),
        face_entries(*final(m)).dom().len() == face_entries(*old(m)).dom().len() + 1,
        face_slots(*old(m)) <= face_slots(*final(m)) <= face_slots(*old(m)) + 1,
        slot_of(raw) < face_slots(*final(m)),
        forall|k: u64| face_entries(*old(m)).contains_key(k) ==> slot_of(k) != slot_of(raw),
        slot_of(raw) < face_generations(*old(m)).len() ==> generation_of(raw)
            == face_generations(*old(m))[slot_of(raw) as int] + 1 && face_generations(*final(m))
            == face_generations(*old(m)).update(slot_of(raw) as int, generation_of(raw)),
        slot_of(raw) >= face_generations(*old(m)).len() ==> generation_of(raw) == 1
            && face_generations(*final(m)) == face_generations(*old(m)).push(1u32),
{
    m.slots.insert(record).data().as_ffi()
}

/// `SlotMap::get`: a copy of the record under the identifier, if it is live.
/// A live identifier has one of the slots in use, which is never the null
/// slot, and no other live identifier has that slot.
#[verifier::external_body]
pub(crate) fn faces_get(m: &Arena<Face>, raw: u64) -> (r: Option<Face>)
    ensures
        r == (if face_entries(*m).contains_key(key_of(raw)) {
            Some(face_entries(*m)[key_of(raw)])
        } else {
            None
        }),
        r is Some ==> slot_of(raw) < face_slots(*m) && slot_of(raw) < 0xFFFF_FFFF,
        r is Some ==> forall|k: u64|
            face_entries(*m).contains_key(k) && slot_of(k) == slot_of(raw) ==> k == key_of(raw),
{
    m.slots.get(DefaultKey::from(KeyData::from_ffi(raw))).copied()
}

/// `SlotMap::get_mut`, then a store through the reference: overwrites the
/// record under a live identifier and says whether the identifier was live.
/// No generation changes.
#[verifier::external_body]
pub(crate) fn faces_set(m: &mut Arena<Face>, raw: u64, record: Face) -> (live: bool)
    ensures
        live == face_entries(*old(m)).contains_key(key_of(raw)),
        live ==> face_entries(*final(m)) == face_entries(*old(m)).insert(key_of(raw), record),
        !live ==> face_entries(*final(m)) == face_entries(*old(m)),
        face_entries(*final(m)).dom() == face_entries(*old(m)).dom(),
        face_slots(*final(m)) == face_slots(*old(m)),
        face_generations(*final(m)) == face_generations(*old(m)),
{
    match m.slots.get_mut(DefaultKey::from(KeyData::from_ffi(raw))) {
        Some(slot) => {
            *slot = record;
            true
        },
        None => false,
    }
}

/// `SlotMap::remove`: takes the record under the identifier out, if it is
/// live, and hands it back. The slot stays in use. It stood at the
/// generation of the identifier, and goes one step on, from the last
/// generation back to the first.
#[verifier::external_body]
pub(crate) fn faces_remove(m: &mut Arena<Face>, raw: u64) -> (r: Option<Face>)
    ensures
        r == (if face_entries(*old(m)).contains_key(key_of(raw)) {
            Some(face_entries(*old(m))[key_of(raw)])
        } else {
            None
        }),
        face_entries(*final(m)) == face_entries(*old(m)).remove(key_of(raw)),
        face_entries(*final(m)).dom().len() + (if r.is_some() { 1nat } else { 0nat })
            == face_entries(*old(m)).dom().len(),
        face_slots(*final(m)) == face_slots(*old(m)),
        r is None ==> face_generations(*final(m)) == face_generations(*old(m)),
        r is Some ==> slot_of(raw) < face_generations(*old(m)).len() && face_generations(
            *old(m),
        )[slot_of(raw) as int] == generation_of(key_of(raw)) && face_generations(*final(m))
            == face_generations(*old(m)).update(
            slot_of(raw) as int,
            if generation_of(key_of(raw)) == u32::MAX {
                0u32
            } else {
                (generation_of(key_of(raw)) + 1) as u32
            },
        ),
{
    m.slots.remove(DefaultKey::from(KeyData::from_ffi(raw)))
}

/// `Clone::clone` of a `SlotMap`: an arena of its own with the same records
/// under the same identifiers and the same slots in use.
#[verifier::external_body]
pub(crate) fn faces_clone(m: &Arena<Face>) -> (copy: Arena<Face>)
    ensures
        face_entries(copy) == face_entries(*m),
        face_slots(copy) == face_slots(*m),
        face_generations(copy) == face_generations(*m),
{
    Arena { slots: m.slots.clone() }
}

/// `SlotMap::len`: the number of live records.
#[verifier::external_body]
pub(crate) fn faces_len(m: &Arena<Face>) -> (n: usize)
    ensures
        n == face_entries(*m).dom().len(),
{
    m.slots.len()
}

/// `SlotMap::keys`: the live identifiers, each once, by rising slot index.
#[verifier::external_body]
pub(crate) fn faces_keys(m: &Arena<Face>) -> (keys: Vec<u64>)
    ensures
        keys@.len() == face_entries(*m).dom().len(),
        forall|raw: u64| keys@.contains(raw) <==> face_entries(*m).contains_key(raw),
        forall|i: int| 0 <= i < keys@.len() ==> key_of(#[trigger] keys@[i]) == keys@[i],
        forall|i: int, j: int|
            0 <= i < j < keys@.len() ==> slot_of(#[trigger] keys@[i]) < slot_of(#[trigger] keys@[j]),
{
    m.slots.keys().map(|k| k.data().as_ffi()).collect()
}

} // verus!
