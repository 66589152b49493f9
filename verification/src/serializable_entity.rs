//! Entity identities as they appear on the wire.

use crate::text::{comma_separated, decimal, push_decimal, push_signed_decimal, signed_decimal};
use vstd::prelude::*;
use vstd::string::StringExecFns;

verus! {

/// The identity of an entity: the number of its slot and the generation of
/// the slot's present occupant. When an entity is removed and its slot is
/// given to a new one, the number stays and the generation changes, so that
/// an identity with an old generation names an entity that is gone.
#[derive(Clone, Copy, Debug, PartialEq, Eq, Structural)]
pub struct SerializableEntity {
    pub id: u32,
    pub generation: i32,
}

/// The JSON object that stands for one entity.
pub open spec fn entity_json(entity: SerializableEntity) -> Seq<char> {
    "{\"id\":"@ + decimal(entity.id as nat) + ",\"generation\":"@ + signed_decimal(
        entity.generation as int,
    ) + "}"@
}

/// The JSON objects of a list of entities.
pub open spec fn entity_jsons(entities: Seq<SerializableEntity>) -> Seq<Seq<char>> {
    Seq::new(entities.len(), |i: int| entity_json(entities[i]))
}

/// The JSON array that stands for a list of entities.
pub open spec fn entities_json(entities: Seq<SerializableEntity>) -> Seq<char> {
    "["@ + comma_separated(entity_jsons(entities)) + "]"@
}

/// Whether `entity` is one of the entities in `live`, by number and
/// generation.
pub open spec fn is_live(live: Seq<SerializableEntity>, entity: SerializableEntity) -> bool {
    live.contains(entity)
}

/// The first entity in `live` whose slot has the number `id`.
pub open spec fn first_with_id(live: Seq<SerializableEntity>, id: u32) -> Option<
    SerializableEntity,
>
    decreases live.len(),
{
    if live.len() == 0 {
        None
    } else if live[0].id == id {
        Some(live[0])
    } else {
        first_with_id(live.drop_first(), id)
    }
}

/// `first_with_id` finds an entity exactly when one with that number is in
/// the list, and what it finds is in the list and has that number.
pub proof fn lemma_first_with_id(live: Seq<SerializableEntity>, id: u32)
    ensures
        first_with_id(live, id) is Some <==> exists|i: int|
            0 <= i < live.len() && (#[trigger] live[i]).id == id,
        first_with_id(live, id) matches Some(e) ==> e.id == id && is_live(live, e),
    decreases live.len(),
{
    if live.len() > 0 {
        if live[0].id != id {
            let rest = live.drop_first();
            lemma_first_with_id(rest, id);
            if first_with_id(rest, id) is Some {
                let i = choose|i: int| 0 <= i < rest.len() && (#[trigger] rest[i]).id == id;
                assert(live[i + 1] == rest[i]);
                let e = first_with_id(rest, id)->0;
                let k = choose|k: int| 0 <= k < rest.len() && rest[k] == e;
                assert(live[k + 1] == e);
            }
            if exists|i: int| 0 <= i < live.len() && (#[trigger] live[i]).id == id {
                let i = choose|i: int| 0 <= i < live.len() && (#[trigger] live[i]).id == id;
                assert(rest[i - 1] == live[i]);
            }
        } else {
            assert(live[0] == live[0]);
        }
    }
}

impl SerializableEntity {
    /// The identity with the given slot number and generation.
    pub fn new(id: u32, generation: i32) -> (entity: Self)
        ensures
            entity == (SerializableEntity { id, generation }),
    {
        SerializableEntity { id, generation }
    }

    /// The number of the entity's slot.
    pub fn id(&self) -> (id: u32)
        ensures
            id == self.id,
    {
        self.id
    }

    /// The generation of the entity.
    pub fn gen(&self) -> (generation: i32)
        ensures
            generation == self.generation,
    {
        self.generation
    }

    /// Appends the entity's JSON object to `out`.
    pub fn write_json(&self, out: &mut String)
        ensures
            final(out)@ == old(out)@ + entity_json(*self),
    {
        out.append("{\"id\":");
        push_decimal(out, self.id as u64);
        out.append(",\"generation\":");
        push_signed_decimal(out, self.generation as i64);
        out.append("}");
        proof {
            assert(out@ =~= old(out)@ + entity_json(*self));
        }
    }
}

/// Appends the JSON array of `entities` to `out`.
pub fn write_entities_json(out: &mut String, entities: &Vec<SerializableEntity>)
    ensures
        final(out)@ == old(out)@ + entities_json(entities@),
{
    out.append("[");
    let ghost opened = out@;
    let mut i: usize = 0;
    proof {
        assert(entity_jsons(entities@).take(0) =~= Seq::<Seq<char>>::empty());
        assert(opened + Seq::<char>::empty() =~= opened);
    }
    while i < entities.len()
        invariant
            i <= entities.len(),
            out@ == opened + comma_separated(entity_jsons(entities@).take(i as int)),
        decreases entities.len() - i,
    {
        let ghost before = out@;
        let ghost done = entity_jsons(entities@).take(i as int);
        if i > 0 {
            out.append(",");
        }
        entities[i].write_json(out);
        proof {
            let next = entity_jsons(entities@).take(i as int + 1);
            let this = entity_json(entities@[i as int]);
            assert(next.drop_last() =~= done);
            assert(next.last() == this);
            reveal_strlit(",");
            assert(","@ =~= seq![',']);
            if i > 0 {
                assert((before + seq![',']) + this =~= opened + (comma_separated(done) + seq![',']
                    + this));
            } else {
                assert(before + this =~= opened + this);
                assert(next.len() == 1);
                assert(next[0] == this);
            }
        }
        i = i + 1;
    }
    out.append("]");
    proof {
        assert(entity_jsons(entities@).take(entities@.len() as int) =~= entity_jsons(entities@));
        assert(out@ =~= old(out)@ + entities_json(entities@));
    }
}

/// Tells whether `entity` is among the live entities, by number and
/// generation.
pub fn find_live(live: &Vec<SerializableEntity>, entity: SerializableEntity) -> (found: bool)
    ensures
        found == is_live(live@, entity),
{
    let mut i: usize = 0;
    while i < live.len()
        invariant
            i <= live.len(),
            forall|j: int| 0 <= j < i ==> live@[j] != entity,
        decreases live.len() - i,
    {
        if live[i].id == entity.id && live[i].generation == entity.generation {
            return true;
        }
        i = i + 1;
    }
    false
}

/// Looks up the live entity whose slot has the number `id`: the first in the
/// list, if there are several.
pub fn resolve(live: &Vec<SerializableEntity>, id: u32) -> (entity: Option<SerializableEntity>)
    ensures
        entity == first_with_id(live@, id),
{
    let mut i: usize = 0;
    proof {
        assert(live@.skip(0) =~= live@);
    }
    while i < live.len()
        invariant
            i <= live.len(),
            first_with_id(live@, id) == first_with_id(live@.skip(i as int), id),
        decreases live.len() - i,
    {
        if live[i].id == id {
            return Some(live[i]);
        }
        proof {
            assert(live@.skip(i as int).drop_first() =~= live@.skip(i as int + 1));
        }
        i = i + 1;
    }
    None
}

} // verus!
