use vstd::prelude::*;
use std::collections::HashMap;
use crate::error::DemoParserError;
use crate::bitreader::{Bitreader, read_outcome, spec_u_bit_var, spec_nbits, spec_bit_varint};
use crate::field_path::wadd;
use crate::entity_state::{Entity, EntityState};
use crate::game_types::{EntityType, check_entity_type, entity_type_of};
use crate::sendtables::Serializer;

verus! {

/// What a packet of entity updates does to one entity.
#[derive(Clone, Copy, Debug, PartialEq, Eq, Structural)]
pub enum EntityOp {
    /// The entity is removed.
    Delete,
    /// The entity is created, then updated.
    CreateAndUpdate,
    /// The entity is updated.
    Update,
    /// The entity is left as it is (it is out of view).
    Unchanged,
}

/// The number of bits of an entity's serial number.
pub const NSERIALBITS: u32 = 17;

/// The largest entity id for which the entity list grows.
pub const MAX_ENTITY_ID: i32 = 100000;

/// The next entity header at bit `p`, after entity `entity_id`: the id
/// moves on by one plus a number of variable bit length (wrapping around),
/// then two bits give the op: a set low bit deletes, `2` creates, `0`
/// updates, unless visibility bits are sent (`pvs_vis_bits > 0`) and the
/// low of the next two bits is set, which leaves the entity unchanged.
pub open spec fn spec_entity_op(d: Seq<u8>, p: int, entity_id: i32, pvs_vis_bits: i32) -> Result<((i32, EntityOp), int), DemoParserError> {
    match spec_u_bit_var(d, p) {
        Err(e) => Err(e),
        Ok((delta, p1)) => {
            let id = wadd(entity_id, wadd(1, delta as i32));
            match spec_nbits(d, p1, 2) {
                Err(e) => Err(e),
                Ok((op, p2)) => if op == 1 || op == 3 {
                    Ok(((id, EntityOp::Delete), p2))
                } else if op == 2 {
                    Ok(((id, EntityOp::CreateAndUpdate), p2))
                } else if op == 0 {
                    if pvs_vis_bits > 0 {
                        match spec_nbits(d, p2, 2) {
                            Err(e) => Err(e),
                            Ok((v, p3)) => if v & 1 == 1 {
                                Ok(((id, EntityOp::Unchanged), p3))
                            } else {
                                Ok(((id, EntityOp::Update), p3))
                            },
                        }
                    } else {
                        Ok(((id, EntityOp::Update), p2))
                    }
                } else {
                    Err(DemoParserError::ImpossibleCmd)
                },
            }
        },
    }
}

/// Reads the header of the next entity of a packet, as `spec_entity_op`
/// says: its id and what to do with it.
pub fn read_entity_op(br: &mut Bitreader, entity_id: i32, pvs_vis_bits: i32) -> (r: Result<(i32, EntityOp), DemoParserError>)
    requires
        old(br).wf(),
    ensures
        read_outcome(*old(br), *final(br), r, spec_entity_op(old(br).data(), old(br).pos(), entity_id, pvs_vis_bits)),
{
    let delta = br.read_u_bit_var()?;
    let id = entity_id.wrapping_add(1i32.wrapping_add(delta as i32));
    let op = br.read_bits_checked(2)?;
    if op == 1 || op == 3 {
        Ok((id, EntityOp::Delete))
    } else if op == 2 {
        Ok((id, EntityOp::CreateAndUpdate))
    } else if op == 0 {
        if pvs_vis_bits > 0 {
            let v = br.read_bits_checked(2)?;
            if v & 1 == 1 {
                Ok((id, EntityOp::Unchanged))
            } else {
                Ok((id, EntityOp::Update))
            }
        } else {
            Ok((id, EntityOp::Update))
        }
    } else {
        Err(DemoParserError::ImpossibleCmd)
    }
}

/// `s` without the occurrences of `x`.
pub open spec fn without(s: Seq<i32>, x: i32) -> Seq<i32>
    decreases s.len(),
{
    if s.len() == 0 {
        s
    } else if s.last() == x {
        without(s.drop_last(), x)
    } else {
        without(s.drop_last(), x).push(s.last())
    }
}

/// Removes entity `entity_id`: it is no longer a projectile, and its slot,
/// where there is one, is emptied.
pub fn delete_entity(entities: &mut Vec<Option<Entity>>, projectiles: &mut Vec<i32>, entity_id: i32)
    ensures
        final(projectiles)@ == without(old(projectiles)@, entity_id),
        final(entities)@ == (if 0 <= entity_id < old(entities)@.len() {
            old(entities)@.update(entity_id as int, None)
        } else {
            old(entities)@
        }),
{
    let mut kept: Vec<i32> = Vec::new();
    let mut i: usize = 0;
    while i < projectiles.len()
        invariant
            i <= projectiles@.len(),
            projectiles@ == old(projectiles)@,
            kept@ == without(old(projectiles)@.take(i as int), entity_id),
        decreases projectiles@.len() - i,
    {
        assert(old(projectiles)@.take(i + 1).drop_last() =~= old(projectiles)@.take(i as int));
        if projectiles[i] != entity_id {
            kept.push(projectiles[i]);
        }
        i += 1;
    }
    assert(old(projectiles)@.take(i as int) =~= old(projectiles)@);
    *projectiles = kept;
    if entity_id >= 0 && (entity_id as usize) < entities.len() {
        entities.set(entity_id as usize, None);
    }
}

/// The class id at bit `p` of a created entity, after which its serial
/// number follows; the position after both.
pub open spec fn spec_entity_header(d: Seq<u8>, p: int) -> Result<(u32, int), DemoParserError> {
    match spec_nbits(d, p, 8) {
        Err(e) => Err(e),
        Ok((cls_id, p1)) => match spec_nbits(d, p1, NSERIALBITS as nat) {
            Err(e) => Err(e),
            Ok((serial, p2)) => Ok((cls_id, p2)),
        },
    }
}

/// The projectiles after an entity of type `t` is created: a projectile is
/// added once.
pub open spec fn projectiles_after(p: Seq<i32>, t: EntityType, entity_id: i32) -> Seq<i32> {
    if t == EntityType::Projectile && !p.contains(entity_id) {
        p.push(entity_id)
    } else {
        p
    }
}

/// The entity slots after entity `entity_id` is put in: grown with empty
/// slots up to it where it lies past the end, and it in its slot.
pub open spec fn slots_after(before: Seq<Option<Entity>>, after: Seq<Option<Entity>>, entity_id: i32, cls_id: u32, t: EntityType) -> bool {
    &&& after.len() == (if entity_id < before.len() { before.len() as int } else { entity_id + 1 })
    &&& after[entity_id as int] matches Some(e)
    &&& e.entity_id == entity_id && e.cls_id == cls_id && e.entity_type == t && e.props@ == Map::<u32, crate::variants::Variant>::empty()
    &&& forall|i: int| 0 <= i < after.len() && i != entity_id ==> #[trigger] after[i] == (if i < before.len() { before[i] } else { None })
}

/// Whether `x` is among `p`.
fn contains_id(p: &Vec<i32>, x: i32) -> (r: bool)
    ensures
        r == p@.contains(x),
{
    let mut i: usize = 0;
    while i < p.len()
        invariant
            i <= p@.len(),
            forall|j: int| 0 <= j < i ==> p@[j] != x,
        decreases p@.len() - i,
    {
        if p[i] == x {
            assert(p@[i as int] == x);
            return true;
        }
        i += 1;
    }
    false
}

/// Grows `entities` with empty slots to length `n`, where it is shorter.
fn grow_entities(entities: &mut Vec<Option<Entity>>, n: usize)
    ensures
        final(entities)@.len() == (if n <= old(entities)@.len() { old(entities)@.len() as int } else { n as int }),
        forall|i: int| 0 <= i < final(entities)@.len() ==> #[trigger] final(entities)@[i]
            == (if i < old(entities)@.len() { old(entities)@[i] } else { None }),
{
    while entities.len() < n
        invariant
            old(entities)@.len() <= entities@.len(),
            entities@.len() <= n || entities@.len() == old(entities)@.len(),
            forall|i: int| 0 <= i < entities@.len() ==> #[trigger] entities@[i]
                == (if i < old(entities)@.len() { old(entities)@[i] } else { None }),
        decreases n - entities@.len(),
    {
        entities.push(None);
    }
}

impl EntityState {
    /// Creates entity `entity_id` from the header at the reader: its class
    /// id, serial number and a varint (whose failure is ignored). A
    /// projectile is recorded, a rules or bomb entity's id kept; the entity
    /// list grows up to the id unless it is past `MAX_ENTITY_ID`
    /// (`VectorResizeFailure`), and a negative id has no slot
    /// (`EntityNotFound`). The new entity has no properties; the class id
    /// is returned for its baseline.
    pub fn create_entity(&mut self, br: &mut Bitreader, entity_id: i32, serializers: &Vec<Serializer>, projectiles: &mut Vec<i32>)
        -> (r: Result<u32, DemoParserError>)
        requires
            old(br).wf(),
            old(self).entities@.len() <= i32::MAX,
        ensures
            final(br).wf(),
            final(br).data() == old(br).data(),
            final(self).players@ == old(self).players@,
            final(self).teams == old(self).teams,
            final(self).special_ids == old(self).special_ids,
            final(self).tick == old(self).tick,
            match spec_entity_header(old(br).data(), old(br).pos()) {
                Err(e) => r == Err::<u32, DemoParserError>(e) && final(self).entities@ == old(self).entities@
                    && final(self).rules_entity_id == old(self).rules_entity_id
                    && final(self).c4_entity_id == old(self).c4_entity_id && final(projectiles)@ == old(projectiles)@,
                Ok((cls_id, p2)) => {
                    &&& (spec_bit_varint(old(br).data(), p2) matches Ok((u, p3)) ==> final(br).pos() == p3)
                    &&& if (cls_id as usize) >= serializers@.len() {
                        r == Err::<u32, DemoParserError>(DemoParserError::ClassNotFound)
                            && final(self).entities@ == old(self).entities@
                            && final(self).rules_entity_id == old(self).rules_entity_id
                            && final(self).c4_entity_id == old(self).c4_entity_id && final(projectiles)@ == old(projectiles)@
                    } else {
                        let t = entity_type_of(serializers@[cls_id as int].name@);
                        &&& final(projectiles)@ == projectiles_after(old(projectiles)@, t, entity_id)
                        &&& final(self).rules_entity_id == (if t == EntityType::Rules { Some(entity_id) } else { old(self).rules_entity_id })
                        &&& final(self).c4_entity_id == (if t == EntityType::C4 { Some(entity_id) } else { old(self).c4_entity_id })
                        &&& if old(self).entities@.len() <= entity_id && entity_id > MAX_ENTITY_ID {
                            r == Err::<u32, DemoParserError>(DemoParserError::VectorResizeFailure)
                                && final(self).entities@ == old(self).entities@
                        } else if entity_id < 0 {
                            r == Err::<u32, DemoParserError>(DemoParserError::EntityNotFound)
                                && final(self).entities@ == old(self).entities@
                        } else {
                            r == Ok::<u32, DemoParserError>(cls_id)
                                && slots_after(old(self).entities@, final(self).entities@, entity_id, cls_id, t)
                        }
                    }
                },
            },
    {
        let cls_id = br.read_bits_checked(8)?;
        let _serial = br.read_bits_checked(NSERIALBITS)?;
        let _unknown = br.read_varint();
        let entity_type = check_entity_type(serializers.as_slice(), cls_id)?;
        match entity_type {
            EntityType::Projectile => {
                if !contains_id(projectiles, entity_id) {
                    projectiles.push(entity_id);
                }
            },
            EntityType::Rules => self.rules_entity_id = Some(entity_id),
            EntityType::C4 => self.c4_entity_id = Some(entity_id),
            _ => {},
        }
        let len = self.entities.len();
        if (len as i32) <= entity_id {
            if entity_id > MAX_ENTITY_ID {
                return Err(DemoParserError::VectorResizeFailure);
            }
            grow_entities(&mut self.entities, entity_id as usize + 1);
        }
        if entity_id < 0 {
            return Err(DemoParserError::EntityNotFound);
        }
        let entity = Entity { entity_id, cls_id, props: HashMap::new(), entity_type };
        self.entities.set(entity_id as usize, Some(entity));
        Ok(cls_id)
    }
}

} // verus!
