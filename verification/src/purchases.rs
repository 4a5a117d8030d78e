use vstd::prelude::*;
use crate::variants::Variant;
use crate::game_types::{PurchaseEvent, RoundWinReason, name_for, lookup_name};
use crate::props::{ITEM_PURCHASE_DEF_IDX, ENTITY_HANDLE_MISSING};

verus! {

/// A change of the round-end counter: its value before and after.
#[derive(Debug)]
pub struct RoundEnd {
    pub old_value: Option<Variant>,
    pub new_value: Option<Variant>,
}

/// What a tick's entity updates tell the event builders.
#[derive(Debug)]
pub enum GameEventInfo {
    RoundEnd(RoundEnd),
    RoundWinReason(RoundWinReason),
    FreezePeriodStart(bool),
    MatchEnd(),
    WeaponCreateHitem((Variant, i32)),
    WeaponCreateNCost((Variant, i32)),
    WeaponCreateDefIdx((Variant, i32, u32)),
    WeaponPurchaseCount((Variant, i32, u32)),
}

/// The updates that make up purchases: definition index, cost and item
/// handle.
pub open spec fn is_purchase_part(e: GameEventInfo) -> bool {
    e is WeaponCreateDefIdx || e is WeaponCreateNCost || e is WeaponCreateHitem
}

/// The purchase parts of `events`, in order.
pub open spec fn purchase_parts(events: Seq<GameEventInfo>) -> Seq<GameEventInfo>
    decreases events.len(),
{
    if events.len() == 0 {
        Seq::empty()
    } else {
        let rest = purchase_parts(events.drop_last());
        if is_purchase_part(events.last()) { rest.push(events.last()) } else { rest }
    }
}

/// A purchase as a tuple: buyer, cost, item name, weapon entity and
/// inventory slot.
pub open spec fn purchase_view(p: PurchaseEvent) -> (i32, i32, Option<Seq<char>>, i32, u32) {
    (p.entid, p.cost, match p.name { Some(n) => Some(n@), None => None }, p.weapon_entid, p.inventory_slot)
}

/// The purchases that parts `f` make: a definition index (an unsigned
/// number) followed by a cost (a signed one) is a purchase, and so is the
/// item handle that may follow them, whose low eleven bits are the weapon
/// entity; a purchase without a handle has the missing handle. Anything else
/// is passed over.
pub open spec fn purchases_from(f: Seq<GameEventInfo>, names: Seq<(u32, String)>) -> Seq<(i32, i32, Option<Seq<char>>, i32, u32)>
    decreases f.len(),
{
    if f.len() == 0 {
        Seq::empty()
    } else if f.len() >= 2 && (f[0] matches GameEventInfo::WeaponCreateDefIdx((Variant::U32(_), _, _)))
        && (f[1] matches GameEventInfo::WeaponCreateNCost((Variant::I32(_), _))) {
        let (def, entid, prop_id) = match f[0] {
            GameEventInfo::WeaponCreateDefIdx((Variant::U32(d), e, p)) => (d, e, p),
            _ => (0, 0, 0),
        };
        let cost = match f[1] {
            GameEventInfo::WeaponCreateNCost((Variant::I32(c), _)) => c,
            _ => 0,
        };
        let slot = prop_id.wrapping_sub(ITEM_PURCHASE_DEF_IDX);
        if f.len() >= 3 && (f[2] matches GameEventInfo::WeaponCreateHitem((Variant::U64(_), _))) {
            let handle = match f[2] {
                GameEventInfo::WeaponCreateHitem((Variant::U64(h), _)) => h,
                _ => 0,
            };
            seq![(entid, cost, name_for(names, def), (handle & 0x7ff) as i32, slot)] + purchases_from(f.skip(3), names)
        } else {
            seq![(entid, cost, name_for(names, def), ENTITY_HANDLE_MISSING, slot)] + purchases_from(f.skip(2), names)
        }
    } else {
        purchases_from(f.skip(1), names)
    }
}

/// The positions of the purchase parts of `events`.
fn purchase_part_positions(events: &Vec<GameEventInfo>) -> (r: Vec<usize>)
    ensures
        r@.len() == purchase_parts(events@).len(),
        forall|i: int| 0 <= i < r@.len() ==> (#[trigger] r@[i] as int) < events@.len()
            && events@[r@[i] as int] == purchase_parts(events@)[i],
{
    let mut r: Vec<usize> = Vec::new();
    let mut k: usize = 0;
    assert(events@.take(0) =~= Seq::<GameEventInfo>::empty());
    while k < events.len()
        invariant
            k <= events@.len(),
            r@.len() == purchase_parts(events@.take(k as int)).len(),
            forall|i: int| 0 <= i < r@.len() ==> (#[trigger] r@[i] as int) < k
                && events@[r@[i] as int] == purchase_parts(events@.take(k as int))[i],
        decreases events@.len() - k,
    {
        assert(events@.take(k + 1).drop_last() =~= events@.take(k as int));
        assert(events@.take(k + 1).last() == events@[k as int]);
        let part = match &events[k] {
            GameEventInfo::WeaponCreateDefIdx(_) => true,
            GameEventInfo::WeaponCreateNCost(_) => true,
            GameEventInfo::WeaponCreateHitem(_) => true,
            _ => false,
        };
        if part {
            r.push(k);
        }
        k += 1;
    }
    assert(events@.take(events@.len() as int) =~= events@);
    r
}

/// Pairs the purchase parts of a tick into purchases, as `purchases_from`
/// says; the item names come from `names`.
pub fn combine_purchase_events(events: &Vec<GameEventInfo>, names: &Vec<(u32, String)>) -> (r: Vec<PurchaseEvent>)
    ensures
        r@.map_values(|p: PurchaseEvent| purchase_view(p)) == purchases_from(purchase_parts(events@), names@),
{
    let pos = purchase_part_positions(events);
    let ghost f = purchase_parts(events@);
    let mut purchases: Vec<PurchaseEvent> = Vec::new();
    let mut ptr: usize = 0;
    assert(f.skip(0) =~= f);
    assert(purchases@.map_values(|p: PurchaseEvent| purchase_view(p)) =~= Seq::empty());
    while ptr < pos.len()
        invariant
            pos@.len() == f.len(),
            f == purchase_parts(events@),
            forall|i: int| 0 <= i < pos@.len() ==> (#[trigger] pos@[i] as int) < events@.len()
                && events@[pos@[i] as int] == f[i],
            ptr <= pos@.len(),
            purchases_from(f, names@) == purchases@.map_values(|p: PurchaseEvent| purchase_view(p))
                + purchases_from(f.skip(ptr as int), names@),
        decreases pos@.len() - ptr,
    {
        let ghost g = f.skip(ptr as int);
        let ghost before = purchases@.map_values(|p: PurchaseEvent| purchase_view(p));
        assert(g[0] == f[ptr as int]);
        let e1 = &events[pos[ptr]];
        let pair = if ptr + 1 < pos.len() {
            assert(g[1] == f[ptr + 1]);
            match (e1, &events[pos[ptr + 1]]) {
                (GameEventInfo::WeaponCreateDefIdx((Variant::U32(def), entid, prop_id)),
                 GameEventInfo::WeaponCreateNCost((Variant::I32(cost), _))) => Some((*def, *entid, *prop_id, *cost)),
                _ => None,
            }
        } else {
            None
        };
        match pair {
            Some((def, entid, prop_id, cost)) => {
                let handle = if ptr + 2 < pos.len() {
                    assert(g[2] == f[ptr + 2]);
                    match &events[pos[ptr + 2]] {
                        GameEventInfo::WeaponCreateHitem((Variant::U64(h), _)) => Some(*h),
                        _ => None,
                    }
                } else {
                    None
                };
                let name = lookup_name(names, def);
                let slot = prop_id.wrapping_sub(ITEM_PURCHASE_DEF_IDX);
                match handle {
                    Some(h) => {
                        purchases.push(PurchaseEvent { cost, name, entid, weapon_entid: (h & 0x7ff) as i32, inventory_slot: slot });
                        assert(g.skip(3) =~= f.skip(ptr + 3));
                        ptr += 3;
                    },
                    None => {
                        purchases.push(PurchaseEvent { cost, name, entid, weapon_entid: ENTITY_HANDLE_MISSING, inventory_slot: slot });
                        assert(g.skip(2) =~= f.skip(ptr + 2));
                        ptr += 2;
                    },
                }
            },
            None => {
                assert(g.skip(1) =~= f.skip(ptr + 1));
                ptr += 1;
            },
        }
        assert(purchases@.map_values(|p: PurchaseEvent| purchase_view(p)) =~= before + (purchases@.map_values(|p: PurchaseEvent| purchase_view(p))).skip(before.len() as int));
    }
    assert(f.skip(ptr as int) =~= Seq::<GameEventInfo>::empty());
    assert(purchases@.map_values(|p: PurchaseEvent| purchase_view(p)) + Seq::empty() =~= purchases@.map_values(|p: PurchaseEvent| purchase_view(p)));
    purchases
}

/// Whether some update is a round end.
pub fn contains_round_end_event(events: &Vec<GameEventInfo>) -> (r: bool)
    ensures
        r == exists|i: int| 0 <= i < events@.len() && #[trigger] events@[i] is RoundEnd,
{
    let mut i: usize = 0;
    while i < events.len()
        invariant
            i <= events@.len(),
            forall|j: int| 0 <= j < i ==> !(#[trigger] events@[j] is RoundEnd),
        decreases events@.len() - i,
    {
        if let GameEventInfo::RoundEnd(_) = &events[i] {
            return true;
        }
        i += 1;
    }
    false
}

/// Whether some update starts the freeze period.
pub fn contains_freeze_period_start(events: &Vec<GameEventInfo>) -> (r: bool)
    ensures
        r == exists|i: int| 0 <= i < events@.len() && #[trigger] events@[i] is FreezePeriodStart,
{
    let mut i: usize = 0;
    while i < events.len()
        invariant
            i <= events@.len(),
            forall|j: int| 0 <= j < i ==> !(#[trigger] events@[j] is FreezePeriodStart),
        decreases events@.len() - i,
    {
        if let GameEventInfo::FreezePeriodStart(_) = &events[i] {
            return true;
        }
        i += 1;
    }
    false
}

/// Whether some update ends the match.
pub fn contains_match_end(events: &Vec<GameEventInfo>) -> (r: bool)
    ensures
        r == exists|i: int| 0 <= i < events@.len() && #[trigger] events@[i] is MatchEnd,
{
    let mut i: usize = 0;
    while i < events.len()
        invariant
            i <= events@.len(),
            forall|j: int| 0 <= j < i ==> !(#[trigger] events@[j] is MatchEnd),
        decreases events@.len() - i,
    {
        if let GameEventInfo::MatchEnd() = &events[i] {
            return true;
        }
        i += 1;
    }
    false
}

/// Whether some update creates a weapon.
pub fn contains_weapon_create(events: &Vec<GameEventInfo>) -> (r: bool)
    ensures
        r == exists|i: int| 0 <= i < events@.len() && #[trigger] events@[i] is WeaponCreateDefIdx,
{
    let mut i: usize = 0;
    while i < events.len()
        invariant
            i <= events@.len(),
            forall|j: int| 0 <= j < i ==> !(#[trigger] events@[j] is WeaponCreateDefIdx),
        decreases events@.len() - i,
    {
        if let GameEventInfo::WeaponCreateDefIdx(_) = &events[i] {
            return true;
        }
        i += 1;
    }
    false
}

} // verus!
