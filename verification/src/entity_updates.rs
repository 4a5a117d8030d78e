use vstd::prelude::*;
use crate::variants::{Variant, InputHistory, variant_view, clone_variant};

use crate::prop_controller::SpecialIDs;
use crate::sendtables::FieldInfo;
use crate::purchases::{GameEventInfo, RoundEnd};
use crate::game_types::RoundWinReason;
use crate::entity_state::{Entity, EntityState};
use crate::player_meta::option_view;
use crate::props::{ITEM_PURCHASE_COST, ITEM_PURCHASE_HANDLE, ITEM_PURCHASE_COUNT, ITEM_PURCHASE_DEF_IDX, FLATTENED_VEC_MAX_LEN, USERCMD_INPUT_HISTORY_BASEID, USERCMD_LEFTMOVE, USERCMD_FORWARDMOVE, USERCMD_IMPULSE, USERCMD_MOUSE_DX, USERCMD_MOUSE_DY, USERCMD_CONSUMED_SERVER_ANGLE_CHANGES, USERCMD_VIEWANGLE_X, USERCMD_VIEWANGLE_Y, USERCMD_VIEWANGLE_Z, USERCMD_BUTTONSTATE_1, USERCMD_BUTTONSTATE_2, USERCMD_BUTTONSTATE_3};

verus! {

broadcast use vstd::std_specs::hash::group_hash_axioms;

/// `prop_id` is in the block of `len` ids that starts at `base`.
pub open spec fn in_block(prop_id: u32, base: u32) -> bool {
    base <= prop_id && prop_id < base + FLATTENED_VEC_MAX_LEN
}

/// The update of property `prop_id` of `entity` to `result` tells the event
/// builders what its special id or id block says: the round-end counter
/// (with the value before), the round-win reason (an `i32`), the start of
/// the freeze period, the end of the match, and the cost, item handle,
/// purchase count and definition index of purchases.
pub open spec fn extracted(entity: Entity, result: Variant, prop_id: u32, special: SpecialIDs, r: Option<GameEventInfo>) -> bool {
    if special.round_end_count == Some(prop_id) {
        r matches Some(GameEventInfo::RoundEnd(re))
            && option_view(re.old_value) == option_view(if entity.props@.contains_key(prop_id) { Some(entity.props@[prop_id]) } else { None })
            && option_view(re.new_value) == Some(variant_view(result))
    } else if special.round_win_reason == Some(prop_id) {
        match result {
            Variant::I32(x) => r == Some(GameEventInfo::RoundWinReason(RoundWinReason { reason: x })),
            _ => r is None,
        }
    } else if special.round_start_count == Some(prop_id) {
        r == Some(GameEventInfo::FreezePeriodStart(true))
    } else if special.match_end_count == Some(prop_id) {
        r == Some(GameEventInfo::MatchEnd())
    } else if in_block(prop_id, ITEM_PURCHASE_COST) {
        r matches Some(GameEventInfo::WeaponCreateNCost((v, e))) && variant_view(v) == variant_view(result) && e == entity.entity_id
    } else if in_block(prop_id, ITEM_PURCHASE_HANDLE) {
        r matches Some(GameEventInfo::WeaponCreateHitem((v, e))) && variant_view(v) == variant_view(result) && e == entity.entity_id
    } else if in_block(prop_id, ITEM_PURCHASE_COUNT) {
        r matches Some(GameEventInfo::WeaponPurchaseCount((v, e, p))) && variant_view(v) == variant_view(result)
            && e == entity.entity_id && p == prop_id
    } else if in_block(prop_id, ITEM_PURCHASE_DEF_IDX) {
        r matches Some(GameEventInfo::WeaponCreateDefIdx((v, e, p))) && variant_view(v) == variant_view(result)
            && e == entity.entity_id && p == prop_id
    } else {
        r is None
    }
}

/// What the update of property `prop_id` of `entity` to `result` tells the
/// event builders, as `extracted` says.
pub fn extract_event(entity: &Entity, result: &Variant, prop_id: u32, special: &SpecialIDs) -> (r: Option<GameEventInfo>)
    ensures
        extracted(*entity, *result, prop_id, *special, r),
{
    if special.round_end_count == Some(prop_id) {
        let old_value = match entity.props.get(&prop_id) {
            Some(v) => Some(clone_variant(v)),
            None => None,
        };
        return Some(GameEventInfo::RoundEnd(RoundEnd { old_value, new_value: Some(clone_variant(result)) }));
    }
    if special.round_win_reason == Some(prop_id) {
        return match result {
            Variant::I32(reason) => Some(GameEventInfo::RoundWinReason(RoundWinReason { reason: *reason })),
            _ => None,
        };
    }
    if special.round_start_count == Some(prop_id) {
        return Some(GameEventInfo::FreezePeriodStart(true));
    }
    if special.match_end_count == Some(prop_id) {
        return Some(GameEventInfo::MatchEnd());
    }
    if ITEM_PURCHASE_COST <= prop_id && prop_id < ITEM_PURCHASE_COST + FLATTENED_VEC_MAX_LEN {
        return Some(GameEventInfo::WeaponCreateNCost((clone_variant(result), entity.entity_id)));
    }
    if ITEM_PURCHASE_HANDLE <= prop_id && prop_id < ITEM_PURCHASE_HANDLE + FLATTENED_VEC_MAX_LEN {
        return Some(GameEventInfo::WeaponCreateHitem((clone_variant(result), entity.entity_id)));
    }
    if ITEM_PURCHASE_COUNT <= prop_id && prop_id < ITEM_PURCHASE_COUNT + FLATTENED_VEC_MAX_LEN {
        return Some(GameEventInfo::WeaponPurchaseCount((clone_variant(result), entity.entity_id, prop_id)));
    }
    if ITEM_PURCHASE_DEF_IDX <= prop_id && prop_id < ITEM_PURCHASE_DEF_IDX + FLATTENED_VEC_MAX_LEN {
        return Some(GameEventInfo::WeaponCreateDefIdx((clone_variant(result), entity.entity_id, prop_id)));
    }
    None
}

/// Stores a decoded value in its entity, where the field is one that is
/// kept.
pub fn insert_field(entity: &mut Entity, result: Variant, field_info: &FieldInfo)
    ensures
        final(entity).cls_id == old(entity).cls_id,
        final(entity).entity_id == old(entity).entity_id,
        final(entity).entity_type == old(entity).entity_type,
        final(entity).props@ == if field_info.should_parse {
            old(entity).props@.insert(field_info.prop_id, result)
        } else {
            old(entity).props@
        },
{
    if field_info.should_parse {
        entity.props.insert(field_info.prop_id, result);
    }
}

/// The view angles of a user command; each holds the bits of an `f32`.
#[derive(Debug)]
pub struct ViewAngles {
    pub x: Option<u32>,
    pub y: Option<u32>,
    pub z: Option<u32>,
}

/// One entry of a user command's input history; fractions hold the bits
/// of an `f32`.
#[derive(Debug)]
pub struct InputHistoryEntry {
    pub render_tick_count: Option<i32>,
    pub render_tick_fraction: Option<u32>,
    pub player_tick_count: Option<i32>,
    pub player_tick_fraction: Option<u32>,
    pub view_angles: Option<ViewAngles>,
}

/// The button state of a user command.
#[derive(Debug)]
pub struct ButtonState {
    pub buttonstate1: Option<u64>,
    pub buttonstate2: Option<u64>,
    pub buttonstate3: Option<u64>,
}

/// The base of a user command; `leftmove` and `forwardmove` hold the bits
/// of an `f32`.
#[derive(Debug)]
pub struct BaseUserCmd {
    pub pawn_entity_handle: Option<u32>,
    pub leftmove: Option<u32>,
    pub forwardmove: Option<u32>,
    pub impulse: Option<i32>,
    pub mousedx: Option<i32>,
    pub mousedy: Option<i32>,
    pub consumed_server_angle_changes: Option<u32>,
    pub viewangles: Option<ViewAngles>,
    pub buttons_pb: Option<ButtonState>,
}

/// A user command: its base, where it has one, and its input history.
#[derive(Debug)]
pub struct UserCmd {
    pub base: Option<BaseUserCmd>,
    pub input_history: Vec<InputHistoryEntry>,
}

/// A value that may be missing, missing read as 0.
pub open spec fn or_zero_u32(v: Option<u32>) -> u32 {
    match v { Some(x) => x, None => 0 }
}

/// A value that may be missing, missing read as 0.
pub open spec fn or_zero_i32(v: Option<i32>) -> i32 {
    match v { Some(x) => x, None => 0 }
}

/// A value that may be missing, missing read as 0.
pub open spec fn or_zero_u64(v: Option<u64>) -> u64 {
    match v { Some(x) => x, None => 0 }
}

/// An entry of the input history as it is stored.
pub open spec fn history_item(e: InputHistoryEntry) -> InputHistory {
    InputHistory {
        x: match e.view_angles { Some(v) => v.x, None => None },
        y: match e.view_angles { Some(v) => v.y, None => None },
        z: match e.view_angles { Some(v) => v.z, None => None },
        render_tick_count: or_zero_i32(e.render_tick_count),
        render_tick_fraction: or_zero_u32(e.render_tick_fraction),
        player_tick_count: or_zero_i32(e.player_tick_count),
        player_tick_fraction: or_zero_u32(e.player_tick_fraction),
    }
}

/// The properties of an entity as mathematical values.
pub open spec fn props_view(m: Map<u32, Variant>) -> Map<u32, (crate::variants::VarKind, crate::variants::Cell, bool, bool)> {
    m.map_values(|v: Variant| variant_view(v))
}

/// The properties after user command `c` with base `b`: its input history,
/// movement, impulse, mouse movement and angle changes, then its view
/// angles and buttons where it has them.
pub open spec fn cmd_props(m: Map<u32, (crate::variants::VarKind, crate::variants::Cell, bool, bool)>, b: BaseUserCmd, hist: Seq<InputHistoryEntry>)
    -> Map<u32, (crate::variants::VarKind, crate::variants::Cell, bool, bool)>
{
    let m1 = m.insert(USERCMD_INPUT_HISTORY_BASEID, (crate::variants::VarKind::InputHistory,
            crate::variants::Cell::Inputs(hist.map_values(|e: InputHistoryEntry| history_item(e))), false, false))
        .insert(USERCMD_LEFTMOVE, variant_view(Variant::F32(or_zero_u32(b.leftmove))))
        .insert(USERCMD_FORWARDMOVE, variant_view(Variant::F32(or_zero_u32(b.forwardmove))))
        .insert(USERCMD_IMPULSE, variant_view(Variant::I32(or_zero_i32(b.impulse))))
        .insert(USERCMD_MOUSE_DX, variant_view(Variant::I32(or_zero_i32(b.mousedx))))
        .insert(USERCMD_MOUSE_DY, variant_view(Variant::I32(or_zero_i32(b.mousedy))))
        .insert(USERCMD_CONSUMED_SERVER_ANGLE_CHANGES, variant_view(Variant::U32(or_zero_u32(b.consumed_server_angle_changes))));
    let m2 = match b.viewangles {
        Some(v) => m1.insert(USERCMD_VIEWANGLE_X, variant_view(Variant::F32(or_zero_u32(v.x))))
            .insert(USERCMD_VIEWANGLE_Y, variant_view(Variant::F32(or_zero_u32(v.y))))
            .insert(USERCMD_VIEWANGLE_Z, variant_view(Variant::F32(or_zero_u32(v.z)))),
        None => m1,
    };
    match b.buttons_pb {
        Some(p) => m2.insert(USERCMD_BUTTONSTATE_1, variant_view(Variant::U64(or_zero_u64(p.buttonstate1))))
            .insert(USERCMD_BUTTONSTATE_2, variant_view(Variant::U64(or_zero_u64(p.buttonstate2))))
            .insert(USERCMD_BUTTONSTATE_3, variant_view(Variant::U64(or_zero_u64(p.buttonstate3)))),
        None => m2,
    }
}

/// The entity a user command is for: the low eleven bits of its pawn
/// handle (0 where it has none).
pub open spec fn cmd_entity(b: BaseUserCmd) -> int {
    (or_zero_u32(b.pawn_entity_handle) & 0x7ff) as int
}

/// The commands up to the first that could not be read.
pub open spec fn readable_prefix(cmds: Seq<Option<UserCmd>>) -> Seq<Option<UserCmd>>
    decreases cmds.len(),
{
    if cmds.len() == 0 {
        cmds
    } else if cmds[0] is None {
        Seq::empty()
    } else {
        seq![cmds[0]] + readable_prefix(cmds.drop_first())
    }
}

/// The properties of entity `i` after the commands `cmds` (all readable).
pub open spec fn props_after_cmds(
    m: Map<u32, (crate::variants::VarKind, crate::variants::Cell, bool, bool)>,
    cmds: Seq<Option<UserCmd>>,
    i: int,
) -> Map<u32, (crate::variants::VarKind, crate::variants::Cell, bool, bool)>
    decreases cmds.len(),
{
    if cmds.len() == 0 {
        m
    } else {
        let prev = props_after_cmds(m, cmds.drop_last(), i);
        match cmds.last() {
            Some(c) => match c.base {
                Some(b) => if cmd_entity(b) == i { cmd_props(prev, b, c.input_history@) } else { prev },
                None => prev,
            },
            None => prev,
        }
    }
}

/// The input history of a user command as it is stored.
fn history_of(entries: &Vec<InputHistoryEntry>) -> (r: Vec<InputHistory>)
    ensures
        r@ == entries@.map_values(|e: InputHistoryEntry| history_item(e)),
{
    let mut out: Vec<InputHistory> = Vec::new();
    let mut i: usize = 0;
    while i < entries.len()
        invariant
            i <= entries@.len(),
            out@ == entries@.take(i as int).map_values(|e: InputHistoryEntry| history_item(e)),
        decreases entries@.len() - i,
    {
        let e = &entries[i];
        let (x, y, z) = match &e.view_angles {
            Some(v) => (v.x, v.y, v.z),
            None => (None, None, None),
        };
        out.push(InputHistory {
            x,
            y,
            z,
            render_tick_count: match e.render_tick_count { Some(v) => v, None => 0 },
            render_tick_fraction: match e.render_tick_fraction { Some(v) => v, None => 0 },
            player_tick_count: match e.player_tick_count { Some(v) => v, None => 0 },
            player_tick_fraction: match e.player_tick_fraction { Some(v) => v, None => 0 },
        });
        assert(out@ =~= entries@.take(i + 1).map_values(|e: InputHistoryEntry| history_item(e)));
        i += 1;
    }
    assert(entries@.take(entries@.len() as int) =~= entries@);
    out
}

/// Stores the values of user command base `b` and history `hist` in an
/// entity's properties, as `cmd_props` says.
fn apply_cmd(props: &mut std::collections::HashMap<u32, Variant>, b: &BaseUserCmd, hist: &Vec<InputHistoryEntry>)
    ensures
        props_view(final(props)@) == cmd_props(props_view(old(props)@), *b, hist@),
{
    let ghost m0 = props@;
    props.insert(USERCMD_INPUT_HISTORY_BASEID, Variant::InputHistory(history_of(hist)));
    props.insert(USERCMD_LEFTMOVE, Variant::F32(match b.leftmove { Some(v) => v, None => 0 }));
    props.insert(USERCMD_FORWARDMOVE, Variant::F32(match b.forwardmove { Some(v) => v, None => 0 }));
    props.insert(USERCMD_IMPULSE, Variant::I32(match b.impulse { Some(v) => v, None => 0 }));
    props.insert(USERCMD_MOUSE_DX, Variant::I32(match b.mousedx { Some(v) => v, None => 0 }));
    props.insert(USERCMD_MOUSE_DY, Variant::I32(match b.mousedy { Some(v) => v, None => 0 }));
    props.insert(USERCMD_CONSUMED_SERVER_ANGLE_CHANGES, Variant::U32(match b.consumed_server_angle_changes { Some(v) => v, None => 0 }));
    if let Some(v) = &b.viewangles {
        props.insert(USERCMD_VIEWANGLE_X, Variant::F32(match v.x { Some(a) => a, None => 0 }));
        props.insert(USERCMD_VIEWANGLE_Y, Variant::F32(match v.y { Some(a) => a, None => 0 }));
        props.insert(USERCMD_VIEWANGLE_Z, Variant::F32(match v.z { Some(a) => a, None => 0 }));
    }
    if let Some(p) = &b.buttons_pb {
        props.insert(USERCMD_BUTTONSTATE_1, Variant::U64(match p.buttonstate1 { Some(a) => a, None => 0 }));
        props.insert(USERCMD_BUTTONSTATE_2, Variant::U64(match p.buttonstate2 { Some(a) => a, None => 0 }));
        props.insert(USERCMD_BUTTONSTATE_3, Variant::U64(match p.buttonstate3 { Some(a) => a, None => 0 }));
    }
    assert(props_view(props@) =~= cmd_props(props_view(m0), *b, hist@));
}

/// The readable commands of `cmds` are its first `k`, where those are all
/// readable and the next is not or there is none.
proof fn lemma_readable_prefix(cmds: Seq<Option<UserCmd>>, k: int)
    requires
        0 <= k <= cmds.len(),
        forall|j: int| 0 <= j < k ==> #[trigger] cmds[j] is Some,
        k == cmds.len() || cmds[k] is None,
    ensures
        readable_prefix(cmds) == cmds.take(k),
    decreases cmds.len(),
{
    if cmds.len() == 0 {
        assert(cmds.take(k) =~= cmds);
    } else if k == 0 {
        assert(cmds.take(0) =~= Seq::<Option<UserCmd>>::empty());
    } else {
        assert forall|j: int| 0 <= j < k - 1 implies #[trigger] cmds.drop_first()[j] is Some by {
            assert(cmds.drop_first()[j] == cmds[j + 1]);
        }
        lemma_readable_prefix(cmds.drop_first(), k - 1);
        assert(cmds[0] is Some);
        assert(seq![cmds[0]] + cmds.drop_first().take(k - 1) =~= cmds.take(k));
    }
}

/// Entity `i` of `before` after the readable commands `cmds`.
pub open spec fn entity_after_cmds(before: Option<Entity>, after: Option<Entity>, cmds: Seq<Option<UserCmd>>, i: int) -> bool {
    match before {
        None => after is None,
        Some(e) => after matches Some(f) && f.cls_id == e.cls_id && f.entity_id == e.entity_id
            && f.entity_type == e.entity_type && props_view(f.props@) == props_after_cmds(props_view(e.props@), cmds, i),
    }
}

impl EntityState {
    /// Stores the values of the user commands in the entities of their
    /// pawns, up to the first command that could not be read (`None`).
    pub fn parse_user_cmd(&mut self, cmds: &Vec<Option<UserCmd>>) -> (r: Result<(), crate::error::DemoParserError>)
        ensures
            r is Ok,
            final(self).players == old(self).players,
            final(self).teams == old(self).teams,
            final(self).special_ids == old(self).special_ids,
            final(self).rules_entity_id == old(self).rules_entity_id,
            final(self).c4_entity_id == old(self).c4_entity_id,
            final(self).tick == old(self).tick,
            final(self).entities@.len() == old(self).entities@.len(),
            forall|i: int| 0 <= i < old(self).entities@.len() ==> entity_after_cmds(old(self).entities@[i],
                #[trigger] final(self).entities@[i], readable_prefix(cmds@), i),
    {
        let ghost e0 = self.entities@;
        let mut k: usize = 0;
        assert forall|i: int| 0 <= i < e0.len() implies entity_after_cmds(e0[i], #[trigger] self.entities@[i], cmds@.take(0), i) by {
            if e0[i] is Some {
                assert(props_after_cmds(props_view(e0[i]->Some_0.props@), cmds@.take(0), i) == props_view(e0[i]->Some_0.props@));
            }
        }
        while k < cmds.len()
            invariant_except_break
                k <= cmds@.len(),
                forall|j: int| 0 <= j < k ==> #[trigger] cmds@[j] is Some,
                self.entities@.len() == e0.len(),
                self.players == old(self).players,
                self.teams == old(self).teams,
                self.special_ids == old(self).special_ids,
                self.rules_entity_id == old(self).rules_entity_id,
                self.c4_entity_id == old(self).c4_entity_id,
                self.tick == old(self).tick,
                forall|i: int| 0 <= i < e0.len() ==> entity_after_cmds(e0[i], #[trigger] self.entities@[i], cmds@.take(k as int), i),
            ensures
                k <= cmds@.len(),
                forall|j: int| 0 <= j < k ==> #[trigger] cmds@[j] is Some,
                k == cmds@.len() || cmds@[k as int] is None,
                self.entities@.len() == e0.len(),
                self.players == old(self).players,
                self.teams == old(self).teams,
                self.special_ids == old(self).special_ids,
                self.rules_entity_id == old(self).rules_entity_id,
                self.c4_entity_id == old(self).c4_entity_id,
                self.tick == old(self).tick,
                forall|i: int| 0 <= i < e0.len() ==> entity_after_cmds(e0[i], #[trigger] self.entities@[i], cmds@.take(k as int), i),
            decreases cmds@.len() - k,
        {
            let c = match &cmds[k] {
                Some(c) => c,
                None => break,
            };
            let ghost before = self.entities@;
            assert(cmds@.take(k + 1).drop_last() =~= cmds@.take(k as int));
            assert(cmds@.take(k + 1).last() == cmds@[k as int]);
            if let Some(b) = &c.base {
                let h = match b.pawn_entity_handle {
                    Some(h) => h,
                    None => 0,
                };
                let idx = (h & 0x7ffu32) as usize;
                if idx < self.entities.len() {
                    let mut slot: Option<Entity> = None;
                    std::mem::swap(&mut slot, &mut self.entities[idx]);
                    if let Some(mut ent) = slot {
                        apply_cmd(&mut ent.props, b, &c.input_history);
                        self.entities.set(idx, Some(ent));
                    }
                    proof {
                        assert forall|i: int| 0 <= i < e0.len() implies entity_after_cmds(e0[i], #[trigger] self.entities@[i],
                            cmds@.take(k + 1), i) by {
                            if i != idx {
                                assert(self.entities@[i] == before[i]);
                            }
                        }
                    }
                }
            }
            k += 1;
        }
        proof {
            lemma_readable_prefix(cmds@, k as int);
        }
        Ok(())
    }
}

} // verus!
