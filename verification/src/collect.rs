use vstd::prelude::*;
use crate::variants::{Variant, VarKind, Cell, strings_view, variant_view};
use crate::game_types::{PlayerMetaData, PropCollectionError, name_for, lookup_name};
use crate::prop_controller::{PropInfo, PropType};
use crate::player_info::UserInfo;
use crate::entity_state::mask_steamids;
use crate::entity_state::{EntityState, same_outcome, ok_of, last_with_id};
use crate::game_types::EventField;
use crate::event_fields::{event_player_prop, is_default_field_name, n_event_props};
use crate::player_meta::option_view;
use crate::custom_events::{reason_text, reason_string};

use crate::props::{MY_WEAPONS_OFFSET, GRENADE_AMMO_ID, WEAPON_FLOAT, USERCMD_INPUT_HISTORY_BASEID};
use crate::strings::{str_eq, concat_str, decimal, u64_to_decimal};

verus! {

/// The value of the airborne flag that means the player is in the air.
pub const IS_AIRBORNE_CONST: u32 = 0xFFFFFF;

/// The tables that property values are named by: weapons by definition
/// index, agents by id, teammate colours by number, and buttons by name
/// with their bit in the button mask.
#[derive(Debug)]
pub struct NameTables {
    pub weapon_names: Vec<(u32, String)>,
    pub agents: Vec<(u32, String)>,
    pub player_colors: Vec<(i32, String)>,
    pub buttons: Vec<(String, u64)>,
}

/// The bit that table `buttons` gives button `name`: the first entry.
pub open spec fn button_bit(buttons: Seq<(String, u64)>, name: Seq<char>) -> Option<u64>
    decreases buttons.len(),
{
    if buttons.len() == 0 {
        None
    } else if buttons[0].0@ == name {
        Some(buttons[0].1)
    } else {
        button_bit(buttons.drop_first(), name)
    }
}

/// The bit of button `name`.
fn lookup_button(buttons: &Vec<(String, u64)>, name: &str) -> (r: Option<u64>)
    ensures
        r == button_bit(buttons@, name@),
{
    let mut i: usize = 0;
    assert(buttons@.skip(0) =~= buttons@);
    while i < buttons.len()
        invariant
            i <= buttons@.len(),
            button_bit(buttons@, name@) == button_bit(buttons@.skip(i as int), name@),
        decreases buttons@.len() - i,
    {
        assert(buttons@.skip(i as int)[0] == buttons@[i as int]);
        if str_eq(buttons[i].0.as_str(), name) {
            return Some(buttons[i].1);
        }
        assert(buttons@.skip(i as int).drop_first() =~= buttons@.skip(i + 1));
        i += 1;
    }
    None
}

/// The entity an inventory slot of entity `entity_id` points at: the low
/// fourteen bits of its handle.
pub open spec fn slot_entity(s: EntityState, entity_id: i32, i: u32) -> Option<i32> {
    match s.prop(MY_WEAPONS_OFFSET.wrapping_add(i), entity_id) {
        Ok(Variant::U32(x)) => Some((x & 0x3fff) as i32),
        _ => None,
    }
}

/// What an item with definition value `prop` adds to the inventory of
/// `player`: its name, twice for a second flashbang, and the bomb only where
/// the player carries it; nothing for an unknown item.
pub open spec fn item_names(s: EntityState, player: i32, prop: Variant, names: Seq<(u32, String)>) -> Seq<Seq<char>> {
    match prop {
        Variant::U32(def) => match name_for(names, def) {
            Some(n) => if n == "flashbang"@ {
                if s.prop(GRENADE_AMMO_ID, player) matches Ok(Variant::U32(c)) && c == 2 { seq![n, n] } else { seq![n] }
            } else if n == "c4"@ {
                if s.c4_owner() == Some(player) { seq![n] } else { Seq::empty() }
            } else {
                seq![n]
            },
            None => Seq::empty(),
        },
        _ => Seq::empty(),
    }
}

/// The same as `item_names`, by definition index.
pub open spec fn item_ids(s: EntityState, player: i32, prop: Variant, names: Seq<(u32, String)>) -> Seq<u32> {
    match prop {
        Variant::U32(def) => match name_for(names, def) {
            Some(n) => if n == "flashbang"@ {
                if s.prop(GRENADE_AMMO_ID, player) matches Ok(Variant::U32(c)) && c == 2 { seq![def, def] } else { seq![def] }
            } else if n == "c4"@ {
                if s.c4_owner() == Some(player) { seq![def] } else { Seq::empty() }
            } else {
                seq![def]
            },
            None => Seq::empty(),
        },
        _ => Seq::empty(),
    }
}

/// The inventory of entity `entity_id` from its slots `1..=k`: each item
/// entity once, in slot order, as names and as definition indexes; and the
/// item entities met.
pub open spec fn inventory_upto(s: EntityState, entity_id: i32, names: Seq<(u32, String)>, k: nat)
    -> (Seq<Seq<char>>, Seq<u32>, Seq<i32>)
    decreases k,
{
    if k == 0 {
        (Seq::empty(), Seq::empty(), Seq::empty())
    } else {
        let prev = inventory_upto(s, entity_id, names, (k - 1) as nat);
        match slot_entity(s, entity_id, k as u32) {
            None => prev,
            Some(eid) => if prev.2.contains(eid) {
                prev
            } else {
                let seen = prev.2.push(eid);
                match s.special_ids.item_def {
                    None => (prev.0, prev.1, seen),
                    Some(d) => match s.prop(d, eid) {
                        Ok(prop) => (prev.0 + item_names(s, entity_id, prop, names), prev.1 + item_ids(s, entity_id, prop, names), seen),
                        Err(_) => (prev.0, prev.1, seen),
                    },
                }
            },
        }
    }
}

/// The number of inventory slots entity `entity_id` has.
pub open spec fn inventory_size(s: EntityState, entity_id: i32) -> Option<u32> {
    match s.prop(MY_WEAPONS_OFFSET, entity_id) {
        Ok(Variant::U32(n)) => Some(n),
        _ => None,
    }
}

/// The color a teammate color number stands for: its name, or the number.
pub open spec fn color_text(colors: Seq<(i32, String)>, v: i32) -> Seq<char> {
    reason_text(colors, v)
}

/// Values that agree are the same number where one is a `U32`.
proof fn lemma_same_u32(a: Variant, b: Variant)
    requires
        variant_view(a) == variant_view(b),
    ensures
        (a is U32) == (b is U32),
        a is U32 ==> a == b,
{
}

/// Whether `v` holds `x`.
fn contains_i32(v: &Vec<i32>, x: i32) -> (r: bool)
    ensures
        r == v@.contains(x),
{
    let mut i: usize = 0;
    while i < v.len()
        invariant
            i <= v@.len(),
            forall|j: int| 0 <= j < i ==> v@[j] != x,
        decreases v@.len() - i,
    {
        if v[i] == x {
            assert(v@[i as int] == x);
            return true;
        }
        i += 1;
    }
    false
}

/// A value as a mathematical value.
pub type VarView = (VarKind, Cell, bool, bool);

/// An outcome as a mathematical value.
pub open spec fn outcome_view(r: Result<Variant, PropCollectionError>) -> Result<VarView, PropCollectionError> {
    match r {
        Ok(v) => Ok(variant_view(v)),
        Err(e) => Err(e),
    }
}

/// A text as an outcome.
pub open spec fn text_out(t: Seq<char>) -> Result<VarView, PropCollectionError> {
    Ok((VarKind::String, Cell::Str(t), false, false))
}

/// An error as an outcome.
pub open spec fn err_out(e: PropCollectionError) -> Result<VarView, PropCollectionError> {
    Err(e)
}

/// The kinds of property that work on floating-point values and are worked
/// out outside the library: a player's coordinates and speed, the skin,
/// skin id, paint seed and stickers of its weapon, and the game time.
#[derive(Debug, Clone, Copy, PartialEq, Eq, Structural)]
pub enum FloatProp {
    X,
    Y,
    Z,
    Velocity,
    VelocityX,
    VelocityY,
    VelocityZ,
    WeaponSkin,
    WeaponSkinId,
    WeaponPaintSeed,
    WeaponStickers,
    GameTime,
}

/// The floating-point kind of a custom property, by name.
pub open spec fn float_custom(name: Seq<char>) -> Option<FloatProp> {
    if name == "X"@ { Some(FloatProp::X) }
    else if name == "Y"@ { Some(FloatProp::Y) }
    else if name == "Z"@ { Some(FloatProp::Z) }
    else if name == "velocity"@ { Some(FloatProp::Velocity) }
    else if name == "velocity_X"@ { Some(FloatProp::VelocityX) }
    else if name == "velocity_Y"@ { Some(FloatProp::VelocityY) }
    else if name == "velocity_Z"@ { Some(FloatProp::VelocityZ) }
    else if name == "weapon_skin"@ { Some(FloatProp::WeaponSkin) }
    else if name == "weapon_skin_id"@ { Some(FloatProp::WeaponSkinId) }
    else if name == "weapon_paint_seed"@ { Some(FloatProp::WeaponPaintSeed) }
    else if name == "weapon_stickers"@ { Some(FloatProp::WeaponStickers) }
    else { None }
}

/// The floating-point kind of a property, if it has one.
pub open spec fn float_kind(info: PropInfo) -> Option<FloatProp> {
    match info.prop_type {
        PropType::GameTime => Some(FloatProp::GameTime),
        PropType::Custom => float_custom(info.prop_name@),
        _ => None,
    }
}

/// The first user with steam id `steamid`.
pub open spec fn user_with_steamid(users: Seq<UserInfo>, steamid: u64) -> Option<i32>
    decreases users.len(),
{
    if users.len() == 0 {
        None
    } else if users[0].steamid == steamid {
        Some(users[0].userid)
    } else {
        user_with_steamid(users.drop_first(), steamid)
    }
}

/// The user id of a player, by its steam id among `users`.
pub open spec fn userid_out(users: Seq<UserInfo>, player: PlayerMetaData) -> Result<VarView, PropCollectionError> {
    match player.steamid {
        Some(id) => match user_with_steamid(users, id) {
            Some(u) => Ok(variant_view(Variant::I32(u))),
            None => err_out(PropCollectionError::UseridNotFound),
        },
        None => err_out(PropCollectionError::UseridNotFound),
    }
}

/// The value of a custom property that does not work on floating-point
/// values, by its name.
pub open spec fn custom_out(s: EntityState, info: PropInfo, e: i32, player: PlayerMetaData, lk: PropLookups) -> Result<VarView, PropCollectionError> {
    let name = info.prop_name@;
    if name == "pitch"@ {
        pitch_yaw_out(s, e, 0)
    } else if name == "yaw"@ {
        pitch_yaw_out(s, e, 1)
    } else if name == "weapon_name"@ {
        weapon_name_out(s, e, lk.tables.weapon_names@)
    } else if name == "weapon_float"@ {
        match player.player_entity_id {
            None => err_out(PropCollectionError::PlayerNotFound),
            Some(p) => outcome_view(s.weapon_prop(WEAPON_FLOAT, p)),
        }
    } else if name == "active_weapon_original_owner"@ {
        original_owner_out(s, e)
    } else if name == "inventory"@ {
        if !s.is_alive(e) {
            Ok((VarKind::StringVec, Cell::Strs(Seq::empty()), false, false))
        } else {
            match inventory_size(s, e) {
                None => err_out(PropCollectionError::InventoryMaxNotFound),
                Some(n) => Ok((VarKind::StringVec, Cell::Strs(inventory_upto(s, e, lk.tables.weapon_names@, n as nat).0), false, false)),
            }
        }
    } else if name == "inventory_as_ids"@ {
        if !s.is_alive(e) {
            Ok((VarKind::U32Vec, Cell::U32s(Seq::empty()), false, false))
        } else {
            match inventory_size(s, e) {
                None => err_out(PropCollectionError::InventoryMaxNotFound),
                Some(n) => Ok((VarKind::U32Vec, Cell::U32s(inventory_upto(s, e, lk.tables.weapon_names@, n as nat).1), false, false)),
            }
        }
    } else if name == "CCSPlayerPawn.m_bSpottedByMask"@ {
        match s.prop(info.id, e) {
            Err(x) => err_out(x),
            Ok(Variant::U32(mask)) => Ok((VarKind::U64Vec, Cell::U64s(mask_steamids(s.players@, mask, 16)), false, false)),
            Ok(_) => err_out(PropCollectionError::SpottedIncorrectVariant),
        }
    } else if name == "entity_id"@ {
        Ok(variant_view(Variant::I32(e)))
    } else if name == "is_alive"@ {
        Ok(variant_view(Variant::Bool(s.is_alive(e))))
    } else if name == "user_id"@ {
        userid_out(lk.users@, player)
    } else if name == "is_airborne"@ {
        Ok(variant_view(Variant::Bool(match player.player_entity_id {
            Some(p) => s.prop_opt(s.special_ids.is_airborne, p) matches Some(Variant::U32(v)) && v == IS_AIRBORNE_CONST,
            None => false,
        })))
    } else if name == "agent_skin"@ {
        agent_out(s, player, lk.tables.agents@)
    } else if name == "CCSPlayerController.m_iCompTeammateColor"@ {
        match player.controller_entid {
            Some(c) => match s.prop(info.id, c) {
                Ok(Variant::I32(v)) => text_out(color_text(lk.tables.player_colors@, v)),
                _ => err_out(PropCollectionError::UseridNotFound),
            },
            None => err_out(PropCollectionError::UseridNotFound),
        }
    } else if name == "usercmd_input_history"@ {
        outcome_view(s.prop(USERCMD_INPUT_HISTORY_BASEID, e))
    } else {
        err_out(PropCollectionError::UnknownCustomPropName)
    }
}

/// Component `idx` of the eye angles of entity `e`.
pub open spec fn pitch_yaw_out(s: EntityState, e: i32, idx: int) -> Result<VarView, PropCollectionError> {
    match s.special_ids.eye_angles {
        None => err_out(PropCollectionError::SpecialidsEyeAnglesNotSet),
        Some(a) => match s.prop(a, e) {
            Err(x) => err_out(x),
            Ok(Variant::XYZVec(v)) => Ok(variant_view(Variant::F32(v[idx]))),
            Ok(_) => err_out(PropCollectionError::EyeAnglesWrongVariant),
        },
    }
}

/// The name of the weapon entity `e` holds.
pub open spec fn weapon_name_out(s: EntityState, e: i32, names: Seq<(u32, String)>) -> Result<VarView, PropCollectionError> {
    match s.special_ids.item_def {
        None => err_out(PropCollectionError::SpecialidsItemDefNotSet),
        Some(d) => match s.weapon_prop(d, e) {
            Err(x) => err_out(x),
            Ok(Variant::U32(k)) => match name_for(names, k) {
                Some(n) => text_out(n),
                None => err_out(PropCollectionError::WeaponIdxMappingNotFound),
            },
            Ok(_) => err_out(PropCollectionError::WeaponDefVariantWrongType),
        },
    }
}

/// The first owner's steam id of the weapon entity `e` holds, in decimal.
pub open spec fn original_owner_out(s: EntityState, e: i32) -> Result<VarView, PropCollectionError> {
    match (s.special_ids.orig_own_low, s.special_ids.orig_own_high) {
        (None, _) => err_out(PropCollectionError::OriginalOwnerXuidIdLowNotSet),
        (Some(_), None) => err_out(PropCollectionError::OriginalOwnerXuidIdHighNotSet),
        (Some(lo), Some(hi)) => match s.weapon_prop(lo, e) {
            Err(_) => err_out(PropCollectionError::OriginalOwnerXuidLowNotFound),
            Ok(Variant::U32(l)) => match s.weapon_prop(hi, e) {
                Err(_) => err_out(PropCollectionError::OriginalOwnerXuidHighNotFound),
                Ok(Variant::U32(h)) => text_out(decimal(h as nat * 0x1_0000_0000 + l as nat)),
                Ok(_) => err_out(PropCollectionError::OriginalOwnerXuidHighIncorrectVariant),
            },
            Ok(_) => err_out(PropCollectionError::OriginalOwnerXuidlowIncorrectVariant),
        },
    }
}

/// The agent a player's controller wears.
pub open spec fn agent_out(s: EntityState, player: PlayerMetaData, agents: Seq<(u32, String)>) -> Result<VarView, PropCollectionError> {
    match s.special_ids.agent_skin_idx {
        None => err_out(PropCollectionError::AgentSpecialIdNotSet),
        Some(a) => match player.controller_entid {
            None => err_out(PropCollectionError::AgentPropNotFound),
            Some(c) => match s.prop(a, c) {
                Err(_) => err_out(PropCollectionError::AgentPropNotFound),
                Ok(Variant::U32(id)) => match name_for(agents, id) {
                    Some(n) => text_out(n),
                    None => err_out(PropCollectionError::AgentIdNotFound),
                },
                Ok(_) => err_out(PropCollectionError::AgentIncorrectVariant),
            },
        },
    }
}

/// Whether button `info` is held by entity `e`.
pub open spec fn button_out(s: EntityState, info: PropInfo, e: i32, buttons: Seq<(String, u64)>) -> Result<VarView, PropCollectionError> {
    match s.special_ids.buttons {
        None => err_out(PropCollectionError::ButtonsSpecialIDNone),
        Some(b) => match s.prop(b, e) {
            Err(x) => err_out(x),
            Ok(Variant::U64(mask)) => match button_bit(buttons, info.prop_name@) {
                Some(bit) => Ok(variant_view(Variant::Bool(mask & bit != 0))),
                None => err_out(PropCollectionError::ButtonsMapNoEntryFound),
            },
            Ok(_) => err_out(PropCollectionError::ButtonMaskNotU64Variant),
        },
    }
}

/// The value of property `info` for the player with pawn `e`, for the
/// kinds that do not work on floating-point values.
pub open spec fn prop_outcome(s: EntityState, info: PropInfo, e: i32, player: PlayerMetaData, lk: PropLookups) -> Result<VarView, PropCollectionError> {
    match info.prop_type {
        PropType::Tick => Ok(variant_view(Variant::I32(s.tick))),
        PropType::Name => match player.name {
            Some(n) => text_out(n@),
            None => err_out(PropCollectionError::PlayerMetaDataNameNone),
        },
        PropType::Steamid => Ok(variant_view(Variant::U64(match player.steamid { Some(x) => x, None => 0 }))),
        PropType::Player => outcome_view(s.prop(info.id, e)),
        PropType::Team => outcome_view(s.team_prop(info.id, e)),
        PropType::Custom => custom_out(s, info, e, player, lk),
        PropType::Weapon => outcome_view(s.weapon_prop(info.id, e)),
        PropType::Button => button_out(s, info, e, lk.tables.buttons@),
        PropType::Controller => match player.controller_entid {
            None => err_out(PropCollectionError::ControllerEntityIdNotSet),
            Some(c) => outcome_view(s.prop(info.id, c)),
        },
        PropType::Rules => match s.rules_entity_id {
            None => err_out(PropCollectionError::RulesEntityIdNotSet),
            Some(r) => outcome_view(s.prop(info.id, r)),
        },
        PropType::GameTime => err_out(PropCollectionError::UnknownCustomPropName),
    }
}

/// Where each kind of property is read from: the tick is the state's own;
/// a player's steam id is its own (0 where unknown); a pawn property is
/// the pawn's; a controller property the controller's; a rules property
/// the rules entity's; a team property the team entity's; a weapon property
/// the held weapon's. Of the custom ones, pitch and yaw are components 0
/// and 1 of the pawn's eye angles, `entity_id` is the pawn's id and
/// `is_alive` whether the pawn is alive.
pub proof fn law_prop_sources(s: EntityState, info: PropInfo, e: i32, player: PlayerMetaData, lk: PropLookups)
    ensures
        info.prop_type == PropType::Tick ==> prop_outcome(s, info, e, player, lk) == Ok::<VarView, PropCollectionError>(
            variant_view(Variant::I32(s.tick))),
        info.prop_type == PropType::Steamid ==> prop_outcome(s, info, e, player, lk) == Ok::<VarView, PropCollectionError>(
            variant_view(Variant::U64(if player.steamid is Some { player.steamid->Some_0 } else { 0 }))),
        info.prop_type == PropType::Player ==> prop_outcome(s, info, e, player, lk) == outcome_view(s.prop(info.id, e)),
        (info.prop_type == PropType::Controller && player.controller_entid is Some) ==> prop_outcome(s, info, e, player, lk)
            == outcome_view(s.prop(info.id, player.controller_entid->Some_0)),
        (info.prop_type == PropType::Rules && s.rules_entity_id is Some) ==> prop_outcome(s, info, e, player, lk)
            == outcome_view(s.prop(info.id, s.rules_entity_id->Some_0)),
        info.prop_type == PropType::Team ==> prop_outcome(s, info, e, player, lk) == outcome_view(s.team_prop(info.id, e)),
        info.prop_type == PropType::Weapon ==> prop_outcome(s, info, e, player, lk) == outcome_view(s.weapon_prop(info.id, e)),
        (info.prop_type == PropType::Custom && info.prop_name@ == "pitch"@ && s.special_ids.eye_angles is Some
            && s.prop(s.special_ids.eye_angles->Some_0, e) is Ok
            && s.prop(s.special_ids.eye_angles->Some_0, e)->Ok_0 is XYZVec)
            ==> prop_outcome(s, info, e, player, lk) == Ok::<VarView, PropCollectionError>(variant_view(Variant::F32(
                s.prop(s.special_ids.eye_angles->Some_0, e)->Ok_0->XYZVec_0[0]))),
        (info.prop_type == PropType::Custom && info.prop_name@ == "yaw"@ && s.special_ids.eye_angles is Some
            && s.prop(s.special_ids.eye_angles->Some_0, e) is Ok
            && s.prop(s.special_ids.eye_angles->Some_0, e)->Ok_0 is XYZVec)
            ==> prop_outcome(s, info, e, player, lk) == Ok::<VarView, PropCollectionError>(variant_view(Variant::F32(
                s.prop(s.special_ids.eye_angles->Some_0, e)->Ok_0->XYZVec_0[1]))),
        (info.prop_type == PropType::Custom && info.prop_name@ == "entity_id"@) ==> prop_outcome(s, info, e, player, lk)
            == Ok::<VarView, PropCollectionError>(variant_view(Variant::I32(e))),
        (info.prop_type == PropType::Custom && info.prop_name@ == "is_alive"@) ==> prop_outcome(s, info, e, player, lk)
            == Ok::<VarView, PropCollectionError>(variant_view(Variant::Bool(s.is_alive(e)))),
        (info.prop_type == PropType::Custom && info.prop_name@ == "is_airborne"@) ==> prop_outcome(s, info, e, player, lk)
            == Ok::<VarView, PropCollectionError>(variant_view(Variant::Bool(player.player_entity_id is Some
                && s.prop_opt(s.special_ids.is_airborne, player.player_entity_id->Some_0) == Some(Variant::U32(IS_AIRBORNE_CONST))))),
        (info.prop_type == PropType::Button && s.special_ids.buttons is Some
            && s.prop(s.special_ids.buttons->Some_0, e) is Ok && s.prop(s.special_ids.buttons->Some_0, e)->Ok_0 is U64
            && button_bit(lk.tables.buttons@, info.prop_name@) is Some)
            ==> prop_outcome(s, info, e, player, lk) == Ok::<VarView, PropCollectionError>(variant_view(Variant::Bool(
                s.prop(s.special_ids.buttons->Some_0, e)->Ok_0->U64_0 & button_bit(lk.tables.buttons@, info.prop_name@)->Some_0 != 0))),
{
    reveal_strlit("user_id");
    reveal_strlit("is_airborne");
    assert("user_id"@.len() == 7 && "is_airborne"@.len() == 11);
    reveal_strlit("pitch");
    reveal_strlit("yaw");
    reveal_strlit("weapon_name");
    reveal_strlit("weapon_float");
    reveal_strlit("active_weapon_original_owner");
    reveal_strlit("inventory");
    reveal_strlit("inventory_as_ids");
    reveal_strlit("CCSPlayerPawn.m_bSpottedByMask");
    reveal_strlit("entity_id");
    reveal_strlit("is_alive");
    assert("pitch"@.len() == 5 && "yaw"@.len() == 3 && "weapon_name"@.len() == 11 && "weapon_float"@.len() == 12);
    assert("active_weapon_original_owner"@.len() == 28 && "inventory"@.len() == 9 && "inventory_as_ids"@.len() == 16);
    assert("CCSPlayerPawn.m_bSpottedByMask"@.len() == 30 && "entity_id"@.len() == 9 && "is_alive"@.len() == 8);
    assert("entity_id"@[0] != "inventory"@[0]);
    assert("yaw"@[0] != "pitch"@[0]);
    assert("is_airborne"@[0] != "weapon_name"@[0]);
}

/// The tables the property values are named by, and the users the string
/// tables list, in the order they are searched.
#[derive(Debug)]
pub struct PropLookups {
    pub tables: NameTables,
    pub users: Vec<UserInfo>,
}

/// The floating-point kind of a custom property, by name.
pub(crate) fn float_custom_kind(name: &str) -> (r: Option<FloatProp>)
    ensures
        r == float_custom(name@),
{
    if str_eq(name, "X") {
        Some(FloatProp::X)
    } else if str_eq(name, "Y") {
        Some(FloatProp::Y)
    } else if str_eq(name, "Z") {
        Some(FloatProp::Z)
    } else if str_eq(name, "velocity") {
        Some(FloatProp::Velocity)
    } else if str_eq(name, "velocity_X") {
        Some(FloatProp::VelocityX)
    } else if str_eq(name, "velocity_Y") {
        Some(FloatProp::VelocityY)
    } else if str_eq(name, "velocity_Z") {
        Some(FloatProp::VelocityZ)
    } else if str_eq(name, "weapon_skin") {
        Some(FloatProp::WeaponSkin)
    } else if str_eq(name, "weapon_skin_id") {
        Some(FloatProp::WeaponSkinId)
    } else if str_eq(name, "weapon_paint_seed") {
        Some(FloatProp::WeaponPaintSeed)
    } else if str_eq(name, "weapon_stickers") {
        Some(FloatProp::WeaponStickers)
    } else {
        None
    }
}

/// The value field `d` may hold for property `p` of the player with pawn
/// `e`: none where the player is not known; otherwise the value the
/// property has, or none where it has none. A floating-point kind holds
/// what `f` may give for it.
pub open spec fn prop_data_ok<F: Fn(FloatProp, i32) -> Result<Variant, PropCollectionError>>(
    s: EntityState,
    p: PropInfo,
    e: i32,
    lk: PropLookups,
    f: F,
    d: Option<Variant>,
) -> bool {
    if s.player_known(e) {
        let player = s.players@[last_with_id(s.players@, e)->Some_0].1;
        match float_kind(p) {
            Some(k) => exists|r: Result<Variant, PropCollectionError>|
                #[trigger] f.ensures((k, e), r) && option_view(d) == option_view(ok_of(r)),
            None => option_view(d) == match prop_outcome(s, p, e, player, lk) {
                Ok(v) => Some(v),
                Err(_) => None,
            },
        }
    } else {
        d is None
    }
}

/// `out` are the event fields of the player properties of `infos` for the
/// player with pawn `e`, in order, each named `prefix_` and the property's
/// name.
pub open spec fn extra_fields_match<F: Fn(FloatProp, i32) -> Result<Variant, PropCollectionError>>(
    s: EntityState,
    e: i32,
    prefix: Seq<char>,
    infos: Seq<PropInfo>,
    lk: PropLookups,
    f: F,
    out: Seq<EventField>,
) -> bool
    decreases infos.len(),
{
    if infos.len() == 0 {
        out.len() == 0
    } else {
        let p = infos.last();
        if event_player_prop(p) {
            &&& out.len() > 0
            &&& out.last().name@ == prefix + "_"@ + p.prop_friendly_name@
            &&& prop_data_ok(s, p, e, lk, f, out.last().data)
            &&& extra_fields_match(s, e, prefix, infos.drop_last(), lk, f, out.drop_last())
        } else {
            extra_fields_match(s, e, prefix, infos.drop_last(), lk, f, out)
        }
    }
}

/// A player has one field for each reported player property.
pub proof fn lemma_extra_fields_len<F: Fn(FloatProp, i32) -> Result<Variant, PropCollectionError>>(
    s: EntityState,
    e: i32,
    prefix: Seq<char>,
    infos: Seq<PropInfo>,
    lk: PropLookups,
    f: F,
    out: Seq<EventField>,
)
    requires
        extra_fields_match(s, e, prefix, infos, lk, f, out),
    ensures
        out.len() == n_event_props(infos),
    decreases infos.len(),
{
    if infos.len() > 0 {
        if event_player_prop(infos.last()) {
            lemma_extra_fields_len(s, e, prefix, infos.drop_last(), lk, f, out.drop_last());
        } else {
            lemma_extra_fields_len(s, e, prefix, infos.drop_last(), lk, f, out);
        }
    }
}

impl EntityState {
    /// Whether button `info` is held, from the button mask of entity
    /// `entity_id` and the button's bit.
    pub fn get_button_prop(&self, info: &PropInfo, entity_id: i32, tables: &NameTables) -> (r: Result<Variant, PropCollectionError>)
        ensures
            match self.special_ids.buttons {
                None => r == Err::<Variant, PropCollectionError>(PropCollectionError::ButtonsSpecialIDNone),
                Some(b) => match self.prop(b, entity_id) {
                    Err(e) => r == Err::<Variant, PropCollectionError>(e),
                    Ok(Variant::U64(mask)) => match button_bit(tables.buttons@, info.prop_name@) {
                        Some(bit) => r == Ok::<Variant, PropCollectionError>(Variant::Bool(mask & bit != 0)),
                        None => r == Err::<Variant, PropCollectionError>(PropCollectionError::ButtonsMapNoEntryFound),
                    },
                    Ok(_) => r == Err::<Variant, PropCollectionError>(PropCollectionError::ButtonMaskNotU64Variant),
                },
            },
    {
        let b = match self.special_ids.buttons {
            Some(b) => b,
            None => return Err(PropCollectionError::ButtonsSpecialIDNone),
        };
        match self.get_prop_from_ent(b, entity_id) {
            Err(e) => Err(e),
            Ok(Variant::U64(mask)) => match lookup_button(&tables.buttons, info.prop_name.as_str()) {
                Some(bit) => Ok(Variant::Bool(mask & bit != 0)),
                None => Err(PropCollectionError::ButtonsMapNoEntryFound),
            },
            Ok(_) => Err(PropCollectionError::ButtonMaskNotU64Variant),
        }
    }

    /// Component `idx` (0 pitch, 1 yaw) of the eye angles of entity
    /// `entity_id`.
    pub fn find_pitch_or_yaw(&self, entity_id: i32, idx: usize) -> (r: Result<Variant, PropCollectionError>)
        requires
            idx < 3,
        ensures
            match self.special_ids.eye_angles {
                None => r == Err::<Variant, PropCollectionError>(PropCollectionError::SpecialidsEyeAnglesNotSet),
                Some(a) => match self.prop(a, entity_id) {
                    Err(e) => r == Err::<Variant, PropCollectionError>(e),
                    Ok(Variant::XYZVec(v)) => r == Ok::<Variant, PropCollectionError>(Variant::F32(v[idx as int])),
                    Ok(_) => r == Err::<Variant, PropCollectionError>(PropCollectionError::EyeAnglesWrongVariant),
                },
            },
    {
        let a = match self.special_ids.eye_angles {
            Some(a) => a,
            None => return Err(PropCollectionError::SpecialidsEyeAnglesNotSet),
        };
        match self.get_prop_from_ent(a, entity_id) {
            Err(e) => Err(e),
            Ok(Variant::XYZVec(v)) => Ok(Variant::F32(v[idx])),
            Ok(_) => Err(PropCollectionError::EyeAnglesWrongVariant),
        }
    }

    /// The steam id of the first owner of the weapon entity `entity_id`
    /// holds, in decimal, from its two halves.
    pub fn find_weapon_original_owner(&self, entity_id: i32) -> (r: Result<Variant, PropCollectionError>)
        ensures
            match (self.special_ids.orig_own_low, self.special_ids.orig_own_high) {
                (None, _) => r == Err::<Variant, PropCollectionError>(PropCollectionError::OriginalOwnerXuidIdLowNotSet),
                (Some(_), None) => r == Err::<Variant, PropCollectionError>(PropCollectionError::OriginalOwnerXuidIdHighNotSet),
                (Some(lo), Some(hi)) => match self.weapon_prop(lo, entity_id) {
                    Err(_) => r == Err::<Variant, PropCollectionError>(PropCollectionError::OriginalOwnerXuidLowNotFound),
                    Ok(Variant::U32(l)) => match self.weapon_prop(hi, entity_id) {
                        Err(_) => r == Err::<Variant, PropCollectionError>(PropCollectionError::OriginalOwnerXuidHighNotFound),
                        Ok(Variant::U32(h)) => r matches Ok(Variant::String(s))
                            && s@ == decimal(h as nat * 0x1_0000_0000 + l as nat),
                        Ok(_) => r == Err::<Variant, PropCollectionError>(PropCollectionError::OriginalOwnerXuidHighIncorrectVariant),
                    },
                    Ok(_) => r == Err::<Variant, PropCollectionError>(PropCollectionError::OriginalOwnerXuidlowIncorrectVariant),
                },
            },
    {
        let lo = match self.special_ids.orig_own_low {
            Some(x) => x,
            None => return Err(PropCollectionError::OriginalOwnerXuidIdLowNotSet),
        };
        let hi = match self.special_ids.orig_own_high {
            Some(x) => x,
            None => return Err(PropCollectionError::OriginalOwnerXuidIdHighNotSet),
        };
        let l = match self.find_weapon_prop(lo, entity_id) {
            Ok(Variant::U32(v)) => v,
            Ok(_) => return Err(PropCollectionError::OriginalOwnerXuidlowIncorrectVariant),
            Err(_) => return Err(PropCollectionError::OriginalOwnerXuidLowNotFound),
        };
        let h = match self.find_weapon_prop(hi, entity_id) {
            Ok(Variant::U32(v)) => v,
            Ok(_) => return Err(PropCollectionError::OriginalOwnerXuidHighIncorrectVariant),
            Err(_) => return Err(PropCollectionError::OriginalOwnerXuidHighNotFound),
        };
        let combined: u64 = ((h as u64) << 32u64) | (l as u64);
        assert(combined == h as nat * 0x1_0000_0000 + l as nat) by (bit_vector)
            requires
                combined == ((h as u64) << 32u64) | (l as u64),
        ;
        Ok(Variant::String(u64_to_decimal(combined)))
    }

    /// Whether a player is in the air: the airborne flag of its pawn has
    /// the value that means so. False where the pawn or flag is unknown.
    pub fn find_is_airborne(&self, player: &PlayerMetaData) -> (r: Result<Variant, PropCollectionError>)
        ensures
            r == Ok::<Variant, PropCollectionError>(Variant::Bool(match player.player_entity_id {
                Some(e) => self.prop_opt(self.special_ids.is_airborne, e) matches Some(Variant::U32(v)) && v == IS_AIRBORNE_CONST,
                None => false,
            })),
    {
        if let Some(e) = player.player_entity_id {
            if let Some(Variant::U32(v)) = self.get_prop_variant(self.special_ids.is_airborne, e) {
                return Ok(Variant::Bool(v == IS_AIRBORNE_CONST));
            }
        }
        Ok(Variant::Bool(false))
    }

    /// The float of the weapon a player's pawn holds.
    pub fn find_skin_float(&self, player: &PlayerMetaData) -> (r: Result<Variant, PropCollectionError>)
        ensures
            match player.player_entity_id {
                None => r == Err::<Variant, PropCollectionError>(PropCollectionError::PlayerNotFound),
                Some(e) => same_outcome(r, self.weapon_prop(WEAPON_FLOAT, e)),
            },
    {
        match player.player_entity_id {
            None => Err(PropCollectionError::PlayerNotFound),
            Some(e) => self.find_weapon_prop(WEAPON_FLOAT, e),
        }
    }

    /// The agent a player's controller wears, by table `tables.agents`.
    pub fn find_agent_skin(&self, player: &PlayerMetaData, tables: &NameTables) -> (r: Result<Variant, PropCollectionError>)
        ensures
            match self.special_ids.agent_skin_idx {
                None => r == Err::<Variant, PropCollectionError>(PropCollectionError::AgentSpecialIdNotSet),
                Some(a) => match player.controller_entid {
                    None => r == Err::<Variant, PropCollectionError>(PropCollectionError::AgentPropNotFound),
                    Some(c) => match self.prop(a, c) {
                        Err(_) => r == Err::<Variant, PropCollectionError>(PropCollectionError::AgentPropNotFound),
                        Ok(Variant::U32(id)) => match name_for(tables.agents@, id) {
                            Some(n) => r matches Ok(Variant::String(s)) && s@ == n,
                            None => r == Err::<Variant, PropCollectionError>(PropCollectionError::AgentIdNotFound),
                        },
                        Ok(_) => r == Err::<Variant, PropCollectionError>(PropCollectionError::AgentIncorrectVariant),
                    },
                },
            },
    {
        let a = match self.special_ids.agent_skin_idx {
            Some(a) => a,
            None => return Err(PropCollectionError::AgentSpecialIdNotSet),
        };
        match self.get_controller_prop(a, player) {
            Ok(Variant::U32(id)) => match lookup_name(&tables.agents, id) {
                Some(n) => Ok(Variant::String(n)),
                None => Err(PropCollectionError::AgentIdNotFound),
            },
            Ok(_) => Err(PropCollectionError::AgentIncorrectVariant),
            Err(_) => Err(PropCollectionError::AgentPropNotFound),
        }
    }

    /// A player's teammate color, named by table `tables.player_colors` or
    /// given as its number; `UseridNotFound` where the controller has none.
    pub fn find_player_color(&self, player: &PlayerMetaData, info: &PropInfo, tables: &NameTables) -> (r: Result<Variant, PropCollectionError>)
        ensures
            match player.controller_entid {
                Some(c) => match self.prop(info.id, c) {
                    Ok(Variant::I32(v)) => r matches Ok(Variant::String(s)) && s@ == color_text(tables.player_colors@, v),
                    _ => r == Err::<Variant, PropCollectionError>(PropCollectionError::UseridNotFound),
                },
                None => r == Err::<Variant, PropCollectionError>(PropCollectionError::UseridNotFound),
            },
    {
        if let Ok(Variant::I32(v)) = self.get_controller_prop(info.id, player) {
            return Ok(Variant::String(reason_string(&tables.player_colors, v)));
        }
        Err(PropCollectionError::UseridNotFound)
    }
    /// Adds to `names` what an item with definition value `prop` adds to
    /// the inventory of `player`, as `item_names` says.
    fn insert_equipment_name(&self, names: &mut Vec<String>, prop: &Variant, player: i32, tables: &NameTables)
        ensures
            strings_view(final(names)@) == strings_view(old(names)@) + item_names(*self, player, *prop, tables.weapon_names@),
    {
        let ghost n0 = strings_view(names@);
        let def = match prop {
            Variant::U32(d) => *d,
            _ => {
                assert(strings_view(names@) =~= n0 + Seq::<Seq<char>>::empty());
                return;
            },
        };
        let name = match lookup_name(&tables.weapon_names, def) {
            Some(n) => n,
            None => {
                assert(strings_view(names@) =~= n0 + Seq::<Seq<char>>::empty());
                return;
            },
        };
        let ghost t = name@;
        if str_eq(name.as_str(), "flashbang") {
            let second = match self.get_prop_from_ent(GRENADE_AMMO_ID, player) {
                Ok(Variant::U32(c)) => c == 2,
                _ => false,
            };
            if second {
                names.push(name.clone());
            }
            names.push(name);
            assert(strings_view(names@) =~= n0 + item_names(*self, player, *prop, tables.weapon_names@));
        } else if str_eq(name.as_str(), "c4") {
            let carried = match self.find_c4_owner() {
                Some(o) => o == player,
                None => false,
            };
            if carried {
                names.push(name);
            }
            assert(strings_view(names@) =~= n0 + item_names(*self, player, *prop, tables.weapon_names@));
        } else {
            names.push(name);
            assert(strings_view(names@) =~= n0 + item_names(*self, player, *prop, tables.weapon_names@));
        }
    }

    /// Adds to `ids` what an item with definition value `prop` adds to the
    /// inventory of `player`, as `item_ids` says.
    fn insert_equipment_id(&self, ids: &mut Vec<u32>, prop: &Variant, player: i32, tables: &NameTables)
        ensures
            final(ids)@ == old(ids)@ + item_ids(*self, player, *prop, tables.weapon_names@),
    {
        let ghost i0 = ids@;
        let def = match prop {
            Variant::U32(d) => *d,
            _ => {
                assert(ids@ =~= i0 + Seq::<u32>::empty());
                return;
            },
        };
        let name = match lookup_name(&tables.weapon_names, def) {
            Some(n) => n,
            None => {
                assert(ids@ =~= i0 + Seq::<u32>::empty());
                return;
            },
        };
        if str_eq(name.as_str(), "flashbang") {
            let second = match self.get_prop_from_ent(GRENADE_AMMO_ID, player) {
                Ok(Variant::U32(c)) => c == 2,
                _ => false,
            };
            if second {
                ids.push(def);
            }
            ids.push(def);
            assert(ids@ =~= i0 + item_ids(*self, player, *prop, tables.weapon_names@));
        } else if str_eq(name.as_str(), "c4") {
            let carried = match self.find_c4_owner() {
                Some(o) => o == player,
                None => false,
            };
            if carried {
                ids.push(def);
            }
            assert(ids@ =~= i0 + item_ids(*self, player, *prop, tables.weapon_names@));
        } else {
            ids.push(def);
            assert(ids@ =~= i0 + item_ids(*self, player, *prop, tables.weapon_names@));
        }
    }

    /// The inventory of entity `entity_id` from its first `max` slots, as
    /// names and as definition indexes.
    fn inventory_entries(&self, entity_id: i32, max: u32, tables: &NameTables) -> (r: (Vec<String>, Vec<u32>))
        ensures
            strings_view(r.0@) == inventory_upto(*self, entity_id, tables.weapon_names@, max as nat).0,
            r.1@ == inventory_upto(*self, entity_id, tables.weapon_names@, max as nat).1,
    {
        let mut names: Vec<String> = Vec::new();
        let mut ids: Vec<u32> = Vec::new();
        let mut unique: Vec<i32> = Vec::new();
        let mut k: u64 = 0;
        assert(strings_view(names@) =~= Seq::<Seq<char>>::empty());
        while k < max as u64
            invariant
                k <= max,
                strings_view(names@) == inventory_upto(*self, entity_id, tables.weapon_names@, k as nat).0,
                ids@ == inventory_upto(*self, entity_id, tables.weapon_names@, k as nat).1,
                unique@ == inventory_upto(*self, entity_id, tables.weapon_names@, k as nat).2,
            decreases max - k,
        {
            let i: u32 = (k + 1) as u32;
            let ghost prev = inventory_upto(*self, entity_id, tables.weapon_names@, k as nat);
            match self.get_prop_from_ent(MY_WEAPONS_OFFSET.wrapping_add(i), entity_id) {
                Ok(Variant::U32(x)) => {
                    let m: u32 = x & 0x3fffu32;
                    assert(m <= 0x3fff) by (bit_vector)
                        requires
                            m == x & 0x3fffu32,
                    ;
                    let eid = m as i32;
                    if !contains_i32(&unique, eid) {
                        unique.push(eid);
                        match self.special_ids.item_def {
                            Some(d) => match self.get_prop_from_ent(d, eid) {
                                Ok(prop) => {
                                    proof {
                                        let orig = self.prop(d, eid)->Ok_0;
                                        lemma_same_u32(prop, orig);
                                        assert(item_names(*self, entity_id, prop, tables.weapon_names@)
                                            == item_names(*self, entity_id, orig, tables.weapon_names@));
                                        assert(item_ids(*self, entity_id, prop, tables.weapon_names@)
                                            == item_ids(*self, entity_id, orig, tables.weapon_names@));
                                    }
                                    self.insert_equipment_name(&mut names, &prop, entity_id, tables);
                                    self.insert_equipment_id(&mut ids, &prop, entity_id, tables);
                                },
                                Err(_) => {},
                            },
                            None => {},
                        }
                    }
                },
                _ => {},
            }
            k += 1;
        }
        (names, ids)
    }

    /// The names of the items in the inventory of entity `entity_id`, each
    /// item entity once; empty for an entity that is not alive.
    pub fn find_my_inventory(&self, entity_id: i32, tables: &NameTables) -> (r: Result<Variant, PropCollectionError>)
        ensures
            !self.is_alive(entity_id) ==> (r matches Ok(Variant::StringVec(v)) && strings_view(v@) == Seq::<Seq<char>>::empty()),
            self.is_alive(entity_id) ==> match inventory_size(*self, entity_id) {
                None => r == Err::<Variant, PropCollectionError>(PropCollectionError::InventoryMaxNotFound),
                Some(n) => r matches Ok(Variant::StringVec(v))
                    && strings_view(v@) == inventory_upto(*self, entity_id, tables.weapon_names@, n as nat).0,
            },
    {
        if !self.find_is_alive(entity_id) {
            let v: Vec<String> = Vec::new();
            assert(strings_view(v@) =~= Seq::<Seq<char>>::empty());
            return Ok(Variant::StringVec(v));
        }
        let max = match self.get_prop_from_ent(MY_WEAPONS_OFFSET, entity_id) {
            Ok(Variant::U32(p)) => p,
            _ => return Err(PropCollectionError::InventoryMaxNotFound),
        };
        let (names, _) = self.inventory_entries(entity_id, max, tables);
        Ok(Variant::StringVec(names))
    }

    /// The definition indexes of the items in the inventory of entity
    /// `entity_id`, each item entity once; empty for an entity that is not
    /// alive.
    pub fn find_my_inventory_as_ids(&self, entity_id: i32, tables: &NameTables) -> (r: Result<Variant, PropCollectionError>)
        ensures
            !self.is_alive(entity_id) ==> (r matches Ok(Variant::U32Vec(v)) && v@ == Seq::<u32>::empty()),
            self.is_alive(entity_id) ==> match inventory_size(*self, entity_id) {
                None => r == Err::<Variant, PropCollectionError>(PropCollectionError::InventoryMaxNotFound),
                Some(n) => r matches Ok(Variant::U32Vec(v))
                    && v@ == inventory_upto(*self, entity_id, tables.weapon_names@, n as nat).1,
            },
    {
        if !self.find_is_alive(entity_id) {
            return Ok(Variant::U32Vec(Vec::new()));
        }
        let max = match self.get_prop_from_ent(MY_WEAPONS_OFFSET, entity_id) {
            Ok(Variant::U32(p)) => p,
            _ => return Err(PropCollectionError::InventoryMaxNotFound),
        };
        let (_, ids) = self.inventory_entries(entity_id, max, tables);
        Ok(Variant::U32Vec(ids))
    }
    /// The user id of a player: that of the first of `users` with its steam
    /// id.
    pub fn get_userid(&self, player: &PlayerMetaData, users: &Vec<UserInfo>) -> (r: Result<Variant, PropCollectionError>)
        ensures
            outcome_view(r) == userid_out(users@, *player),
    {
        let id = match player.steamid {
            Some(id) => id,
            None => return Err(PropCollectionError::UseridNotFound),
        };
        let mut i: usize = 0;
        assert(users@.skip(0) =~= users@);
        while i < users.len()
            invariant
                i <= users@.len(),
                player.steamid == Some(id),
                user_with_steamid(users@, id) == user_with_steamid(users@.skip(i as int), id),
            decreases users@.len() - i,
        {
            assert(users@.skip(i as int)[0] == users@[i as int]);
            if users[i].steamid == id {
                return Ok(Variant::I32(users[i].userid));
            }
            assert(users@.skip(i as int).drop_first() =~= users@.skip(i + 1));
            i += 1;
        }
        Err(PropCollectionError::UseridNotFound)
    }

    /// The value of custom property `info` for the player with pawn `e`;
    /// the kinds that work on floating-point values come from `float_prop`,
    /// which is given the kind and `e`.
    pub fn create_custom_prop<F: Fn(FloatProp, i32) -> Result<Variant, PropCollectionError>>(
        &self,
        info: &PropInfo,
        e: i32,
        player: &PlayerMetaData,
        lk: &PropLookups,
        float_prop: &F,
    ) -> (r: Result<Variant, PropCollectionError>)
        requires
            forall|k: FloatProp, x: i32| float_prop.requires((k, x)),
        ensures
            match float_custom(info.prop_name@) {
                Some(k) => float_prop.ensures((k, e), r),
                None => outcome_view(r) == custom_out(*self, *info, e, *player, *lk),
            },
    {
        match float_custom_kind(info.prop_name.as_str()) {
            Some(k) => float_prop(k, e),
            None => self.custom_value(info, e, player, lk),
        }
    }

    /// The value of custom property `info`, of a kind that does not work on
    /// floating-point values.
    fn custom_value(&self, info: &PropInfo, e: i32, player: &PlayerMetaData, lk: &PropLookups) -> (r: Result<Variant, PropCollectionError>)
        ensures
            outcome_view(r) == custom_out(*self, *info, e, *player, *lk),
    {
        let name = info.prop_name.as_str();
        if str_eq(name, "pitch") {
            self.find_pitch_or_yaw(e, 0)
        } else if str_eq(name, "yaw") {
            self.find_pitch_or_yaw(e, 1)
        } else if str_eq(name, "weapon_name") {
            self.find_weapon_name(e, &lk.tables.weapon_names)
        } else if str_eq(name, "weapon_float") {
            self.find_skin_float(player)
        } else if str_eq(name, "active_weapon_original_owner") {
            self.find_weapon_original_owner(e)
        } else if str_eq(name, "inventory") {
            self.find_my_inventory(e, &lk.tables)
        } else if str_eq(name, "inventory_as_ids") {
            self.find_my_inventory_as_ids(e, &lk.tables)
        } else if str_eq(name, "CCSPlayerPawn.m_bSpottedByMask") {
            self.find_spotted(e, info.id)
        } else if str_eq(name, "entity_id") {
            Ok(Variant::I32(e))
        } else if str_eq(name, "is_alive") {
            Ok(Variant::Bool(self.find_is_alive(e)))
        } else if str_eq(name, "user_id") {
            self.get_userid(player, &lk.users)
        } else if str_eq(name, "is_airborne") {
            self.find_is_airborne(player)
        } else if str_eq(name, "agent_skin") {
            self.find_agent_skin(player, &lk.tables)
        } else if str_eq(name, "CCSPlayerController.m_iCompTeammateColor") {
            self.find_player_color(player, info, &lk.tables)
        } else if str_eq(name, "usercmd_input_history") {
            self.get_prop_from_ent(USERCMD_INPUT_HISTORY_BASEID, e)
        } else {
            Err(PropCollectionError::UnknownCustomPropName)
        }
    }

    /// The value of property `info` for the player with pawn `e`, by the
    /// kind of property; the kinds that work on floating-point values come
    /// from `float_prop`.
    pub fn find_prop<F: Fn(FloatProp, i32) -> Result<Variant, PropCollectionError>>(
        &self,
        info: &PropInfo,
        e: i32,
        player: &PlayerMetaData,
        lk: &PropLookups,
        float_prop: &F,
    ) -> (r: Result<Variant, PropCollectionError>)
        requires
            forall|k: FloatProp, x: i32| float_prop.requires((k, x)),
        ensures
            match float_kind(*info) {
                Some(k) => float_prop.ensures((k, e), r),
                None => outcome_view(r) == prop_outcome(*self, *info, e, *player, *lk),
            },
    {
        match info.prop_type {
            PropType::Tick => Ok(Variant::I32(self.tick)),
            PropType::Name => self.create_name(player),
            PropType::Steamid => self.create_steamid(player),
            PropType::Player => self.get_prop_from_ent(info.id, e),
            PropType::Team => self.find_team_prop(info.id, e),
            PropType::Custom => self.create_custom_prop(info, e, player, lk, float_prop),
            PropType::Weapon => self.find_weapon_prop(info.id, e),
            PropType::Button => self.get_button_prop(info, e, &lk.tables),
            PropType::Controller => self.get_controller_prop(info.id, player),
            PropType::Rules => self.get_rules_prop(info.id),
            PropType::GameTime => float_prop(FloatProp::GameTime, e),
        }
    }
    /// The event fields of the player properties of `infos` for the player
    /// with pawn `entity_id`, as `extra_fields_match` says.
    pub fn find_extra_props_events<F: Fn(FloatProp, i32) -> Result<Variant, PropCollectionError>>(
        &self,
        entity_id: i32,
        prefix: &str,
        infos: &Vec<PropInfo>,
        lk: &PropLookups,
        float_prop: &F,
    ) -> (r: Vec<EventField>)
        requires
            forall|k: FloatProp, x: i32| float_prop.requires((k, x)),
        ensures
            extra_fields_match(*self, entity_id, prefix@, infos@, *lk, *float_prop, r@),
    {
        proof {
            reveal_strlit("_");
        }
        let under = concat_str(prefix, "_");
        let player = self.find_player_metadata(entity_id);
        let mut out: Vec<EventField> = Vec::new();
        let mut i: usize = 0;
        assert(infos@.take(0) =~= Seq::<PropInfo>::empty());
        while i < infos.len()
            invariant
                i <= infos@.len(),
                under@ == prefix@ + "_"@,
                forall|k: FloatProp, x: i32| float_prop.requires((k, x)),
                self.player_known(entity_id) ==> (player matches Ok(m)
                    && *m == self.players@[last_with_id(self.players@, entity_id)->Some_0].1),
                !self.player_known(entity_id) ==> player is Err,
                extra_fields_match(*self, entity_id, prefix@, infos@.take(i as int), *lk, *float_prop, out@),
            decreases infos@.len() - i,
        {
            let info = &infos[i];
            assert(infos@.take(i + 1).drop_last() =~= infos@.take(i as int));
            assert(infos@.take(i + 1).last() == infos@[i as int]);
            if info.is_player_prop && !is_default_field_name(info.prop_name.as_str()) {
                let data = match &player {
                    Ok(m) => match self.find_prop(info, entity_id, m, lk, float_prop) {
                        Ok(v) => Some(v),
                        Err(_) => None,
                    },
                    Err(_) => None,
                };
                let name = concat_str(under.as_str(), info.prop_friendly_name.as_str());
                let ghost before = out@;
                out.push(EventField { name, data });
                assert(out@.drop_last() =~= before);
            }
            i += 1;
        }
        assert(infos@.take(infos@.len() as int) =~= infos@);
        out
    }
}

} // verus!
