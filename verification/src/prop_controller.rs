use vstd::prelude::*;
use crate::props::{
    has_name, names_contain, BUTTONS_BASEID, NORMAL_PROP_BASEID, GAME_TIME_ID, TICK_ID, STEAMID_ID, NAME_ID,
    MY_WEAPONS_OFFSET, ITEM_PURCHASE_COUNT, ITEM_PURCHASE_NEW_DEF_IDX, ITEM_PURCHASE_DEF_IDX,
    ITEM_PURCHASE_COST, ITEM_PURCHASE_HANDLE, WEAPON_SKIN_ID,
};
use crate::strings::{str_eq, str_contains, contains_seq, concat_str};
use crate::lookup::{first_index, first_value, find_index, find_value, lemma_first_index};
use crate::variants::{Variant, VarKind, Cell, variant_view, clone_variant};
use crate::sendtables::{ValueField, Field, Serializer};

verus! {

/// The kind of a property, which decides how it is collected.
#[derive(Debug, Clone, Copy, PartialEq, Eq, Structural)]
pub enum PropType {
    Team,
    Rules,
    Custom,
    Controller,
    Player,
    Weapon,
    Button,
    Name,
    Steamid,
    Tick,
    GameTime,
}

/// A property that is collected: its id, kind, the name it is reported
/// under, its own name, and whether it belongs to players.
#[derive(Debug)]
pub struct PropInfo {
    pub id: u32,
    pub prop_type: PropType,
    pub prop_friendly_name: String,
    pub prop_name: String,
    pub is_player_prop: bool,
}

/// A property whose rows are kept only where it has a given value.
#[derive(Debug)]
pub struct WantedPropStateInfo {
    pub base: PropInfo,
    pub wanted_prop_state: Variant,
}

/// The fixed tables the controller works from: the button names, the ids
/// of the custom player properties, and the kind of each known property.
#[derive(Debug)]
pub struct PropTables {
    pub buttons: Vec<String>,
    pub custom_ids: Vec<(String, u32)>,
    pub types: Vec<(String, PropType)>,
}

/// Which properties are wanted, the ids given out so far, and what is
/// collected.
#[derive(Debug)]
pub struct PropController {
    pub id_to_name: Vec<(u32, String)>,
    pub id: u32,
    pub name_to_id: Vec<(String, u32)>,
    pub needs_velocity: bool,
    pub prop_infos: Vec<PropInfo>,
    pub real_name_to_og_name: Vec<(String, String)>,
    pub special_ids: SpecialIDs,
    pub wanted_other_props: Vec<String>,
    pub wanted_player_props: Vec<String>,
    pub wanted_prop_state_infos: Vec<WantedPropStateInfo>,
    pub wanted_prop_states: Vec<(String, Variant)>,
    pub tables: PropTables,
}

/// A property description as a tuple of values.
pub open spec fn info_view(p: PropInfo) -> (u32, PropType, Seq<char>, Seq<char>, bool) {
    (p.id, p.prop_type, p.prop_friendly_name@, p.prop_name@, p.is_player_prop)
}

/// The views of a list of property descriptions.
pub open spec fn infos_view(s: Seq<PropInfo>) -> Seq<(u32, PropType, Seq<char>, Seq<char>, bool)> {
    s.map_values(|p: PropInfo| info_view(p))
}

/// A wanted state as a tuple of values.
pub open spec fn state_view(w: WantedPropStateInfo) -> ((u32, PropType, Seq<char>, Seq<char>, bool), (VarKind, Cell, bool, bool)) {
    (info_view(w.base), variant_view(w.wanted_prop_state))
}

/// The views of a list of wanted states.
pub open spec fn states_view(s: Seq<WantedPropStateInfo>) -> Seq<((u32, PropType, Seq<char>, Seq<char>, bool), (VarKind, Cell, bool, bool))> {
    s.map_values(|w: WantedPropStateInfo| state_view(w))
}

/// The name-to-id table as text and numbers.
pub open spec fn names_view(s: Seq<(String, u32)>) -> Seq<(Seq<char>, u32)> {
    s.map_values(|e: (String, u32)| (e.0@, e.1))
}

/// The id-to-name table as numbers and text.
pub open spec fn ids_view(s: Seq<(u32, String)>) -> Seq<(u32, Seq<char>)> {
    s.map_values(|e: (u32, String)| (e.0, e.1@))
}

/// The name a property is reported under: the name the user asked for it
/// by, where there is one.
pub open spec fn friendly(c: PropController, name: Seq<char>) -> Seq<char> {
    match first_index(c.real_name_to_og_name@, name) {
        Some(i) => c.real_name_to_og_name@[i].1@,
        None => name,
    }
}

/// A property description built from its parts.
pub open spec fn info_of(id: u32, t: PropType, friendly_name: Seq<char>, name: Seq<char>, player: bool) -> (u32, PropType, Seq<char>, Seq<char>, bool) {
    (id, t, friendly_name, name, player)
}

/// The descriptions a property of a known kind adds when it gets id `id`:
/// one if players want it, one if other entities want it.
pub open spec fn new_infos(c: PropController, name: Seq<char>, id: u32) -> Seq<(u32, PropType, Seq<char>, Seq<char>, bool)> {
    match first_value(c.tables.types@, name) {
        None => Seq::empty(),
        Some(t) => (if has_name(c.wanted_player_props@, name) {
            seq![info_of(id, t, friendly(c, name), name, true)]
        } else {
            Seq::empty()
        }) + (if has_name(c.wanted_other_props@, name) {
            seq![info_of(id, t, friendly(c, name), name, false)]
        } else {
            Seq::empty()
        }),
    }
}

/// The wanted state a property of a known kind adds when it gets id `id`.
pub open spec fn new_states(c: PropController, name: Seq<char>, id: u32) -> Seq<((u32, PropType, Seq<char>, Seq<char>, bool), (VarKind, Cell, bool, bool))> {
    match first_value(c.tables.types@, name) {
        None => Seq::empty(),
        Some(t) => match first_index(c.wanted_prop_states@, name) {
            Some(i) => seq![(info_of(id, t, friendly(c, name), name, true), variant_view(c.wanted_prop_states@[i].1))],
            None => Seq::empty(),
        },
    }
}

/// The ids of the properties that the parser reads for its own use.
#[derive(Debug, Clone, Copy, PartialEq, Eq, Structural)]
pub struct SpecialIDs {
    pub teamnum: Option<u32>,
    pub player_name: Option<u32>,
    pub steamid: Option<u32>,
    pub player_pawn: Option<u32>,
    pub player_team_pointer: Option<u32>,
    pub weapon_owner_pointer: Option<u32>,
    pub team_team_num: Option<u32>,
    pub cell_x_player: Option<u32>,
    pub cell_y_player: Option<u32>,
    pub cell_z_player: Option<u32>,
    pub cell_x_offset_player: Option<u32>,
    pub cell_y_offset_player: Option<u32>,
    pub cell_z_offset_player: Option<u32>,
    pub active_weapon: Option<u32>,
    pub item_def: Option<u32>,
    pub cell_x_offset_grenade: Option<u32>,
    pub cell_y_offset_grenade: Option<u32>,
    pub cell_z_offset_grenade: Option<u32>,
    pub cell_x_grenade: Option<u32>,
    pub cell_y_grenade: Option<u32>,
    pub cell_z_grenade: Option<u32>,
    pub grenade_owner_id: Option<u32>,
    pub buttons: Option<u32>,
    pub eye_angles: Option<u32>,
    pub orig_own_low: Option<u32>,
    pub orig_own_high: Option<u32>,
    pub life_state: Option<u32>,
    pub h_owner_entity: Option<u32>,
    pub agent_skin_idx: Option<u32>,
    pub total_rounds_played: Option<u32>,
    pub round_win_reason: Option<u32>,
    pub round_start_count: Option<u32>,
    pub round_end_count: Option<u32>,
    pub match_end_count: Option<u32>,
    pub is_incendiary_grenade: Option<u32>,
    pub sellback_entry_def_idx: Option<u32>,
    pub sellback_entry_n_cost: Option<u32>,
    pub sellback_entry_prev_armor: Option<u32>,
    pub sellback_entry_prev_helmet: Option<u32>,
    pub sellback_entry_h_item: Option<u32>,
    pub weapon_purchase_count: Option<u32>,
    pub in_buy_zone: Option<u32>,
    pub custom_name: Option<u32>,
    pub is_airborne: Option<u32>,
}

impl SpecialIDs {
    /// No id known.
    pub open spec fn none_known(&self) -> bool {
        self.teamnum is None
        && self.player_name is None
        && self.steamid is None
        && self.player_pawn is None
        && self.player_team_pointer is None
        && self.weapon_owner_pointer is None
        && self.team_team_num is None
        && self.cell_x_player is None
        && self.cell_y_player is None
        && self.cell_z_player is None
        && self.cell_x_offset_player is None
        && self.cell_y_offset_player is None
        && self.cell_z_offset_player is None
        && self.active_weapon is None
        && self.item_def is None
        && self.cell_x_offset_grenade is None
        && self.cell_y_offset_grenade is None
        && self.cell_z_offset_grenade is None
        && self.cell_x_grenade is None
        && self.cell_y_grenade is None
        && self.cell_z_grenade is None
        && self.grenade_owner_id is None
        && self.buttons is None
        && self.eye_angles is None
        && self.orig_own_low is None
        && self.orig_own_high is None
        && self.life_state is None
        && self.h_owner_entity is None
        && self.agent_skin_idx is None
        && self.total_rounds_played is None
        && self.round_win_reason is None
        && self.round_start_count is None
        && self.round_end_count is None
        && self.match_end_count is None
        && self.is_incendiary_grenade is None
        && self.sellback_entry_def_idx is None
        && self.sellback_entry_n_cost is None
        && self.sellback_entry_prev_armor is None
        && self.sellback_entry_prev_helmet is None
        && self.sellback_entry_h_item is None
        && self.weapon_purchase_count is None
        && self.in_buy_zone is None
        && self.custom_name is None
        && self.is_airborne is None
    }
}

impl Default for SpecialIDs {
    /// No id known.
    fn default() -> (r: SpecialIDs)
        ensures
            r.none_known(),
    {
        SpecialIDs {
            teamnum: None,
            player_name: None,
            steamid: None,
            player_pawn: None,
            player_team_pointer: None,
            weapon_owner_pointer: None,
            team_team_num: None,
            cell_x_player: None,
            cell_y_player: None,
            cell_z_player: None,
            cell_x_offset_player: None,
            cell_y_offset_player: None,
            cell_z_offset_player: None,
            active_weapon: None,
            item_def: None,
            cell_x_offset_grenade: None,
            cell_y_offset_grenade: None,
            cell_z_offset_grenade: None,
            cell_x_grenade: None,
            cell_y_grenade: None,
            cell_z_grenade: None,
            grenade_owner_id: None,
            buttons: None,
            eye_angles: None,
            orig_own_low: None,
            orig_own_high: None,
            life_state: None,
            h_owner_entity: None,
            agent_skin_idx: None,
            total_rounds_played: None,
            round_win_reason: None,
            round_start_count: None,
            round_end_count: None,
            match_end_count: None,
            is_incendiary_grenade: None,
            sellback_entry_def_idx: None,
            sellback_entry_n_cost: None,
            sellback_entry_prev_armor: None,
            sellback_entry_prev_helmet: None,
            sellback_entry_h_item: None,
            weapon_purchase_count: None,
            in_buy_zone: None,
            custom_name: None,
            is_airborne: None,
        }
    }
}

/// The special ids after property `name` got `id`: weapon and grenade
/// properties are known by their short names, others by their full names.
pub open spec fn special_after(ids: SpecialIDs, name: Seq<char>, is_grenade_or_weapon: bool, id: Option<u32>) -> SpecialIDs {
    if is_grenade_or_weapon {
        if name == "m_bIsIncGrenade"@ {
            SpecialIDs { is_incendiary_grenade: id, ..ids }
        } else if name == "m_hOwnerEntity"@ {
            SpecialIDs { h_owner_entity: id, ..ids }
        } else if name == "m_nOwnerId"@ {
            SpecialIDs { grenade_owner_id: id, ..ids }
        } else if name == "CBodyComponentBaseAnimGraph.m_vecX"@ {
            SpecialIDs { cell_x_offset_grenade: id, ..ids }
        } else if name == "CBodyComponentBaseAnimGraph.m_vecY"@ {
            SpecialIDs { cell_y_offset_grenade: id, ..ids }
        } else if name == "CBodyComponentBaseAnimGraph.m_vecZ"@ {
            SpecialIDs { cell_z_offset_grenade: id, ..ids }
        } else if name == "CBodyComponentBaseAnimGraph.m_cellX"@ {
            SpecialIDs { cell_x_grenade: id, ..ids }
        } else if name == "CBodyComponentBaseAnimGraph.m_cellY"@ {
            SpecialIDs { cell_y_grenade: id, ..ids }
        } else if name == "CBodyComponentBaseAnimGraph.m_cellZ"@ {
            SpecialIDs { cell_z_grenade: id, ..ids }
        } else if name == "m_iItemDefinitionIndex"@ {
            SpecialIDs { item_def: id, ..ids }
        } else if name == "m_OriginalOwnerXuidLow"@ {
            SpecialIDs { orig_own_low: id, ..ids }
        } else if name == "m_OriginalOwnerXuidHigh"@ {
            SpecialIDs { orig_own_high: id, ..ids }
        } else if name == "m_szCustomName"@ {
            SpecialIDs { custom_name: id, ..ids }
        } else {
            ids
        }
    } else {
        if name == "CCSTeam.m_iTeamNum"@ {
            SpecialIDs { team_team_num: id, ..ids }
        } else if name == "CCSGameRulesProxy.CCSGameRules.m_nRoundStartCount"@ {
            SpecialIDs { round_start_count: id, ..ids }
        } else if name == "CCSGameRulesProxy.CCSGameRules.m_nRoundEndCount"@ {
            SpecialIDs { round_end_count: id, ..ids }
        } else if name == "CCSGameRulesProxy.CCSGameRules.m_nMatchEndCount"@ {
            SpecialIDs { match_end_count: id, ..ids }
        } else if name == "CCSGameRulesProxy.CCSGameRules.m_eRoundWinReason"@ {
            SpecialIDs { round_win_reason: id, ..ids }
        } else if name == "CCSGameRulesProxy.CCSGameRules.m_totalRoundsPlayed"@ {
            SpecialIDs { total_rounds_played: id, ..ids }
        } else if name == "CBasePlayerWeapon.m_nOwnerId"@ {
            SpecialIDs { weapon_owner_pointer: id, ..ids }
        } else if name == "CCSPlayerController.m_iTeamNum"@ {
            SpecialIDs { teamnum: id, ..ids }
        } else if name == "CCSPlayerController.m_iszPlayerName"@ {
            SpecialIDs { player_name: id, ..ids }
        } else if name == "CCSPlayerController.m_steamID"@ {
            SpecialIDs { steamid: id, ..ids }
        } else if name == "CCSPlayerController.m_hPlayerPawn"@ {
            SpecialIDs { player_pawn: id, ..ids }
        } else if name == "CCSPlayerController.m_nPawnCharacterDefIndex"@ {
            SpecialIDs { agent_skin_idx: id, ..ids }
        } else if name == "CCSPlayerPawn.CBodyComponentBaseAnimGraph.m_vecX"@ {
            SpecialIDs { cell_x_offset_player: id, ..ids }
        } else if name == "CCSPlayerPawn.CBodyComponentBaseAnimGraph.m_vecY"@ {
            SpecialIDs { cell_y_offset_player: id, ..ids }
        } else if name == "CCSPlayerPawn.CBodyComponentBaseAnimGraph.m_vecZ"@ {
            SpecialIDs { cell_z_offset_player: id, ..ids }
        } else if name == "CCSPlayerPawn.CBodyComponentBaseAnimGraph.m_cellX"@ {
            SpecialIDs { cell_x_player: id, ..ids }
        } else if name == "CCSPlayerPawn.CBodyComponentBaseAnimGraph.m_cellY"@ {
            SpecialIDs { cell_y_player: id, ..ids }
        } else if name == "CCSPlayerPawn.CBodyComponentBaseAnimGraph.m_cellZ"@ {
            SpecialIDs { cell_z_player: id, ..ids }
        } else if name == "CCSPlayerPawn.CCSPlayer_MovementServices.m_nButtonDownMaskPrev"@ {
            SpecialIDs { buttons: id, ..ids }
        } else if name == "CCSPlayerPawn.CCSPlayer_WeaponServices.m_hActiveWeapon"@ {
            SpecialIDs { active_weapon: id, ..ids }
        } else if name == "CCSPlayerPawn.m_angEyeAngles"@ {
            SpecialIDs { eye_angles: id, ..ids }
        } else if name == "CCSPlayerPawn.m_iTeamNum"@ {
            SpecialIDs { player_team_pointer: id, ..ids }
        } else if name == "CCSPlayerPawn.m_lifeState"@ {
            SpecialIDs { life_state: id, ..ids }
        } else if name == "CCSPlayerPawn.m_bInBuyZone"@ {
            SpecialIDs { in_buy_zone: id, ..ids }
        } else if name == "CCSPlayerPawn.m_hGroundEntity"@ {
            SpecialIDs { is_airborne: id, ..ids }
        } else {
            ids
        }
    }
}

/// Each property name that stands for a special id records its id in
/// that special id, and only there: weapon and grenade properties by their
/// short names, the others by their full names.
pub proof fn law_special_names_set_their_ids(ids: SpecialIDs, id: Option<u32>)
    ensures
        special_after(ids, "m_bIsIncGrenade"@, true, id).is_incendiary_grenade == id,
        special_after(ids, "m_hOwnerEntity"@, true, id).h_owner_entity == id,
        special_after(ids, "m_nOwnerId"@, true, id).grenade_owner_id == id,
        special_after(ids, "CBodyComponentBaseAnimGraph.m_vecX"@, true, id).cell_x_offset_grenade == id,
        special_after(ids, "CBodyComponentBaseAnimGraph.m_vecY"@, true, id).cell_y_offset_grenade == id,
        special_after(ids, "CBodyComponentBaseAnimGraph.m_vecZ"@, true, id).cell_z_offset_grenade == id,
        special_after(ids, "CBodyComponentBaseAnimGraph.m_cellX"@, true, id).cell_x_grenade == id,
        special_after(ids, "CBodyComponentBaseAnimGraph.m_cellY"@, true, id).cell_y_grenade == id,
        special_after(ids, "CBodyComponentBaseAnimGraph.m_cellZ"@, true, id).cell_z_grenade == id,
        special_after(ids, "m_iItemDefinitionIndex"@, true, id).item_def == id,
        special_after(ids, "m_OriginalOwnerXuidLow"@, true, id).orig_own_low == id,
        special_after(ids, "m_OriginalOwnerXuidHigh"@, true, id).orig_own_high == id,
        special_after(ids, "m_szCustomName"@, true, id).custom_name == id,
        special_after(ids, "CCSTeam.m_iTeamNum"@, false, id).team_team_num == id,
        special_after(ids, "CCSGameRulesProxy.CCSGameRules.m_nRoundStartCount"@, false, id).round_start_count == id,
        special_after(ids, "CCSGameRulesProxy.CCSGameRules.m_nRoundEndCount"@, false, id).round_end_count == id,
        special_after(ids, "CCSGameRulesProxy.CCSGameRules.m_nMatchEndCount"@, false, id).match_end_count == id,
        special_after(ids, "CCSGameRulesProxy.CCSGameRules.m_eRoundWinReason"@, false, id).round_win_reason == id,
        special_after(ids, "CCSGameRulesProxy.CCSGameRules.m_totalRoundsPlayed"@, false, id).total_rounds_played == id,
        special_after(ids, "CBasePlayerWeapon.m_nOwnerId"@, false, id).weapon_owner_pointer == id,
        special_after(ids, "CCSPlayerController.m_iTeamNum"@, false, id).teamnum == id,
        special_after(ids, "CCSPlayerController.m_iszPlayerName"@, false, id).player_name == id,
        special_after(ids, "CCSPlayerController.m_steamID"@, false, id).steamid == id,
        special_after(ids, "CCSPlayerController.m_hPlayerPawn"@, false, id).player_pawn == id,
        special_after(ids, "CCSPlayerController.m_nPawnCharacterDefIndex"@, false, id).agent_skin_idx == id,
        special_after(ids, "CCSPlayerPawn.CBodyComponentBaseAnimGraph.m_vecX"@, false, id).cell_x_offset_player == id,
        special_after(ids, "CCSPlayerPawn.CBodyComponentBaseAnimGraph.m_vecY"@, false, id).cell_y_offset_player == id,
        special_after(ids, "CCSPlayerPawn.CBodyComponentBaseAnimGraph.m_vecZ"@, false, id).cell_z_offset_player == id,
        special_after(ids, "CCSPlayerPawn.CBodyComponentBaseAnimGraph.m_cellX"@, false, id).cell_x_player == id,
        special_after(ids, "CCSPlayerPawn.CBodyComponentBaseAnimGraph.m_cellY"@, false, id).cell_y_player == id,
        special_after(ids, "CCSPlayerPawn.CBodyComponentBaseAnimGraph.m_cellZ"@, false, id).cell_z_player == id,
        special_after(ids, "CCSPlayerPawn.CCSPlayer_MovementServices.m_nButtonDownMaskPrev"@, false, id).buttons == id,
        special_after(ids, "CCSPlayerPawn.CCSPlayer_WeaponServices.m_hActiveWeapon"@, false, id).active_weapon == id,
        special_after(ids, "CCSPlayerPawn.m_angEyeAngles"@, false, id).eye_angles == id,
        special_after(ids, "CCSPlayerPawn.m_iTeamNum"@, false, id).player_team_pointer == id,
        special_after(ids, "CCSPlayerPawn.m_lifeState"@, false, id).life_state == id,
        special_after(ids, "CCSPlayerPawn.m_bInBuyZone"@, false, id).in_buy_zone == id,
        special_after(ids, "CCSPlayerPawn.m_hGroundEntity"@, false, id).is_airborne == id,
{
    reveal_strlit("CBasePlayerWeapon.m_nOwnerId");
    reveal_strlit("CBodyComponentBaseAnimGraph.m_cellX");
    reveal_strlit("CBodyComponentBaseAnimGraph.m_cellY");
    reveal_strlit("CBodyComponentBaseAnimGraph.m_cellZ");
    reveal_strlit("CBodyComponentBaseAnimGraph.m_vecX");
    reveal_strlit("CBodyComponentBaseAnimGraph.m_vecY");
    reveal_strlit("CBodyComponentBaseAnimGraph.m_vecZ");
    reveal_strlit("CCSGameRulesProxy.CCSGameRules.m_eRoundWinReason");
    reveal_strlit("CCSGameRulesProxy.CCSGameRules.m_nMatchEndCount");
    reveal_strlit("CCSGameRulesProxy.CCSGameRules.m_nRoundEndCount");
    reveal_strlit("CCSGameRulesProxy.CCSGameRules.m_nRoundStartCount");
    reveal_strlit("CCSGameRulesProxy.CCSGameRules.m_totalRoundsPlayed");
    reveal_strlit("CCSPlayerController.m_hPlayerPawn");
    reveal_strlit("CCSPlayerController.m_iTeamNum");
    reveal_strlit("CCSPlayerController.m_iszPlayerName");
    reveal_strlit("CCSPlayerController.m_nPawnCharacterDefIndex");
    reveal_strlit("CCSPlayerController.m_steamID");
    reveal_strlit("CCSPlayerPawn.CBodyComponentBaseAnimGraph.m_cellX");
    reveal_strlit("CCSPlayerPawn.CBodyComponentBaseAnimGraph.m_cellY");
    reveal_strlit("CCSPlayerPawn.CBodyComponentBaseAnimGraph.m_cellZ");
    reveal_strlit("CCSPlayerPawn.CBodyComponentBaseAnimGraph.m_vecX");
    reveal_strlit("CCSPlayerPawn.CBodyComponentBaseAnimGraph.m_vecY");
    reveal_strlit("CCSPlayerPawn.CBodyComponentBaseAnimGraph.m_vecZ");
    reveal_strlit("CCSPlayerPawn.CCSPlayer_MovementServices.m_nButtonDownMaskPrev");
    reveal_strlit("CCSPlayerPawn.CCSPlayer_WeaponServices.m_hActiveWeapon");
    reveal_strlit("CCSPlayerPawn.m_angEyeAngles");
    reveal_strlit("CCSPlayerPawn.m_bInBuyZone");
    reveal_strlit("CCSPlayerPawn.m_hGroundEntity");
    reveal_strlit("CCSPlayerPawn.m_iTeamNum");
    reveal_strlit("CCSPlayerPawn.m_lifeState");
    reveal_strlit("CCSTeam.m_iTeamNum");
    reveal_strlit("m_OriginalOwnerXuidHigh");
    reveal_strlit("m_OriginalOwnerXuidLow");
    reveal_strlit("m_bIsIncGrenade");
    reveal_strlit("m_hOwnerEntity");
    reveal_strlit("m_iItemDefinitionIndex");
    reveal_strlit("m_nOwnerId");
    reveal_strlit("m_szCustomName");
    assert("m_bIsIncGrenade"@.len() == 15);
    assert("m_hOwnerEntity"@.len() == 14);
    assert("m_nOwnerId"@.len() == 10);
    assert("CBodyComponentBaseAnimGraph.m_vecX"@.len() == 34);
    assert("CBodyComponentBaseAnimGraph.m_vecY"@.len() == 34);
    assert("CBodyComponentBaseAnimGraph.m_vecZ"@.len() == 34);
    assert("CBodyComponentBaseAnimGraph.m_cellX"@.len() == 35);
    assert("CBodyComponentBaseAnimGraph.m_cellY"@.len() == 35);
    assert("CBodyComponentBaseAnimGraph.m_cellZ"@.len() == 35);
    assert("m_iItemDefinitionIndex"@.len() == 22);
    assert("m_OriginalOwnerXuidLow"@.len() == 22);
    assert("m_OriginalOwnerXuidHigh"@.len() == 23);
    assert("m_szCustomName"@.len() == 14);
    assert("CBodyComponentBaseAnimGraph.m_vecY"@[33] != "CBodyComponentBaseAnimGraph.m_vecX"@[33]);
    assert("CBodyComponentBaseAnimGraph.m_vecZ"@[33] != "CBodyComponentBaseAnimGraph.m_vecX"@[33]);
    assert("CBodyComponentBaseAnimGraph.m_vecZ"@[33] != "CBodyComponentBaseAnimGraph.m_vecY"@[33]);
    assert("CBodyComponentBaseAnimGraph.m_cellY"@[34] != "CBodyComponentBaseAnimGraph.m_cellX"@[34]);
    assert("CBodyComponentBaseAnimGraph.m_cellZ"@[34] != "CBodyComponentBaseAnimGraph.m_cellX"@[34]);
    assert("CBodyComponentBaseAnimGraph.m_cellZ"@[34] != "CBodyComponentBaseAnimGraph.m_cellY"@[34]);
    assert("m_OriginalOwnerXuidLow"@[2] != "m_iItemDefinitionIndex"@[2]);
    assert("m_szCustomName"@[2] != "m_hOwnerEntity"@[2]);
    assert("CCSTeam.m_iTeamNum"@.len() == 18);
    assert("CCSGameRulesProxy.CCSGameRules.m_nRoundStartCount"@.len() == 49);
    assert("CCSGameRulesProxy.CCSGameRules.m_nRoundEndCount"@.len() == 47);
    assert("CCSGameRulesProxy.CCSGameRules.m_nMatchEndCount"@.len() == 47);
    assert("CCSGameRulesProxy.CCSGameRules.m_eRoundWinReason"@.len() == 48);
    assert("CCSGameRulesProxy.CCSGameRules.m_totalRoundsPlayed"@.len() == 50);
    assert("CBasePlayerWeapon.m_nOwnerId"@.len() == 28);
    assert("CCSPlayerController.m_iTeamNum"@.len() == 30);
    assert("CCSPlayerController.m_iszPlayerName"@.len() == 35);
    assert("CCSPlayerController.m_steamID"@.len() == 29);
    assert("CCSPlayerController.m_hPlayerPawn"@.len() == 33);
    assert("CCSPlayerController.m_nPawnCharacterDefIndex"@.len() == 44);
    assert("CCSPlayerPawn.CBodyComponentBaseAnimGraph.m_vecX"@.len() == 48);
    assert("CCSPlayerPawn.CBodyComponentBaseAnimGraph.m_vecY"@.len() == 48);
    assert("CCSPlayerPawn.CBodyComponentBaseAnimGraph.m_vecZ"@.len() == 48);
    assert("CCSPlayerPawn.CBodyComponentBaseAnimGraph.m_cellX"@.len() == 49);
    assert("CCSPlayerPawn.CBodyComponentBaseAnimGraph.m_cellY"@.len() == 49);
    assert("CCSPlayerPawn.CBodyComponentBaseAnimGraph.m_cellZ"@.len() == 49);
    assert("CCSPlayerPawn.CCSPlayer_MovementServices.m_nButtonDownMaskPrev"@.len() == 62);
    assert("CCSPlayerPawn.CCSPlayer_WeaponServices.m_hActiveWeapon"@.len() == 54);
    assert("CCSPlayerPawn.m_angEyeAngles"@.len() == 28);
    assert("CCSPlayerPawn.m_iTeamNum"@.len() == 24);
    assert("CCSPlayerPawn.m_lifeState"@.len() == 25);
    assert("CCSPlayerPawn.m_bInBuyZone"@.len() == 26);
    assert("CCSPlayerPawn.m_hGroundEntity"@.len() == 29);
    assert("CCSGameRulesProxy.CCSGameRules.m_nMatchEndCount"@[34] != "CCSGameRulesProxy.CCSGameRules.m_nRoundEndCount"@[34]);
    assert("CCSPlayerPawn.CBodyComponentBaseAnimGraph.m_vecX"@[3] != "CCSGameRulesProxy.CCSGameRules.m_eRoundWinReason"@[3]);
    assert("CCSPlayerPawn.CBodyComponentBaseAnimGraph.m_vecY"@[3] != "CCSGameRulesProxy.CCSGameRules.m_eRoundWinReason"@[3]);
    assert("CCSPlayerPawn.CBodyComponentBaseAnimGraph.m_vecY"@[47] != "CCSPlayerPawn.CBodyComponentBaseAnimGraph.m_vecX"@[47]);
    assert("CCSPlayerPawn.CBodyComponentBaseAnimGraph.m_vecZ"@[3] != "CCSGameRulesProxy.CCSGameRules.m_eRoundWinReason"@[3]);
    assert("CCSPlayerPawn.CBodyComponentBaseAnimGraph.m_vecZ"@[47] != "CCSPlayerPawn.CBodyComponentBaseAnimGraph.m_vecX"@[47]);
    assert("CCSPlayerPawn.CBodyComponentBaseAnimGraph.m_vecZ"@[47] != "CCSPlayerPawn.CBodyComponentBaseAnimGraph.m_vecY"@[47]);
    assert("CCSPlayerPawn.CBodyComponentBaseAnimGraph.m_cellX"@[3] != "CCSGameRulesProxy.CCSGameRules.m_nRoundStartCount"@[3]);
    assert("CCSPlayerPawn.CBodyComponentBaseAnimGraph.m_cellY"@[3] != "CCSGameRulesProxy.CCSGameRules.m_nRoundStartCount"@[3]);
    assert("CCSPlayerPawn.CBodyComponentBaseAnimGraph.m_cellY"@[48] != "CCSPlayerPawn.CBodyComponentBaseAnimGraph.m_cellX"@[48]);
    assert("CCSPlayerPawn.CBodyComponentBaseAnimGraph.m_cellZ"@[3] != "CCSGameRulesProxy.CCSGameRules.m_nRoundStartCount"@[3]);
    assert("CCSPlayerPawn.CBodyComponentBaseAnimGraph.m_cellZ"@[48] != "CCSPlayerPawn.CBodyComponentBaseAnimGraph.m_cellX"@[48]);
    assert("CCSPlayerPawn.CBodyComponentBaseAnimGraph.m_cellZ"@[48] != "CCSPlayerPawn.CBodyComponentBaseAnimGraph.m_cellY"@[48]);
    assert("CCSPlayerPawn.m_angEyeAngles"@[1] != "CBasePlayerWeapon.m_nOwnerId"@[1]);
    assert("CCSPlayerPawn.m_hGroundEntity"@[9] != "CCSPlayerController.m_steamID"@[9]);
}

/// Records `id` as the special id that property `name` stands for, if
/// it stands for one.
pub fn set_special_ids(ids: &mut SpecialIDs, name: &str, is_grenade_or_weapon: bool, id: Option<u32>)
    ensures
        *final(ids) == special_after(*old(ids), name@, is_grenade_or_weapon, id),
{
    if is_grenade_or_weapon {
        if str_eq(name, "m_bIsIncGrenade") {
            ids.is_incendiary_grenade = id;
        } else if str_eq(name, "m_hOwnerEntity") {
            ids.h_owner_entity = id;
        } else if str_eq(name, "m_nOwnerId") {
            ids.grenade_owner_id = id;
        } else if str_eq(name, "CBodyComponentBaseAnimGraph.m_vecX") {
            ids.cell_x_offset_grenade = id;
        } else if str_eq(name, "CBodyComponentBaseAnimGraph.m_vecY") {
            ids.cell_y_offset_grenade = id;
        } else if str_eq(name, "CBodyComponentBaseAnimGraph.m_vecZ") {
            ids.cell_z_offset_grenade = id;
        } else if str_eq(name, "CBodyComponentBaseAnimGraph.m_cellX") {
            ids.cell_x_grenade = id;
        } else if str_eq(name, "CBodyComponentBaseAnimGraph.m_cellY") {
            ids.cell_y_grenade = id;
        } else if str_eq(name, "CBodyComponentBaseAnimGraph.m_cellZ") {
            ids.cell_z_grenade = id;
        } else if str_eq(name, "m_iItemDefinitionIndex") {
            ids.item_def = id;
        } else if str_eq(name, "m_OriginalOwnerXuidLow") {
            ids.orig_own_low = id;
        } else if str_eq(name, "m_OriginalOwnerXuidHigh") {
            ids.orig_own_high = id;
        } else if str_eq(name, "m_szCustomName") {
            ids.custom_name = id;
        }
    } else {
        if str_eq(name, "CCSTeam.m_iTeamNum") {
            ids.team_team_num = id;
        } else if str_eq(name, "CCSGameRulesProxy.CCSGameRules.m_nRoundStartCount") {
            ids.round_start_count = id;
        } else if str_eq(name, "CCSGameRulesProxy.CCSGameRules.m_nRoundEndCount") {
            ids.round_end_count = id;
        } else if str_eq(name, "CCSGameRulesProxy.CCSGameRules.m_nMatchEndCount") {
            ids.match_end_count = id;
        } else if str_eq(name, "CCSGameRulesProxy.CCSGameRules.m_eRoundWinReason") {
            ids.round_win_reason = id;
        } else if str_eq(name, "CCSGameRulesProxy.CCSGameRules.m_totalRoundsPlayed") {
            ids.total_rounds_played = id;
        } else if str_eq(name, "CBasePlayerWeapon.m_nOwnerId") {
            ids.weapon_owner_pointer = id;
        } else if str_eq(name, "CCSPlayerController.m_iTeamNum") {
            ids.teamnum = id;
        } else if str_eq(name, "CCSPlayerController.m_iszPlayerName") {
            ids.player_name = id;
        } else if str_eq(name, "CCSPlayerController.m_steamID") {
            ids.steamid = id;
        } else if str_eq(name, "CCSPlayerController.m_hPlayerPawn") {
            ids.player_pawn = id;
        } else if str_eq(name, "CCSPlayerController.m_nPawnCharacterDefIndex") {
            ids.agent_skin_idx = id;
        } else if str_eq(name, "CCSPlayerPawn.CBodyComponentBaseAnimGraph.m_vecX") {
            ids.cell_x_offset_player = id;
        } else if str_eq(name, "CCSPlayerPawn.CBodyComponentBaseAnimGraph.m_vecY") {
            ids.cell_y_offset_player = id;
        } else if str_eq(name, "CCSPlayerPawn.CBodyComponentBaseAnimGraph.m_vecZ") {
            ids.cell_z_offset_player = id;
        } else if str_eq(name, "CCSPlayerPawn.CBodyComponentBaseAnimGraph.m_cellX") {
            ids.cell_x_player = id;
        } else if str_eq(name, "CCSPlayerPawn.CBodyComponentBaseAnimGraph.m_cellY") {
            ids.cell_y_player = id;
        } else if str_eq(name, "CCSPlayerPawn.CBodyComponentBaseAnimGraph.m_cellZ") {
            ids.cell_z_player = id;
        } else if str_eq(name, "CCSPlayerPawn.CCSPlayer_MovementServices.m_nButtonDownMaskPrev") {
            ids.buttons = id;
        } else if str_eq(name, "CCSPlayerPawn.CCSPlayer_WeaponServices.m_hActiveWeapon") {
            ids.active_weapon = id;
        } else if str_eq(name, "CCSPlayerPawn.m_angEyeAngles") {
            ids.eye_angles = id;
        } else if str_eq(name, "CCSPlayerPawn.m_iTeamNum") {
            ids.player_team_pointer = id;
        } else if str_eq(name, "CCSPlayerPawn.m_lifeState") {
            ids.life_state = id;
        } else if str_eq(name, "CCSPlayerPawn.m_bInBuyZone") {
            ids.in_buy_zone = id;
        } else if str_eq(name, "CCSPlayerPawn.m_hGroundEntity") {
            ids.is_airborne = id;
        }
    }
}

impl PropController {
    /// A controller for the wanted properties, with no ids given out yet.
    pub fn new(
        wanted_player_props: Vec<String>,
        wanted_other_props: Vec<String>,
        wanted_prop_states: Vec<(String, Variant)>,
        real_name_to_og_name: Vec<(String, String)>,
        needs_velocity: bool,
        tables: PropTables,
    ) -> (r: PropController)
        ensures
            r.id == NORMAL_PROP_BASEID,
            r.id_to_name@.len() == 0,
            r.name_to_id@.len() == 0,
            r.prop_infos@.len() == 0,
            r.wanted_prop_state_infos@.len() == 0,
            r.special_ids.none_known(),
            r.needs_velocity == needs_velocity,
            r.wanted_player_props == wanted_player_props,
            r.wanted_other_props == wanted_other_props,
            r.wanted_prop_states == wanted_prop_states,
            r.real_name_to_og_name == real_name_to_og_name,
            r.tables == tables,
    {
        PropController {
            id_to_name: Vec::new(),
            id: NORMAL_PROP_BASEID,
            name_to_id: Vec::new(),
            needs_velocity,
            prop_infos: Vec::new(),
            real_name_to_og_name,
            special_ids: SpecialIDs::default(),
            wanted_other_props,
            wanted_player_props,
            wanted_prop_state_infos: Vec::new(),
            wanted_prop_states,
            tables,
        }
    }

    /// The name property `prop_name` is reported under.
    pub fn get_friendly_name(&self, prop_name: &str) -> (r: String)
        ensures
            r@ == friendly(*self, prop_name@),
    {
        proof {
            lemma_first_index(self.real_name_to_og_name@, prop_name@);
        }
        match find_index(&self.real_name_to_og_name, prop_name) {
            Some(i) => {
                let r = self.real_name_to_og_name[i].1.clone();
                assert(first_index(self.real_name_to_og_name@, prop_name@) == Some(i as int));
                assert(r@ == self.real_name_to_og_name@[i as int].1@);
                r
            },
            None => prop_name.to_owned(),
        }
    }

    /// Records the description of property `prop_name` under id `id`, for
    /// players and for other entities as they want it, and its wanted
    /// state; a property of unknown kind is not recorded.
    pub fn insert_propinfo(&mut self, prop_name: &str, id: u32)
        ensures
            *final(self) == (PropController {
                prop_infos: final(self).prop_infos,
                wanted_prop_state_infos: final(self).wanted_prop_state_infos,
                ..*old(self)
            }),
            infos_view(final(self).prop_infos@) == infos_view(old(self).prop_infos@) + new_infos(*old(self), prop_name@, id),
            states_view(final(self).wanted_prop_state_infos@) == states_view(old(self).wanted_prop_state_infos@)
                + new_states(*old(self), prop_name@, id),
    {
        let prop_type = match find_value(&self.tables.types, prop_name) {
            Some(t) => t,
            None => {
                assert(infos_view(self.prop_infos@) =~= infos_view(old(self).prop_infos@) + new_infos(*old(self), prop_name@, id));
                assert(states_view(self.wanted_prop_state_infos@) =~= states_view(old(self).wanted_prop_state_infos@) + new_states(*old(self), prop_name@, id));
                return;
            },
        };
        let ghost infos0 = infos_view(self.prop_infos@);
        if names_contain(&self.wanted_player_props, prop_name) {
            let info = PropInfo {
                id,
                prop_type,
                prop_name: prop_name.to_owned(),
                prop_friendly_name: self.get_friendly_name(prop_name),
                is_player_prop: true,
            };
            self.prop_infos.push(info);
        }
        let ghost infos1 = infos_view(self.prop_infos@);
        if names_contain(&self.wanted_other_props, prop_name) {
            let info = PropInfo {
                id,
                prop_type,
                prop_name: prop_name.to_owned(),
                prop_friendly_name: self.get_friendly_name(prop_name),
                is_player_prop: false,
            };
            self.prop_infos.push(info);
        }
        assert(infos_view(self.prop_infos@) =~= infos_view(old(self).prop_infos@) + new_infos(*old(self), prop_name@, id));
        proof {
            lemma_first_index(self.wanted_prop_states@, prop_name@);
        }
        match find_index(&self.wanted_prop_states, prop_name) {
            Some(i) => {
                let state = clone_variant(&self.wanted_prop_states[i].1);
                let info = WantedPropStateInfo {
                    base: PropInfo {
                        id,
                        prop_type,
                        prop_name: prop_name.to_owned(),
                        prop_friendly_name: self.get_friendly_name(prop_name),
                        is_player_prop: true,
                    },
                    wanted_prop_state: state,
                };
                let ghost before = self.wanted_prop_state_infos@;
                self.wanted_prop_state_infos.push(info);
                assert(states_view(self.wanted_prop_state_infos@) =~= states_view(before).push(state_view(info)));
                assert(first_value(self.tables.types@, prop_name@) == Some(prop_type));
            },
            None => {},
        }
        assert(states_view(self.wanted_prop_state_infos@) =~= states_view(old(self).wanted_prop_state_infos@)
            + new_states(*old(self), prop_name@, id));
    }
}

/// `after` is controller `c` once property `name`, not yet known, got the
/// next id: the id is recorded both ways, described, and noted when it is
/// special.
pub open spec fn id_given(c: PropController, name: Seq<char>, is_grenade_or_weapon: bool, after: PropController) -> bool {
    &&& after == (PropController {
        id: after.id,
        name_to_id: after.name_to_id,
        id_to_name: after.id_to_name,
        prop_infos: after.prop_infos,
        wanted_prop_state_infos: after.wanted_prop_state_infos,
        special_ids: after.special_ids,
        ..c
    })
    &&& after.id == (if c.id == u32::MAX { 0 } else { c.id + 1 })
    &&& names_view(after.name_to_id@) == names_view(c.name_to_id@).push((name, c.id))
    &&& ids_view(after.id_to_name@) == ids_view(c.id_to_name@).push((c.id, name))
    &&& infos_view(after.prop_infos@) == infos_view(c.prop_infos@) + new_infos(c, name, c.id)
    &&& states_view(after.wanted_prop_state_infos@) == states_view(c.wanted_prop_state_infos@) + new_states(c, name, c.id)
    &&& after.special_ids == special_after(c.special_ids, name, is_grenade_or_weapon, Some(c.id))
}

/// The id property `name` gets: the one it has, or the next one.
pub open spec fn id_for(c: PropController, name: Seq<char>) -> u32 {
    match first_value(c.name_to_id@, name) {
        Some(id) => id,
        None => c.id,
    }
}

/// `after` is controller `c` once property `name` has its id: unchanged
/// where it had one.
pub open spec fn id_settled(c: PropController, name: Seq<char>, is_grenade_or_weapon: bool, after: PropController) -> bool {
    match first_value(c.name_to_id@, name) {
        Some(_) => after == c,
        None => id_given(c, name, is_grenade_or_weapon, after),
    }
}

impl PropController {
    /// Gives field `f` the id of property `prop_name`: the one it has, or
    /// the next id, which is then recorded.
    pub fn set_id(&mut self, prop_name: &str, f: &mut ValueField, is_grenade_or_weapon: bool)
        ensures
            *final(f) == (ValueField { prop_id: id_for(*old(self), prop_name@), ..*old(f) }),
            id_settled(*old(self), prop_name@, is_grenade_or_weapon, *final(self)),
    {
        match find_value(&self.name_to_id, prop_name) {
            Some(id) => {
                f.prop_id = id;
                return;
            },
            None => {},
        }
        let id = self.id;
        f.prop_id = id;
        self.name_to_id.push((prop_name.to_owned(), id));
        self.id_to_name.push((id, prop_name.to_owned()));
        let ghost mid = *self;
        self.insert_propinfo(prop_name, id);
        assert(new_infos(mid, prop_name@, id) == new_infos(*old(self), prop_name@, id));
        assert(new_states(mid, prop_name@, id) == new_states(*old(self), prop_name@, id));
        set_special_ids(&mut self.special_ids, prop_name, is_grenade_or_weapon, Some(id));
        self.id = self.id.wrapping_add(1);
        assert(names_view(self.name_to_id@) =~= names_view(old(self).name_to_id@).push((prop_name@, old(self).id)));
        assert(ids_view(self.id_to_name@) =~= ids_view(old(self).id_to_name@).push((old(self).id, prop_name@)));
    }
}

/// The position of the first `.` in `s`.
pub open spec fn dot_index(s: Seq<char>) -> Option<int>
    decreases s.len(),
{
    if s.len() == 0 {
        None
    } else if s[0] == '.' {
        Some(0)
    } else {
        match dot_index(s.drop_first()) {
            Some(i) => Some(i + 1),
            None => None,
        }
    }
}

/// The part of a dotted name before its first `.`.
pub open spec fn head_part(s: Seq<char>) -> Seq<char> {
    match dot_index(s) {
        Some(i) => s.take(i),
        None => s,
    }
}

/// The part of a dotted name after its first `.`.
pub open spec fn tail_part(s: Seq<char>) -> Seq<char> {
    match dot_index(s) {
        Some(i) => s.skip(i + 1),
        None => Seq::empty(),
    }
}

/// The first `.` found is a `.`, with none before it.
proof fn lemma_dot_index(s: Seq<char>)
    ensures
        match dot_index(s) {
            Some(i) => 0 <= i < s.len() && s[i] == '.' && forall|j: int| 0 <= j < i ==> #[trigger] s[j] != '.',
            None => forall|j: int| 0 <= j < s.len() ==> #[trigger] s[j] != '.',
        },
    decreases s.len(),
{
    if s.len() > 0 {
        lemma_dot_index(s.drop_first());
        assert forall|j: int| 1 <= j < s.len() implies #[trigger] s[j] == s.drop_first()[j - 1] by {}
    }
}

/// The two parts of a dotted name around its first `.`.
pub fn split_first_dot(s: &str) -> (r: (String, String))
    ensures
        r.0@ == head_part(s@),
        r.1@ == tail_part(s@),
{
    proof {
        lemma_dot_index(s@);
    }
    let n = s.unicode_len();
    let mut i: usize = 0;
    while i < n
        invariant
            n == s@.len(),
            i <= n,
            forall|j: int| 0 <= j < i ==> #[trigger] s@[j] != '.',
            match dot_index(s@) {
                Some(k) => 0 <= k < s@.len() && s@[k] == '.' && forall|j: int| 0 <= j < k ==> #[trigger] s@[j] != '.',
                None => forall|j: int| 0 <= j < s@.len() ==> #[trigger] s@[j] != '.',
            },
        decreases n - i,
    {
        if s.get_char(i) == '.' {
            let head = s.substring_char(0, i).to_owned();
            let tail = s.substring_char(i + 1, n).to_owned();
            assert(s@.skip(i + 1) =~= s@.subrange(i + 1, n as int));
            return (head, tail);
        }
        i += 1;
    }
    assert(s@.take(n as int) =~= s@);
    (s.to_owned(), String::new())
}

/// The full name of a value field inside serializer `ser_name`.
pub open spec fn full_name(ser_name: Seq<char>, name: Seq<char>) -> Seq<char> {
    ser_name + "."@ + name
}

/// A class name belongs to players: it contains "Player".
pub open spec fn is_player_class(p: Seq<char>) -> bool {
    contains_seq(p, "Player"@)
}

/// A class name belongs to weapons.
pub open spec fn is_weapon_class(p: Seq<char>) -> bool {
    (!is_player_class(p) && (contains_seq(p, "AK"@) || contains_seq(p, "Weapon"@)))
        || contains_seq(p, "C4"@) || contains_seq(p, "Inc"@) || contains_seq(p, "Molo"@)
        || contains_seq(p, "Knife"@) || contains_seq(p, "Infer"@) || contains_seq(p, "CDEagle"@)
}

/// A class name belongs to grenades and other projectiles.
pub open spec fn is_projectile_class(p: Seq<char>) -> bool {
    !is_player_class(p) && (contains_seq(p, "Flash"@) || contains_seq(p, "Grenade"@) || contains_seq(p, "Projectile"@))
}

/// Properties of weapons and grenades are shared by all their classes.
pub open spec fn is_grenade_or_weapon_name(full: Seq<char>) -> bool {
    is_weapon_class(head_part(full)) || is_projectile_class(head_part(full))
}

/// The name a property is known by: without its class for weapons and
/// grenades, its full name otherwise.
pub open spec fn prop_name_of(full: Seq<char>) -> Seq<char> {
    if is_grenade_or_weapon_name(full) { tail_part(full) } else { full }
}

/// The id a property ends with: the vector props that are flattened get
/// their base ids, skin attributes the skin id, others keep `id`.
pub open spec fn final_prop_id(full: Seq<char>, prop_name: Seq<char>, id: u32) -> u32 {
    if full == "CCSPlayerPawn.CCSPlayer_WeaponServices.m_hMyWeapons"@ {
        MY_WEAPONS_OFFSET
    } else if full == "CCSPlayerPawn.CCSPlayer_ActionTrackingServices.WeaponPurchaseCount_t.m_nCount"@ {
        ITEM_PURCHASE_COUNT
    } else if full == "CCSPlayerPawn.CCSPlayer_ActionTrackingServices.WeaponPurchaseCount_t.m_nItemDefIndex"@ {
        ITEM_PURCHASE_NEW_DEF_IDX
    } else if full == "CCSPlayerPawn.CCSPlayer_BuyServices.SellbackPurchaseEntry_t.m_unDefIdx"@ {
        ITEM_PURCHASE_DEF_IDX
    } else if full == "CCSPlayerPawn.CCSPlayer_BuyServices.SellbackPurchaseEntry_t.m_nCost"@ {
        ITEM_PURCHASE_COST
    } else if full == "CCSPlayerPawn.CCSPlayer_BuyServices.SellbackPurchaseEntry_t.m_hItem"@ {
        ITEM_PURCHASE_HANDLE
    } else if contains_seq(prop_name, "CEconItemAttribute.m_iRawValue32"@) {
        WEAPON_SKIN_ID
    } else {
        id
    }
}

/// `after` is value field `f` of serializer `ser_name` once handled: marked
/// for parsing and given its property's id, adjusted as `final_prop_id`
/// says, with `c` the controller before.
pub open spec fn value_handled(c: PropController, ser_name: Seq<char>, f: ValueField, after: ValueField) -> bool {
    let full = full_name(ser_name, f.name@);
    let pn = prop_name_of(full);
    after == (ValueField { should_parse: true, prop_id: final_prop_id(full, pn, id_for(c, pn)), ..f })
}

/// `after` is controller `c` once value field `f` of serializer `ser_name`
/// is handled.
pub open spec fn controller_handled(c: PropController, ser_name: Seq<char>, f: ValueField, after: PropController) -> bool {
    let full = full_name(ser_name, f.name@);
    id_settled(c, prop_name_of(full), is_grenade_or_weapon_name(full), after)
}

impl PropController {
    /// Marks value field `f` of serializer `ser_name` for parsing and gives
    /// it the id of the property it is.
    pub fn handle_prop(&mut self, ser_name: &str, f: &mut ValueField)
        ensures
            value_handled(*old(self), ser_name@, *old(f), *final(f)),
            controller_handled(*old(self), ser_name@, *old(f), *final(self)),
    {
        f.should_parse = true;
        let full = concat_str(concat_str(ser_name, ".").as_str(), f.name.as_str());
        assert(full@ == full_name(ser_name@, old(f).name@));
        let (head, tail) = split_first_dot(full.as_str());
        let p0 = head.as_str();
        let is_player = str_contains(p0, "Player");
        let is_weapon_prop = (!is_player && (str_contains(p0, "AK") || str_contains(p0, "Weapon")))
            || str_contains(p0, "C4") || str_contains(p0, "Inc") || str_contains(p0, "Molo")
            || str_contains(p0, "Knife") || str_contains(p0, "Infer") || str_contains(p0, "CDEagle");
        let is_projectile_prop = !is_player
            && (str_contains(p0, "Flash") || str_contains(p0, "Grenade") || str_contains(p0, "Projectile"));
        let is_grenade_or_weapon = is_weapon_prop || is_projectile_prop;
        let prop_name = if is_grenade_or_weapon { tail } else { full.clone() };
        let ghost f1 = *f;
        self.set_id(prop_name.as_str(), f, is_grenade_or_weapon);
        let full_s = full.as_str();
        if str_eq(full_s, "CCSPlayerPawn.CCSPlayer_WeaponServices.m_hMyWeapons") {
            f.prop_id = MY_WEAPONS_OFFSET;
        } else if str_eq(full_s, "CCSPlayerPawn.CCSPlayer_ActionTrackingServices.WeaponPurchaseCount_t.m_nCount") {
            f.prop_id = ITEM_PURCHASE_COUNT;
        } else if str_eq(full_s, "CCSPlayerPawn.CCSPlayer_ActionTrackingServices.WeaponPurchaseCount_t.m_nItemDefIndex") {
            f.prop_id = ITEM_PURCHASE_NEW_DEF_IDX;
        } else if str_eq(full_s, "CCSPlayerPawn.CCSPlayer_BuyServices.SellbackPurchaseEntry_t.m_unDefIdx") {
            f.prop_id = ITEM_PURCHASE_DEF_IDX;
        } else if str_eq(full_s, "CCSPlayerPawn.CCSPlayer_BuyServices.SellbackPurchaseEntry_t.m_nCost") {
            f.prop_id = ITEM_PURCHASE_COST;
        } else if str_eq(full_s, "CCSPlayerPawn.CCSPlayer_BuyServices.SellbackPurchaseEntry_t.m_hItem") {
            f.prop_id = ITEM_PURCHASE_HANDLE;
        } else if str_contains(prop_name.as_str(), "CEconItemAttribute.m_iRawValue32") {
            f.prop_id = WEAPON_SKIN_ID;
        }
    }
}

/// The descriptions of the wanted buttons among `buttons`, numbered from
/// `base` in order.
pub open spec fn button_infos(buttons: Seq<String>, wanted: Seq<String>, base: u32) -> Seq<(u32, PropType, Seq<char>, Seq<char>, bool)>
    decreases buttons.len(),
{
    if buttons.len() == 0 {
        Seq::empty()
    } else {
        let r = button_infos(buttons.drop_last(), wanted, base);
        let b = buttons.last()@;
        if has_name(wanted, b) {
            r.push(info_of((base + r.len()) as u32, PropType::Button, b, b, true))
        } else {
            r
        }
    }
}

/// The wanted states of the buttons among `buttons` that have one,
/// numbered from `base` in order.
pub open spec fn button_states(buttons: Seq<String>, states: Seq<(String, Variant)>, base: u32) -> Seq<((u32, PropType, Seq<char>, Seq<char>, bool), (VarKind, Cell, bool, bool))>
    decreases buttons.len(),
{
    if buttons.len() == 0 {
        Seq::empty()
    } else {
        let r = button_states(buttons.drop_last(), states, base);
        let b = buttons.last()@;
        match first_index(states, b) {
            Some(k) => r.push((info_of((base + r.len()) as u32, PropType::Button, b, b, true), variant_view(states[k].1))),
            None => r,
        }
    }
}

/// The kind of a property, custom where the table does not know it.
pub open spec fn type_or_custom(c: PropController, name: Seq<char>) -> PropType {
    match first_value(c.tables.types@, name) {
        Some(t) => t,
        None => PropType::Custom,
    }
}

/// The descriptions of the wanted custom player properties among `customs`.
pub open spec fn custom_infos(customs: Seq<(String, u32)>, c: PropController) -> Seq<(u32, PropType, Seq<char>, Seq<char>, bool)>
    decreases customs.len(),
{
    if customs.len() == 0 {
        Seq::empty()
    } else {
        let r = custom_infos(customs.drop_last(), c);
        let (name, id) = (customs.last().0@, customs.last().1);
        if has_name(c.wanted_player_props@, name) {
            r.push(info_of(id, type_or_custom(c, name), friendly(c, name), name, true))
        } else {
            r
        }
    }
}

/// The wanted states of the custom player properties among `customs`.
pub open spec fn custom_states(customs: Seq<(String, u32)>, c: PropController) -> Seq<((u32, PropType, Seq<char>, Seq<char>, bool), (VarKind, Cell, bool, bool))>
    decreases customs.len(),
{
    if customs.len() == 0 {
        Seq::empty()
    } else {
        let r = custom_states(customs.drop_last(), c);
        let (name, id) = (customs.last().0@, customs.last().1);
        match first_index(c.wanted_prop_states@, name) {
            Some(k) => r.push((info_of(id, type_or_custom(c, name), friendly(c, name), name, true), variant_view(c.wanted_prop_states@[k].1))),
            None => r,
        }
    }
}

/// The descriptions of the game time (for players and for other entities
/// as they want it) and of tick, steamid and name, which are always
/// collected.
pub open spec fn fixed_infos(c: PropController) -> Seq<(u32, PropType, Seq<char>, Seq<char>, bool)> {
    (if has_name(c.wanted_player_props@, "game_time"@) {
        seq![info_of(GAME_TIME_ID, PropType::GameTime, "game_time"@, "game_time"@, true)]
    } else {
        Seq::empty()
    }) + (if has_name(c.wanted_other_props@, "game_time"@) {
        seq![info_of(GAME_TIME_ID, PropType::GameTime, "game_time"@, "game_time"@, false)]
    } else {
        Seq::empty()
    }) + seq![
        info_of(TICK_ID, PropType::Tick, "tick"@, "tick"@, true),
        info_of(STEAMID_ID, PropType::Steamid, "steamid"@, "steamid"@, true),
        info_of(NAME_ID, PropType::Name, "name"@, "name"@, true),
    ]
}

/// The wanted state of the game time, where there is one.
pub open spec fn fixed_states(c: PropController) -> Seq<((u32, PropType, Seq<char>, Seq<char>, bool), (VarKind, Cell, bool, bool))> {
    match first_index(c.wanted_prop_states@, "game_time"@) {
        Some(k) => seq![(info_of(GAME_TIME_ID, PropType::GameTime, "game_time"@, "game_time"@, true), variant_view(c.wanted_prop_states@[k].1))],
        None => Seq::empty(),
    }
}

/// Each button adds at most one description.
proof fn lemma_button_infos_len(buttons: Seq<String>, wanted: Seq<String>, base: u32)
    ensures
        button_infos(buttons, wanted, base).len() <= buttons.len(),
    decreases buttons.len(),
{
    if buttons.len() > 0 {
        lemma_button_infos_len(buttons.drop_last(), wanted, base);
    }
}

/// Each button adds at most one wanted state.
proof fn lemma_button_states_len(buttons: Seq<String>, states: Seq<(String, Variant)>, base: u32)
    ensures
        button_states(buttons, states, base).len() <= buttons.len(),
    decreases buttons.len(),
{
    if buttons.len() > 0 {
        lemma_button_states_len(buttons.drop_last(), states, base);
    }
}

impl PropController {
    /// Describes the properties that are not read from the send tables: the
    /// wanted buttons, numbered from `BUTTONS_BASEID`, the wanted custom
    /// player properties, the game time, and tick, steamid and name.
    pub fn set_custom_propinfos(&mut self)
        requires
            old(self).tables.buttons@.len() + BUTTONS_BASEID <= u32::MAX,
        ensures
            *final(self) == (PropController {
                prop_infos: final(self).prop_infos,
                wanted_prop_state_infos: final(self).wanted_prop_state_infos,
                ..*old(self)
            }),
            infos_view(final(self).prop_infos@) == infos_view(old(self).prop_infos@)
                + button_infos(old(self).tables.buttons@, old(self).wanted_player_props@, BUTTONS_BASEID)
                + custom_infos(old(self).tables.custom_ids@, *old(self))
                + fixed_infos(*old(self)),
            states_view(final(self).wanted_prop_state_infos@) == states_view(old(self).wanted_prop_state_infos@)
                + button_states(old(self).tables.buttons@, old(self).wanted_prop_states@, BUTTONS_BASEID)
                + custom_states(old(self).tables.custom_ids@, *old(self))
                + fixed_states(*old(self)),
    {
        let ghost c0 = *self;
        let ghost infos0 = infos_view(self.prop_infos@);
        let ghost states0 = states_view(self.wanted_prop_state_infos@);
        let mut someid: u32 = BUTTONS_BASEID;
        let mut someid2: u32 = BUTTONS_BASEID;
        let mut i: usize = 0;
        assert(self.tables.buttons@.take(0) =~= Seq::<String>::empty());
        while i < self.tables.buttons.len()
            invariant
                i <= self.tables.buttons@.len(),
                self.tables.buttons@.len() + BUTTONS_BASEID <= u32::MAX,
                *self == (PropController { prop_infos: self.prop_infos, wanted_prop_state_infos: self.wanted_prop_state_infos, ..c0 }),
                infos_view(self.prop_infos@) == infos0 + button_infos(c0.tables.buttons@.take(i as int), c0.wanted_player_props@, BUTTONS_BASEID),
                states_view(self.wanted_prop_state_infos@) == states0 + button_states(c0.tables.buttons@.take(i as int), c0.wanted_prop_states@, BUTTONS_BASEID),
                someid == BUTTONS_BASEID + button_infos(c0.tables.buttons@.take(i as int), c0.wanted_player_props@, BUTTONS_BASEID).len(),
                someid2 == BUTTONS_BASEID + button_states(c0.tables.buttons@.take(i as int), c0.wanted_prop_states@, BUTTONS_BASEID).len(),
            decreases self.tables.buttons@.len() - i,
        {
            let ghost t0 = c0.tables.buttons@.take(i as int);
            let ghost t1 = c0.tables.buttons@.take(i + 1);
            assert(t1.drop_last() =~= t0);
            assert(t1.last() == c0.tables.buttons@[i as int]);
            proof {
                lemma_button_infos_len(t0, c0.wanted_player_props@, BUTTONS_BASEID);
                lemma_button_states_len(t0, c0.wanted_prop_states@, BUTTONS_BASEID);
                lemma_first_index(c0.wanted_prop_states@, c0.tables.buttons@[i as int]@);
            }
            let button_name = self.tables.buttons[i].clone();
            if names_contain(&self.wanted_player_props, button_name.as_str()) {
                let ghost before = self.prop_infos@;
                let info = PropInfo {
                    id: someid,
                    prop_type: PropType::Button,
                    prop_name: button_name.clone(),
                    prop_friendly_name: button_name.clone(),
                    is_player_prop: true,
                };
                self.prop_infos.push(info);
                assert(infos_view(self.prop_infos@) =~= infos_view(before).push(info_view(info)));
                someid += 1;
            }
            match find_index(&self.wanted_prop_states, button_name.as_str()) {
                Some(k) => {
                    let ghost before = self.wanted_prop_state_infos@;
                    let state = clone_variant(&self.wanted_prop_states[k].1);
                    let info = WantedPropStateInfo {
                        base: PropInfo {
                            id: someid2,
                            prop_type: PropType::Button,
                            prop_name: button_name.clone(),
                            prop_friendly_name: button_name.clone(),
                            is_player_prop: true,
                        },
                        wanted_prop_state: state,
                    };
                    self.wanted_prop_state_infos.push(info);
                    assert(states_view(self.wanted_prop_state_infos@) =~= states_view(before).push(state_view(info)));
                    someid2 += 1;
                },
                None => {},
            }
            i += 1;
        }
        assert(c0.tables.buttons@.take(c0.tables.buttons@.len() as int) =~= c0.tables.buttons@);
        let ghost infos1 = infos_view(self.prop_infos@);
        let ghost states1 = states_view(self.wanted_prop_state_infos@);
        let mut j: usize = 0;
        assert(c0.tables.custom_ids@.take(0) =~= Seq::<(String, u32)>::empty());
        while j < self.tables.custom_ids.len()
            invariant
                j <= self.tables.custom_ids@.len(),
                *self == (PropController { prop_infos: self.prop_infos, wanted_prop_state_infos: self.wanted_prop_state_infos, ..c0 }),
                infos_view(self.prop_infos@) == infos1 + custom_infos(c0.tables.custom_ids@.take(j as int), c0),
                states_view(self.wanted_prop_state_infos@) == states1 + custom_states(c0.tables.custom_ids@.take(j as int), c0),
            decreases self.tables.custom_ids@.len() - j,
        {
            let ghost t0 = c0.tables.custom_ids@.take(j as int);
            let ghost t1 = c0.tables.custom_ids@.take(j + 1);
            assert(t1.drop_last() =~= t0);
            assert(t1.last() == c0.tables.custom_ids@[j as int]);
            proof {
                lemma_first_index(c0.wanted_prop_states@, c0.tables.custom_ids@[j as int].0@);
            }
            let name = self.tables.custom_ids[j].0.clone();
            let id = self.tables.custom_ids[j].1;
            let prop_type = match find_value(&self.tables.types, name.as_str()) {
                Some(t) => t,
                None => PropType::Custom,
            };
            if names_contain(&self.wanted_player_props, name.as_str()) {
                let ghost before = self.prop_infos@;
                let info = PropInfo {
                    id,
                    prop_type,
                    prop_friendly_name: self.get_friendly_name(name.as_str()),
                    prop_name: name.clone(),
                    is_player_prop: true,
                };
                self.prop_infos.push(info);
                assert(infos_view(self.prop_infos@) =~= infos_view(before).push(info_view(info)));
            }
            match find_index(&self.wanted_prop_states, name.as_str()) {
                Some(k) => {
                    let ghost before = self.wanted_prop_state_infos@;
                    let state = clone_variant(&self.wanted_prop_states[k].1);
                    let info = WantedPropStateInfo {
                        base: PropInfo {
                            id,
                            prop_type,
                            prop_friendly_name: self.get_friendly_name(name.as_str()),
                            prop_name: name.clone(),
                            is_player_prop: true,
                        },
                        wanted_prop_state: state,
                    };
                    self.wanted_prop_state_infos.push(info);
                    assert(states_view(self.wanted_prop_state_infos@) =~= states_view(before).push(state_view(info)));
                },
                None => {},
            }
            j += 1;
        }
        assert(c0.tables.custom_ids@.take(c0.tables.custom_ids@.len() as int) =~= c0.tables.custom_ids@);
        let ghost infos2 = infos_view(self.prop_infos@);
        let ghost states2 = states_view(self.wanted_prop_state_infos@);
        if names_contain(&self.wanted_player_props, "game_time") {
            self.prop_infos.push(PropInfo {
                id: GAME_TIME_ID,
                prop_type: PropType::GameTime,
                prop_name: "game_time".to_owned(),
                prop_friendly_name: "game_time".to_owned(),
                is_player_prop: true,
            });
        }
        proof {
            lemma_first_index(c0.wanted_prop_states@, "game_time"@);
        }
        match find_index(&self.wanted_prop_states, "game_time") {
            Some(k) => {
                let state = clone_variant(&self.wanted_prop_states[k].1);
                self.wanted_prop_state_infos.push(WantedPropStateInfo {
                    base: PropInfo {
                        id: GAME_TIME_ID,
                        prop_type: PropType::GameTime,
                        prop_name: "game_time".to_owned(),
                        prop_friendly_name: "game_time".to_owned(),
                        is_player_prop: true,
                    },
                    wanted_prop_state: state,
                });
            },
            None => {},
        }
        assert(states_view(self.wanted_prop_state_infos@) =~= states2 + fixed_states(c0));
        if names_contain(&self.wanted_other_props, "game_time") {
            self.prop_infos.push(PropInfo {
                id: GAME_TIME_ID,
                prop_type: PropType::GameTime,
                prop_name: "game_time".to_owned(),
                prop_friendly_name: "game_time".to_owned(),
                is_player_prop: false,
            });
        }
        self.prop_infos.push(PropInfo {
            id: TICK_ID,
            prop_type: PropType::Tick,
            prop_name: "tick".to_owned(),
            prop_friendly_name: "tick".to_owned(),
            is_player_prop: true,
        });
        self.prop_infos.push(PropInfo {
            id: STEAMID_ID,
            prop_type: PropType::Steamid,
            prop_name: "steamid".to_owned(),
            prop_friendly_name: "steamid".to_owned(),
            is_player_prop: true,
        });
        self.prop_infos.push(PropInfo {
            id: NAME_ID,
            prop_type: PropType::Name,
            prop_name: "name".to_owned(),
            prop_friendly_name: "name".to_owned(),
            is_player_prop: true,
        });
        assert(infos_view(self.prop_infos@) =~= infos2 + fixed_infos(c0));
    }
}

/// The number of fields in a field and all it holds.
pub open spec fn field_size(f: Field) -> nat
    decreases f,
{
    match f {
        Field::Serializer(x) => 1 + fields_size(x.serializer.fields@),
        Field::Pointer(x) => 1 + fields_size(x.serializer.fields@),
        Field::Array(x) => 1 + field_size(*x.field_enum),
        Field::Vector(x) => 1 + field_size(*x.field_enum),
        _ => 1,
    }
}

/// The number of fields in a list of fields and all they hold.
pub open spec fn fields_size(s: Seq<Field>) -> nat
    decreases s,
{
    if s.len() == 0 {
        0
    } else {
        field_size(s.last()) + fields_size(s.drop_last())
    }
}

/// A field of a list is no larger than the list.
proof fn lemma_field_in_list(s: Seq<Field>, i: int)
    requires
        0 <= i < s.len(),
    ensures
        field_size(s[i]) <= fields_size(s),
    decreases s.len(),
{
    if i < s.len() - 1 {
        lemma_field_in_list(s.drop_last(), i);
    }
}

/// Changing value fields only keeps a list's size.
proof fn lemma_values_keep_size(a: Seq<Field>, b: Seq<Field>)
    requires
        a.len() == b.len(),
        forall|j: int| 0 <= j < a.len() ==> (#[trigger] a[j] is Value && b[j] is Value) || b[j] == a[j],
    ensures
        fields_size(a) == fields_size(b),
    decreases a.len(),
{
    if a.len() > 0 {
        assert forall|j: int| 0 <= j < a.len() - 1 implies (#[trigger] a.drop_last()[j] is Value && b.drop_last()[j] is Value)
            || b.drop_last()[j] == a.drop_last()[j] by {
            assert(a.drop_last()[j] == a[j]);
            assert(b.drop_last()[j] == b[j]);
        }
        lemma_values_keep_size(a.drop_last(), b.drop_last());
        assert(field_size(a.last()) == field_size(b.last())) by {
            assert(a[a.len() - 1] is Value && b[a.len() - 1] is Value || b[a.len() - 1] == a[a.len() - 1]);
        }
    }
}

/// `b` is value field `a` marked for parsing and given some id.
pub open spec fn marked(a: ValueField, b: ValueField) -> bool {
    b == (ValueField { should_parse: true, prop_id: b.prop_id, ..a })
}

/// `b` is field `a` after the traversal: every value field reached is
/// marked for parsing and given an id, and nothing else changes. Values
/// are reached in serializers and pointers, as the element of an array,
/// and as the element of a vector or in the serializer a vector holds.
pub open spec fn traversed(a: Field, b: Field) -> bool
    decreases a,
{
    match a {
        Field::Value(x) => b matches Field::Value(y) && marked(x, y),
        Field::Serializer(x) => match b {
            Field::Serializer(y) => {
                &&& y.serializer.name == x.serializer.name
                &&& y.serializer.fields@.len() == x.serializer.fields@.len()
                &&& forall|i: int| 0 <= i < x.serializer.fields@.len() ==> traversed(
                    #[trigger] x.serializer.fields@[i],
                    y.serializer.fields@[i],
                )
            },
            _ => false,
        },
        Field::Pointer(x) => match b {
            Field::Pointer(y) => {
                &&& y.decoder == x.decoder
                &&& y.serializer.name == x.serializer.name
                &&& y.serializer.fields@.len() == x.serializer.fields@.len()
                &&& forall|i: int| 0 <= i < x.serializer.fields@.len() ==> traversed(
                    #[trigger] x.serializer.fields@[i],
                    y.serializer.fields@[i],
                )
            },
            _ => false,
        },
        Field::Array(x) => match b {
            Field::Array(y) => y.length == x.length && match *x.field_enum {
                Field::Value(v) => *y.field_enum matches Field::Value(w) && marked(v, w),
                _ => *y.field_enum == *x.field_enum,
            },
            _ => false,
        },
        Field::Vector(x) => match b {
            Field::Vector(y) => y.decoder == x.decoder && match *x.field_enum {
                Field::Value(v) => *y.field_enum matches Field::Value(w) && marked(v, w),
                Field::Serializer(s) => match *y.field_enum {
                    Field::Serializer(t) => {
                        &&& t.serializer.name == s.serializer.name
                        &&& t.serializer.fields@.len() == s.serializer.fields@.len()
                        &&& forall|i: int| 0 <= i < s.serializer.fields@.len() ==> traversed(
                            #[trigger] s.serializer.fields@[i],
                            t.serializer.fields@[i],
                        )
                    },
                    _ => false,
                },
                _ => *y.field_enum == *x.field_enum,
            },
            _ => false,
        },
        Field::Empty => b is Empty,
    }
}

/// What a traversal leaves alone in the controller: what is wanted, the
/// names it reports and its tables.
pub open spec fn controller_kept(c: PropController, after: PropController) -> bool {
    &&& after.wanted_player_props == c.wanted_player_props
    &&& after.wanted_other_props == c.wanted_other_props
    &&& after.wanted_prop_states == c.wanted_prop_states
    &&& after.real_name_to_og_name == c.real_name_to_og_name
    &&& after.tables == c.tables
    &&& after.needs_velocity == c.needs_velocity
}

/// A value that is marked and then marked again is marked.
proof fn lemma_marked_twice(a: ValueField, b: ValueField, c: ValueField)
    requires
        marked(a, b),
        marked(b, c),
    ensures
        marked(a, c),
{
}

impl PropController {
    /// Handles every value field reached from `fields`, the fields of
    /// serializer `ser_name`; nested serializers are named by their path.
    pub fn traverse_fields(&mut self, fields: &mut Vec<Field>, ser_name: &str)
        ensures
            final(fields)@.len() == old(fields)@.len(),
            forall|i: int| 0 <= i < old(fields)@.len() ==> traversed(#[trigger] old(fields)@[i], final(fields)@[i]),
            controller_kept(*old(self), *final(self)),
        decreases fields_size(old(fields)@),
    {
        let ghost f0 = fields@;
        let mut i: usize = 0;
        while i < fields.len()
            invariant
                i <= fields@.len(),
                fields@.len() == f0.len(),
                f0 == old(fields)@,
                forall|j: int| 0 <= j < i ==> traversed(#[trigger] f0[j], fields@[j]),
                forall|j: int| i <= j < f0.len() ==> #[trigger] fields@[j] == f0[j],
                controller_kept(*old(self), *self),
            decreases f0.len() - i,
        {
            let ghost before = fields@;
            let ghost fi = f0[i as int];
            proof {
                lemma_field_in_list(f0, i as int);
            }
            let field = &mut fields[i];
            match field {
                Field::Value(f) => {
                    self.handle_prop(ser_name, f);
                    assert(traversed(fi, Field::Value(*f)));
                },
                Field::Serializer(f) => {
                    let name = concat_str(concat_str(ser_name, ".").as_str(), f.serializer.name.as_str());
                    self.traverse_fields(&mut f.serializer.fields, name.as_str());
                    assert(traversed(fi, Field::Serializer(*f)));
                },
                Field::Pointer(f) => {
                    let name = concat_str(concat_str(ser_name, ".").as_str(), f.serializer.name.as_str());
                    self.traverse_fields(&mut f.serializer.fields, name.as_str());
                    assert(traversed(fi, Field::Pointer(*f)));
                },
                Field::Array(f) => {
                    let reached = match &*f.field_enum {
                        Field::Value(_) => true,
                        _ => false,
                    };
                    if reached {
                        match &mut *f.field_enum {
                            Field::Value(v) => {
                                self.handle_prop(ser_name, v);
                            },
                            _ => {},
                        }
                    }
                    assert(traversed(fi, Field::Array(*f)));
                },
                Field::Vector(f) => {
                    assert(fi == Field::Vector(*f));
                    let reached = match &*f.field_enum {
                        Field::Value(_) => true,
                        Field::Serializer(_) => true,
                        _ => false,
                    };
                    if reached {
                    match &mut *f.field_enum {
                        Field::Value(v) => {
                            self.handle_prop(ser_name, v);
                            assert(traversed(fi, Field::Vector(*f)));
                        },
                        Field::Serializer(s) => {
                            assert(fi->Vector_0.field_enum == Box::new(Field::Serializer(*s)));
                            let ghost sv = Field::Serializer(*s);
                            let ghost s0 = s.serializer.fields@;
                            assert(field_size(sv) == 1 + fields_size(s0));
                            assert(field_size(fi) == 1 + field_size(sv));
                            let mut k: usize = 0;
                            while k < s.serializer.fields.len()
                                invariant
                                    k <= s.serializer.fields@.len(),
                                    s.serializer.fields@.len() == s0.len(),
                                    s.serializer.name == sv->Serializer_0.serializer.name,
                                    forall|j: int| 0 <= j < k ==> #[trigger] s.serializer.fields@[j] == (match s0[j] {
                                        Field::Value(_) => s.serializer.fields@[j],
                                        _ => s0[j],
                                    }),
                                    forall|j: int| 0 <= j < k ==> (#[trigger] s0[j] matches Field::Value(x)
                                        ==> s.serializer.fields@[j] matches Field::Value(y) && marked(x, y)),
                                    forall|j: int| k <= j < s0.len() ==> #[trigger] s.serializer.fields@[j] == s0[j],
                                    controller_kept(*old(self), *self),
                                decreases s0.len() - k,
                            {
                                let g = &mut s.serializer.fields[k];
                                match g {
                                    Field::Value(v) => {
                                        self.handle_prop(ser_name, v);
                                    },
                                    _ => {},
                                }
                                k += 1;
                            }
                            let ghost s1 = s.serializer.fields@;
                            proof {
                                assert forall|j: int| 0 <= j < s0.len() implies (#[trigger] s0[j] is Value && s1[j] is Value) || s1[j] == s0[j] by {
                                    if s0[j] is Value {
                                        assert(s0[j] matches Field::Value(x) ==> s1[j] matches Field::Value(y) && marked(x, y));
                                    }
                                }
                                lemma_values_keep_size(s0, s1);
                            }
                            let name = concat_str(concat_str(ser_name, ".").as_str(), s.serializer.name.as_str());
                            self.traverse_fields(&mut s.serializer.fields, name.as_str());
                            proof {
                                assert forall|j: int| 0 <= j < s0.len() implies traversed(#[trigger] s0[j], s.serializer.fields@[j]) by {
                                    assert(traversed(s1[j], s.serializer.fields@[j]));
                                    if let Field::Value(x) = s0[j] {
                                        let y = s1[j]->Value_0;
                                        let z = s.serializer.fields@[j]->Value_0;
                                        lemma_marked_twice(x, y, z);
                                    } else {
                                        assert(s1[j] == s0[j]);
                                    }
                                }
                            }
                            assert(traversed(sv, Field::Serializer(*s)));
                            assert(traversed(fi, Field::Vector(*f)));
                        },
                        _ => {},
                    }
                    } else {
                        assert(traversed(fi, Field::Vector(*f)));
                    }
                },
                Field::Empty => {},
            }
            proof {
                assert forall|j: int| 0 <= j < i + 1 implies traversed(#[trigger] f0[j], fields@[j]) by {
                    if j < i {
                        assert(fields@[j] == before[j]);
                    }
                }
                assert forall|j: int| i + 1 <= j < f0.len() implies #[trigger] fields@[j] == f0[j] by {
                    assert(fields@[j] == before[j]);
                }
            }
            i += 1;
        }
    }

    /// Handles the value fields of serializer `ser`, named by its name.
    pub fn find_prop_name_paths(&mut self, ser: &mut Serializer)
        ensures
            final(ser).name == old(ser).name,
            final(ser).fields@.len() == old(ser).fields@.len(),
            forall|i: int| 0 <= i < old(ser).fields@.len() ==> traversed(#[trigger] old(ser).fields@[i], final(ser).fields@[i]),
            controller_kept(*old(self), *final(self)),
    {
        self.traverse_fields(&mut ser.fields, ser.name.as_str());
    }
}

} // verus!
