use vstd::prelude::*;
use crate::error::DemoParserError;
use crate::sendtables::Serializer;
use crate::strings::{str_eq, str_contains, contains_seq};
use crate::variants::{Variant, variant_view, clone_variant};
use crate::lookup::{first_index, find_index, lemma_first_index};

verus! {

/// An entity class: its id, name and serializer.
#[derive(Debug)]
pub struct Class {
    pub class_id: i32,
    pub name: String,
    pub serializer: Serializer,
}

/// What an entity is, as far as the parser cares.
#[derive(Debug, Clone, Copy, PartialEq, Eq, Structural)]
pub enum EntityType {
    PlayerController,
    Rules,
    Projectile,
    Team,
    Normal,
    C4,
}

/// The kind of entity a serializer named `name` makes.
pub open spec fn entity_type_of(name: Seq<char>) -> EntityType {
    if name == "CCSPlayerController"@ {
        EntityType::PlayerController
    } else if name == "CCSGameRulesProxy"@ {
        EntityType::Rules
    } else if name == "CCSTeam"@ {
        EntityType::Team
    } else if name == "CC4"@ {
        EntityType::C4
    } else if contains_seq(name, "Projectile"@) || name == "CIncendiaryGrenade"@ {
        EntityType::Projectile
    } else {
        EntityType::Normal
    }
}

/// Each special kind of entity is made by its own class: the player
/// controller, game rules, team and bomb classes by their names exactly, a
/// projectile by any other class whose name holds `Projectile` or by the
/// incendiary grenade; every other class is a normal entity.
pub proof fn law_entity_kinds_by_class(name: Seq<char>)
    ensures
        entity_type_of(name) == EntityType::PlayerController <==> name == "CCSPlayerController"@,
        entity_type_of(name) == EntityType::Rules <==> name == "CCSGameRulesProxy"@,
        entity_type_of(name) == EntityType::Team <==> name == "CCSTeam"@,
        entity_type_of(name) == EntityType::C4 <==> name == "CC4"@,
        entity_type_of(name) == EntityType::Projectile <==> (contains_seq(name, "Projectile"@) || name == "CIncendiaryGrenade"@)
            && name != "CCSPlayerController"@ && name != "CCSGameRulesProxy"@ && name != "CCSTeam"@ && name != "CC4"@,
        entity_type_of(name) == EntityType::Normal <==> !(contains_seq(name, "Projectile"@) || name == "CIncendiaryGrenade"@)
            && name != "CCSPlayerController"@ && name != "CCSGameRulesProxy"@ && name != "CCSTeam"@ && name != "CC4"@,
{
    reveal_strlit("CCSPlayerController");
    reveal_strlit("CCSGameRulesProxy");
    reveal_strlit("CCSTeam");
    reveal_strlit("CC4");
    assert("CCSPlayerController"@.len() == 19 && "CCSGameRulesProxy"@.len() == 17);
    assert("CCSTeam"@.len() == 7 && "CC4"@.len() == 3);
}

/// The kind of entity class `cls_id` makes, by its serializer's name; an
/// unknown class is `ClassNotFound`.
pub fn check_entity_type(serializer_by_cls_id: &[Serializer], cls_id: u32) -> (r: Result<EntityType, DemoParserError>)
    ensures
        (cls_id as usize) < serializer_by_cls_id@.len()
            ==> r == Ok::<EntityType, DemoParserError>(entity_type_of(serializer_by_cls_id@[(cls_id as usize) as int].name@)),
        (cls_id as usize) >= serializer_by_cls_id@.len() ==> r == Err::<EntityType, DemoParserError>(DemoParserError::ClassNotFound),
{
    let i = cls_id as usize;
    if i >= serializer_by_cls_id.len() {
        return Err(DemoParserError::ClassNotFound);
    }
    let name = serializer_by_cls_id[i].name.as_str();
    if str_eq(name, "CCSPlayerController") {
        Ok(EntityType::PlayerController)
    } else if str_eq(name, "CCSGameRulesProxy") {
        Ok(EntityType::Rules)
    } else if str_eq(name, "CCSTeam") {
        Ok(EntityType::Team)
    } else if str_eq(name, "CC4") {
        Ok(EntityType::C4)
    } else if str_contains(name, "Projectile") || str_eq(name, "CIncendiaryGrenade") {
        Ok(EntityType::Projectile)
    } else {
        Ok(EntityType::Normal)
    }
}

/// What is known of a player.
#[derive(Debug)]
pub struct PlayerMetaData {
    pub player_entity_id: Option<i32>,
    pub steamid: Option<u64>,
    pub controller_entid: Option<i32>,
    pub name: Option<String>,
    pub team_num: Option<u32>,
}

/// The entity ids of the three teams.
#[derive(Debug, Clone, Copy, PartialEq, Eq, Structural)]
pub struct Teams {
    pub team1_entid: Option<i32>,
    pub team2_entid: Option<i32>,
    pub team3_entid: Option<i32>,
}

impl Default for Teams {
    /// No team known.
    fn default() -> (r: Teams)
        ensures
            r.team1_entid is None && r.team2_entid is None && r.team3_entid is None,
    {
        Teams { team1_entid: None, team2_entid: None, team3_entid: None }
    }
}

/// An item as the item-preview message describes it.
#[derive(Debug)]
pub struct EconItemPreview {
    pub accountid: Option<u32>,
    pub itemid: Option<u64>,
    pub defindex: Option<u32>,
    pub paintindex: Option<u32>,
    pub rarity: Option<u32>,
    pub quality: Option<u32>,
    pub paintwear: Option<u32>,
    pub paintseed: Option<u32>,
    pub questid: Option<u32>,
    pub dropreason: Option<u32>,
    pub customname: Option<String>,
    pub inventory: Option<u32>,
    pub entindex: Option<i32>,
}

/// An item, with the names of its weapon and skin.
#[derive(Debug)]
pub struct EconItem {
    pub account_id: Option<u32>,
    pub item_id: Option<u64>,
    pub def_index: Option<u32>,
    pub paint_index: Option<u32>,
    pub rarity: Option<u32>,
    pub quality: Option<u32>,
    pub paint_wear: Option<u32>,
    pub paint_seed: Option<u32>,
    pub quest_id: Option<u32>,
    pub dropreason: Option<u32>,
    pub custom_name: Option<String>,
    pub inventory: Option<u32>,
    pub ent_idx: Option<i32>,
    pub steamid: Option<u64>,
    pub item_name: Option<String>,
    pub skin_name: Option<String>,
}

/// The name a table gives number `k`: the first entry for it.
pub open spec fn name_for(table: Seq<(u32, String)>, k: u32) -> Option<Seq<char>>
    decreases table.len(),
{
    if table.len() == 0 {
        None
    } else if table[0].0 == k {
        Some(table[0].1@)
    } else {
        name_for(table.drop_first(), k)
    }
}

/// The name a table gives number `k`.
pub fn lookup_name(table: &Vec<(u32, String)>, k: u32) -> (r: Option<String>)
    ensures
        match name_for(table@, k) {
            Some(n) => r matches Some(s) && s@ == n,
            None => r is None,
        },
{
    let mut i: usize = 0;
    assert(table@.skip(0) =~= table@);
    while i < table.len()
        invariant
            i <= table@.len(),
            name_for(table@, k) == name_for(table@.skip(i as int), k),
        decreases table@.len() - i,
    {
        assert(table@.skip(i as int)[0] == table@[i as int]);
        if table[i].0 == k {
            return Some(table[i].1.clone());
        }
        assert(table@.skip(i as int).drop_first() =~= table@.skip(i + 1));
        i += 1;
    }
    None
}

/// A copy of an optional text.
fn copy_opt_string(s: &Option<String>) -> (r: Option<String>)
    ensures
        match *s {
            Some(a) => r matches Some(b) && b@ == a@,
            None => r is None,
        },
{
    match s {
        Some(a) => Some(a.clone()),
        None => None,
    }
}

/// The item that preview `input` describes, owned by `steamid`; the names
/// of its weapon and skin come from the two tables.
pub fn create_econ_item(input: &EconItemPreview, steamid: Option<u64>, weapon_names: &Vec<(u32, String)>, paint_kits: &Vec<(u32, String)>) -> (r: EconItem)
    ensures
        r.account_id == input.accountid,
        r.item_id == input.itemid,
        r.def_index == input.defindex,
        r.paint_index == input.paintindex,
        r.rarity == input.rarity,
        r.quality == input.quality,
        r.paint_seed == input.paintseed,
        r.paint_wear == input.paintwear,
        r.quest_id == input.questid,
        r.dropreason == input.dropreason,
        r.inventory == input.inventory,
        r.ent_idx == input.entindex,
        r.steamid == steamid,
        match input.customname {
            Some(a) => r.custom_name matches Some(b) && b@ == a@,
            None => r.custom_name is None,
        },
        match input.defindex {
            Some(k) => match name_for(weapon_names@, k) {
                Some(n) => r.item_name matches Some(s) && s@ == n,
                None => r.item_name is None,
            },
            None => r.item_name is None,
        },
        match input.paintindex {
            Some(k) => match name_for(paint_kits@, k) {
                Some(n) => r.skin_name matches Some(s) && s@ == n,
                None => r.skin_name is None,
            },
            None => r.skin_name is None,
        },
{
    let item_name = match input.defindex {
        Some(idx) => lookup_name(weapon_names, idx),
        None => None,
    };
    let skin_name = match input.paintindex {
        Some(idx) => lookup_name(paint_kits, idx),
        None => None,
    };
    EconItem {
        account_id: input.accountid,
        item_id: input.itemid,
        def_index: input.defindex,
        paint_index: input.paintindex,
        rarity: input.rarity,
        quality: input.quality,
        paint_seed: input.paintseed,
        paint_wear: input.paintwear,
        quest_id: input.questid,
        dropreason: input.dropreason,
        custom_name: copy_opt_string(&input.customname),
        inventory: input.inventory,
        ent_idx: input.entindex,
        steamid,
        item_name,
        skin_name,
    }
}

/// What is known of a player at the end of a match.
#[derive(Debug)]
pub struct PlayerEndMetaData {
    pub steamid: Option<u64>,
    pub name: Option<String>,
    pub team_number: Option<i32>,
}

/// Why a round was won, as the game numbers it.
#[derive(Debug, Clone, Copy, PartialEq, Eq, Structural)]
pub struct RoundWinReason {
    pub reason: i32,
}

/// An item bought by a player.
#[derive(Debug)]
pub struct PurchaseEvent {
    pub entid: i32,
    pub cost: i32,
    pub name: Option<String>,
    pub weapon_entid: i32,
    pub inventory_slot: u32,
}

/// An axis of a position.
#[derive(Debug, Clone, Copy, PartialEq, Eq, Structural)]
pub enum CoordinateAxis {
    X,
    Y,
    Z,
}

/// Why a position could not be worked out.
#[derive(Debug, Clone, Copy, PartialEq, Eq, Structural)]
pub enum PropCollectionError {
    PlayerSpecialIDCellXMissing,
    PlayerSpecialIDCellYMissing,
    PlayerSpecialIDCellZMissing,
    PlayerSpecialIDOffsetXMissing,
    PlayerSpecialIDOffsetYMissing,
    PlayerSpecialIDOffsetZMissing,
    GrenadeSpecialIDCellXMissing,
    GrenadeSpecialIDCellYMissing,
    GrenadeSpecialIDCellZMissing,
    GrenadeSpecialIDOffsetXMissing,
    GrenadeSpecialIDOffsetYMissing,
    GrenadeSpecialIDOffsetZMissing,
    CoordinateOffsetNone,
    CoordinateCellNone,
    CoordinateIncorrectTypes,
    CoordinateBothNone,
    GrenadeOffsetVariantNone,
    PlayerMetaDataNameNone,
    ButtonsSpecialIDNone,
    ButtonsMapNoEntryFound,
    GetPropFromEntEntityNotFound,
    GetPropFromEntPropNotFound,
    ButtonMaskNotU64Variant,
    RulesEntityIdNotSet,
    ControllerEntityIdNotSet,
    SpecialidsEyeAnglesNotSet,
    SpecialidsItemDefNotSet,
    EyeAnglesWrongVariant,
    WeaponIdxMappingNotFound,
    WeaponDefVariantWrongType,
    SpecialidsPlayerTeamPointerNotSet,
    TeamNumIncorrectVariant,
    IllegalTeamValue,
    TeamEntityIdNotSet,
    GrenadeOwnerIdNotSet,
    GrenadeOwnerIdPropIncorrectVariant,
    PlayerNotFound,
    SpecialidsActiveWeaponNotSet,
    WeaponHandleIncorrectVariant,
    UnknownCustomPropName,
    UnknownCoordinateAxis,
    WeaponEntityNotFound,
    WeaponEntityWantedPropNotFound,
    WeaponSkinFloatConvertionError,
    WeaponSkinNoSkinMapping,
    WeaponSkinIdxIncorrectVariant,
    OriginalOwnerXuidIdLowNotSet,
    OriginalOwnerXuidIdHighNotSet,
    OriginalOwnerXuidLowNotFound,
    OriginalOwnerXuidHighNotFound,
    OriginalOwnerXuidlowIncorrectVariant,
    OriginalOwnerXuidHighIncorrectVariant,
    SpottedIncorrectVariant,
    VelocityNotFound,
    AgentIdNotFound,
    AgentIncorrectVariant,
    AgentPropNotFound,
    AgentSpecialIdNotSet,
    UseridNotFound,
    InventoryMaxNotFound,
}

/// How a demo is split over threads.
#[derive(Debug, Clone, Copy, PartialEq, Eq, Structural)]
pub enum ParsingMode {
    ForceSingleThreaded,
    ForceRayonThreaded,
    ForceMultiThreaded,
    Normal,
}

/// One named value of a game event.
#[derive(Debug)]
pub struct EventField {
    pub name: String,
    pub data: Option<Variant>,
}

/// A game event: its name, values and tick.
#[derive(Debug)]
pub struct GameEvent {
    pub name: String,
    pub fields: Vec<EventField>,
    pub tick: i32,
}

/// The value of the first field named `name`, where it has one.
pub open spec fn field_value(fields: Seq<EventField>, name: Seq<char>) -> Option<Option<Variant>>
    decreases fields.len(),
{
    if fields.len() == 0 {
        None
    } else if fields[0].name@ == name {
        Some(fields[0].data)
    } else {
        field_value(fields.drop_first(), name)
    }
}

/// What a sold item is known by: tick, player and inventory slot.
#[derive(Debug, Clone, Copy, PartialEq, Eq, Structural)]
pub struct SellBackHelper {
    pub tick: i32,
    pub steamid: u64,
    pub inventory_slot: u32,
}

impl SellBackHelper {
    /// A copy of the value of the first field named `name`.
    pub fn extract_field(name: &str, fields: &Vec<EventField>) -> (r: Option<Variant>)
        ensures
            match field_value(fields@, name@) {
                Some(Some(v)) => r matches Some(w) && variant_view(w) == variant_view(v),
                _ => r is None,
            },
    {
        let mut i: usize = 0;
        assert(fields@.skip(0) =~= fields@);
        while i < fields.len()
            invariant
                i <= fields@.len(),
                field_value(fields@, name@) == field_value(fields@.skip(i as int), name@),
            decreases fields@.len() - i,
        {
            assert(fields@.skip(i as int)[0] == fields@[i as int]);
            if str_eq(fields[i].name.as_str(), name) {
                return match &fields[i].data {
                    Some(v) => Some(clone_variant(v)),
                    None => None,
                };
            }
            assert(fields@.skip(i as int).drop_first() =~= fields@.skip(i + 1));
            i += 1;
        }
        None
    }

    /// The sale an event describes: its "tick" (a 32-bit integer),
    /// "steamid" (a 64-bit unsigned integer) and "inventory_slot" (a 32-bit
    /// unsigned integer); `None` where one is missing or of another kind.
    pub fn from_event(event: &GameEvent) -> (r: Option<SellBackHelper>)
        ensures
            r == (match (field_value(event.fields@, "tick"@), field_value(event.fields@, "steamid"@),
                field_value(event.fields@, "inventory_slot"@)) {
                (Some(Some(Variant::I32(t))), Some(Some(Variant::U64(s))), Some(Some(Variant::U32(k)))) =>
                    Some(SellBackHelper { tick: t, steamid: s, inventory_slot: k }),
                _ => None,
            }),
    {
        let tick = match SellBackHelper::extract_field("tick", &event.fields) {
            Some(Variant::I32(t)) => t,
            _ => return None,
        };
        let steamid = match SellBackHelper::extract_field("steamid", &event.fields) {
            Some(Variant::U64(s)) => s,
            _ => return None,
        };
        let inventory_slot = match SellBackHelper::extract_field("inventory_slot", &event.fields) {
            Some(Variant::U32(k)) => k,
            _ => return None,
        };
        Some(SellBackHelper { tick, steamid, inventory_slot })
    }
}

/// The name each prop is asked for by: the table's entry for it; `None`
/// where some name has none.
pub open spec fn friendly_names(names: Seq<String>, table: Seq<(String, String)>) -> Option<Seq<Seq<char>>>
    decreases names.len(),
{
    if names.len() == 0 {
        Some(Seq::empty())
    } else {
        match (friendly_names(names.drop_last(), table), first_index(table, names.last()@)) {
            (Some(r), Some(i)) => Some(r.push(table[i].1@)),
            _ => None,
        }
    }
}

/// The name `name` is known by in `table`; a name it lacks is an unknown
/// prop name.
pub fn get_friendly_name(name: &String, table: &Vec<(String, String)>) -> (r: Result<String, DemoParserError>)
    ensures
        match first_index(table@, name@) {
            Some(i) => r matches Ok(s) && s@ == table@[i].1@,
            None => r matches Err(DemoParserError::UnknownPropName(s)) && s@ == name@,
        },
{
    proof {
        lemma_first_index(table@, name@);
    }
    match find_index(table, name.as_str()) {
        Some(i) => Ok(table[i].1.clone()),
        None => Err(DemoParserError::UnknownPropName(name.clone())),
    }
}

/// The names the props are known by, in order; the first name the table
/// lacks is an unknown prop name.
pub fn rm_user_friendly_names(names: &Vec<String>, table: &Vec<(String, String)>) -> (r: Result<Vec<String>, DemoParserError>)
    ensures
        match friendly_names(names@, table@) {
            Some(v) => r matches Ok(out) && out@.map_values(|s: String| s@) == v,
            None => r matches Err(DemoParserError::UnknownPropName(m)) && exists|j: int| 0 <= j < names@.len()
                && m@ == names@[j]@ && first_index(table@, names@[j]@) is None
                && forall|k: int| 0 <= k < j ==> #[trigger] first_index(table@, names@[k]@) is Some,
        },
{
    let mut out: Vec<String> = Vec::new();
    let mut i: usize = 0;
    assert(names@.take(0) =~= Seq::<String>::empty());
    assert(out@.map_values(|s: String| s@) =~= Seq::<Seq<char>>::empty());
    while i < names.len()
        invariant
            i <= names@.len(),
            friendly_names(names@.take(i as int), table@) == Some(out@.map_values(|s: String| s@)),
        decreases names@.len() - i,
    {
        assert(names@.take(i + 1).drop_last() =~= names@.take(i as int));
        let ghost before = out@;
        match get_friendly_name(&names[i], table) {
            Ok(s) => {
                out.push(s);
                assert(out@.map_values(|s: String| s@) =~= before.map_values(|s: String| s@).push(out@.last()@));
            },
            Err(e) => {
                proof {
                    lemma_friendly_names_stop(names@, table@, i as int);
                    lemma_friendly_names_known(names@.take(i as int), table@);
                    assert forall|k: int| 0 <= k < i implies #[trigger] first_index(table@, names@[k]@) is Some by {
                        assert(names@.take(i as int)[k] == names@[k]);
                    }
                }
                return Err(e);
            },
        }
        i += 1;
    }
    assert(names@.take(names@.len() as int) =~= names@);
    Ok(out)
}

/// Where every name is known, each name is.
proof fn lemma_friendly_names_known(names: Seq<String>, table: Seq<(String, String)>)
    requires
        friendly_names(names, table) is Some,
    ensures
        forall|k: int| 0 <= k < names.len() ==> #[trigger] first_index(table, names[k]@) is Some,
    decreases names.len(),
{
    if names.len() > 0 {
        lemma_friendly_names_known(names.drop_last(), table);
        assert forall|k: int| 0 <= k < names.len() implies #[trigger] first_index(table, names[k]@) is Some by {
            if k < names.len() - 1 {
                assert(names.drop_last()[k] == names[k]);
            }
        }
    }
}

/// Once a name is missing, every longer list fails.
proof fn lemma_friendly_names_stop(names: Seq<String>, table: Seq<(String, String)>, i: int)
    requires
        0 <= i < names.len(),
        first_index(table, names[i]@) is None,
    ensures
        friendly_names(names, table) is None,
    decreases names.len(),
{
    if i < names.len() - 1 {
        lemma_friendly_names_stop(names.drop_last(), table, i);
    }
}

} // verus!
