use std::collections::HashMap;

use demoparser::custom_events::{wants_event, EventContext, EventLog, SkinValues, TickExtras};
use demoparser::entity_state::{sticker_slot_ids, Entity, EntityState};
use demoparser::error::DemoParserError;
use demoparser::game_types::{EntityType, EventField, GameEvent, PlayerMetaData, PropCollectionError, RoundWinReason, Teams};
use demoparser::prop_controller::{PropInfo, PropType, SpecialIDs};
use demoparser::purchases::{GameEventInfo, RoundEnd};
use demoparser::variants::Variant;

fn entity(id: i32, kind: EntityType, props: Vec<(u32, Variant)>) -> Option<Entity> {
    let mut map = HashMap::new();
    for (k, v) in props {
        map.insert(k, v);
    }
    Some(Entity { cls_id: 0, entity_id: id, props: map, entity_type: kind })
}

fn player(pawn: i32, controller: i32, steamid: u64, name: &str) -> (i32, PlayerMetaData) {
    (
        pawn,
        PlayerMetaData {
            player_entity_id: Some(pawn),
            steamid: Some(steamid),
            controller_entid: Some(controller),
            name: Some(name.to_string()),
            team_num: Some(2),
        },
    )
}

const ACTIVE_WEAPON: u32 = 11;
const ITEM_DEF: u32 = 12;
const TEAM_POINTER: u32 = 13;
const OWNER: u32 = 14;
const LIFE: u32 = 15;
const ROUNDS: u32 = 16;
const BUY_ZONE: u32 = 17;
const SCORE: u32 = 18;

fn state() -> EntityState {
    let mut special = SpecialIDs::default();
    special.active_weapon = Some(ACTIVE_WEAPON);
    special.item_def = Some(ITEM_DEF);
    special.player_team_pointer = Some(TEAM_POINTER);
    special.grenade_owner_id = Some(OWNER);
    special.life_state = Some(LIFE);
    special.total_rounds_played = Some(ROUNDS);
    special.in_buy_zone = Some(BUY_ZONE);
    special.h_owner_entity = Some(OWNER);
    let mut entities: Vec<Option<Entity>> = (0..12).map(|_| None).collect();
    // pawn 3: holds weapon 5 (handle with high bits set), team 2, alive
    entities[3] = entity(
        3,
        EntityType::Normal,
        vec![
            (ACTIVE_WEAPON, Variant::U32(0x3805)),
            (TEAM_POINTER, Variant::U32(2)),
            (LIFE, Variant::U32(0)),
            (BUY_ZONE, Variant::Bool(true)),
            (400000001, Variant::I32(2700)),
            (600000001, Variant::U32(7)),
        ],
    );
    entities[5] = entity(5, EntityType::Normal, vec![(ITEM_DEF, Variant::U32(7)), (10000002, Variant::F32(0x3e800000))]);
    // grenade 6 thrown by pawn 3; bomb 9 carried by pawn 3
    entities[6] = entity(6, EntityType::Projectile, vec![(OWNER, Variant::U32(0x1003))]);
    entities[9] = entity(9, EntityType::C4, vec![(OWNER, Variant::U32(3))]);
    // team entity 10 and rules entity 11
    entities[10] = entity(10, EntityType::Team, vec![(SCORE, Variant::I32(13))]);
    entities[11] = entity(11, EntityType::Rules, vec![(ROUNDS, Variant::I32(4))]);
    EntityState {
        entities,
        players: vec![player(3, 1, 765, "bob")],
        teams: Teams { team1_entid: None, team2_entid: Some(10), team3_entid: None },
        special_ids: special,
        rules_entity_id: Some(11),
        c4_entity_id: Some(9),
        tick: 100,
    }
}

fn names() -> Vec<(u32, String)> {
    vec![(7, "ak47".to_string())]
}

fn context(wanted: &[&str]) -> EventContext {
    EventContext {
        wanted: wanted.iter().map(|s| s.to_string()).collect(),
        prop_infos: vec![PropInfo {
            id: SCORE,
            prop_type: PropType::Team,
            prop_friendly_name: "score".to_string(),
            prop_name: "CCSTeam.m_iScore".to_string(),
            is_player_prop: false,
        }],
        extras: TickExtras {
            user_props: vec![(3, vec![EventField { name: "user_health".to_string(), data: Some(Variant::I32(90)) }])],
            weapon_skins: vec![(5, SkinValues { skin: Some(Variant::String("Redline".to_string())), skin_id: None, stickers: None })],
            game_time: 0,
        },
        win_reasons: vec![(9, "t_killed".to_string())],
        winners: vec![(9, "T".to_string())],
        weapon_names: names(),
    }
}

fn field<'a>(e: &'a GameEvent, name: &str) -> Option<&'a Option<Variant>> {
    e.fields.iter().find(|f| f.name == name).map(|f| &f.data)
}

fn field_names(e: &GameEvent) -> Vec<String> {
    e.fields.iter().map(|f| f.name.clone()).collect()
}

fn new_log() -> EventLog {
    EventLog { events: Vec::new(), seen: Vec::new() }
}

#[test]
fn props_are_read_from_their_entity() {
    let s = state();
    assert!(matches!(s.get_prop_from_ent(TEAM_POINTER, 3), Ok(Variant::U32(2))));
    assert_eq!(s.get_prop_from_ent(SCORE, 3).unwrap_err(), PropCollectionError::GetPropFromEntPropNotFound);
    assert_eq!(s.get_prop_from_ent(SCORE, 4).unwrap_err(), PropCollectionError::GetPropFromEntEntityNotFound);
    assert_eq!(s.get_prop_from_ent(SCORE, 400).unwrap_err(), PropCollectionError::GetPropFromEntEntityNotFound);
    assert_eq!(s.get_prop_from_ent(SCORE, -1).unwrap_err(), PropCollectionError::GetPropFromEntEntityNotFound);
    assert!(s.get_prop_variant(None, 3).is_none());
    assert!(matches!(s.get_prop_variant(Some(LIFE), 3), Some(Variant::U32(0))));
}

#[test]
fn weapon_and_team_props_follow_the_pointers() {
    let s = state();
    assert!(matches!(s.find_weapon_prop(ITEM_DEF, 3), Ok(Variant::U32(7))));
    assert_eq!(s.find_weapon_prop(SCORE, 3).unwrap_err(), PropCollectionError::WeaponEntityWantedPropNotFound);
    assert_eq!(s.find_weapon_prop(ITEM_DEF, 5).unwrap_err(), PropCollectionError::GetPropFromEntPropNotFound);
    assert!(matches!(s.find_team_prop(SCORE, 3), Ok(Variant::I32(13))));
    match s.find_weapon_name(3, &names()) {
        Ok(Variant::String(n)) => assert_eq!(n, "ak47"),
        other => panic!("unexpected {:?}", other),
    }
    assert_eq!(s.find_weapon_name(3, &vec![]).unwrap_err(), PropCollectionError::WeaponIdxMappingNotFound);
    let mut no_pointer = state();
    no_pointer.special_ids.active_weapon = None;
    assert_eq!(no_pointer.find_weapon_prop(ITEM_DEF, 3).unwrap_err(), PropCollectionError::SpecialidsActiveWeaponNotSet);
}

#[test]
fn team_prop_of_an_unplaced_team_is_an_error() {
    let mut s = state();
    s.teams.team2_entid = None;
    assert_eq!(s.find_team_prop(SCORE, 3).unwrap_err(), PropCollectionError::TeamEntityIdNotSet);
    s.entities[3] = entity(3, EntityType::Normal, vec![(TEAM_POINTER, Variant::U32(7))]);
    assert_eq!(s.find_team_prop(SCORE, 3).unwrap_err(), PropCollectionError::IllegalTeamValue);
}

#[test]
fn grenade_owner_and_thrower() {
    let s = state();
    assert_eq!(s.find_owner_entid(6), Ok(3));
    assert_eq!(s.find_thrower_steamid(6), Ok(765));
    assert_eq!(s.find_thrower_name(6), Ok("bob".to_string()));
    assert_eq!(s.find_owner_entid(3), Err(PropCollectionError::GetPropFromEntPropNotFound));
    assert_eq!(s.find_c4_owner(), Some(3));
    assert!(s.find_is_alive(3));
    assert!(!s.find_is_alive(5));
}

#[test]
fn players_by_pawn_and_by_controller() {
    let s = state();
    assert_eq!(s.find_player_metadata(3).unwrap().steamid, Some(765));
    assert_eq!(s.find_player_metadata(4).unwrap_err(), PropCollectionError::PlayerNotFound);
    assert_eq!(s.find_user_by_controller_id(1).unwrap().player_entity_id, Some(3));
    assert!(s.find_user_by_controller_id(2).is_none());
    assert_eq!(s.steamids_from_mask(0b1), vec![765]);
    assert_eq!(s.steamids_from_mask(0b10), Vec::<u64>::new());
    assert!(matches!(s.create_name(&s.players[0].1), Ok(Variant::String(ref n)) if n == "bob"));
    assert!(matches!(s.create_steamid(&s.players[0].1), Ok(Variant::U64(765))));
}

#[test]
fn current_round_is_one_more_than_played() {
    let s = state();
    assert!(matches!(s.find_current_round(), Some(Variant::I32(5))));
    assert!(matches!(s.get_rules_prop(ROUNDS), Ok(Variant::I32(4))));
}

#[test]
fn controller_update_records_the_player() {
    let mut special = SpecialIDs::default();
    special.player_pawn = Some(1);
    special.steamid = Some(2);
    special.player_name = Some(3);
    let mut s = EntityState {
        entities: vec![
            None,
            entity(
                1,
                EntityType::PlayerController,
                vec![(1, Variant::U32(0x4004)), (2, Variant::U64(99)), (3, Variant::String("al".to_string()))],
            ),
        ],
        players: vec![],
        teams: Teams { team1_entid: None, team2_entid: None, team3_entid: None },
        special_ids: special,
        rules_entity_id: None,
        c4_entity_id: None,
        tick: 0,
    };
    assert_eq!(s.gather_extra_info(1, false), Ok(()));
    assert_eq!(s.players.len(), 1);
    assert_eq!(s.players[0].0, 4);
    assert_eq!(s.players[0].1.name.as_deref(), Some("al"));
    assert_eq!(s.gather_extra_info(0, false), Err(DemoParserError::EntityNotFound));
    assert_eq!(s.gather_extra_info(7, false), Err(DemoParserError::EntityNotFound));
}

#[test]
fn player_fields_and_empty_fields() {
    let s = state();
    let f = s.create_player_fields(3, "attacker");
    assert_eq!(f[0].name, "attacker_name");
    assert!(matches!(&f[0].data, Some(Variant::String(n)) if n == "bob"));
    assert_eq!(f[1].name, "attacker_steamid");
    assert!(matches!(&f[1].data, Some(Variant::String(n)) if n == "765"));
    let missing = s.create_player_fields(4, "user");
    assert!(missing[0].data.is_none() && missing[1].data.is_none());
    let infos = vec![
        PropInfo { id: 1, prop_type: PropType::Player, prop_friendly_name: "health".to_string(), prop_name: "m_iHealth".to_string(), is_player_prop: true },
        PropInfo { id: 2, prop_type: PropType::Tick, prop_friendly_name: "tick".to_string(), prop_name: "tick".to_string(), is_player_prop: true },
        PropInfo { id: 3, prop_type: PropType::Team, prop_friendly_name: "score".to_string(), prop_name: "m_iScore".to_string(), is_player_prop: false },
    ];
    let e = s.generate_empty_fields("user", &infos);
    let names: Vec<&str> = e.iter().map(|f| f.name.as_str()).collect();
    assert_eq!(names, vec!["user_steamid", "user_name", "user_health"]);
    assert!(e.iter().all(|f| f.data.is_none()));
}

#[test]
fn non_player_props_give_each_side_and_the_game_time() {
    let s = state();
    let mut infos = context(&[]).prop_infos;
    infos.push(PropInfo { id: ROUNDS, prop_type: PropType::Rules, prop_friendly_name: "rounds".to_string(), prop_name: "r".to_string(), is_player_prop: false });
    infos.push(PropInfo { id: 0, prop_type: PropType::GameTime, prop_friendly_name: "game_time".to_string(), prop_name: "game_time".to_string(), is_player_prop: false });
    let f = s.find_non_player_props(&infos, 0x40000000);
    let names: Vec<&str> = f.iter().map(|x| x.name.as_str()).collect();
    assert_eq!(names, vec!["t_score", "ct_score", "rounds", "game_time"]);
    assert!(matches!(f[0].data, Some(Variant::I32(13))));
    assert!(f[1].data.is_none());
    assert!(matches!(f[2].data, Some(Variant::I32(4))));
    assert!(matches!(f[3].data, Some(Variant::F32(0x40000000))));
}

#[test]
fn wanted_events_are_listed_or_all() {
    let w = vec!["round_end".to_string()];
    assert!(wants_event(&w, "round_end"));
    assert!(!wants_event(&w, "round_start"));
    assert!(wants_event(&vec!["all".to_string()], "round_start"));
    assert!(!wants_event(&vec![], "round_start"));
}

#[test]
fn round_end_event_when_the_counter_moves_by_one() {
    let s = state();
    let ctx = context(&["all"]);
    let mut log = new_log();
    let events = vec![
        GameEventInfo::RoundWinReason(RoundWinReason { reason: 9 }),
        GameEventInfo::RoundEnd(RoundEnd { old_value: Some(Variant::U32(3)), new_value: Some(Variant::U32(4)) }),
    ];
    assert_eq!(s.emit_events(&ctx, &events, &mut log), Ok(()));
    assert_eq!(log.events.len(), 1);
    let e = &log.events[0];
    assert_eq!(e.name, "round_end");
    assert_eq!(e.tick, 100);
    assert_eq!(field_names(e), vec!["round", "reason", "winner", "tick", "t_score", "ct_score"]);
    assert!(matches!(field(e, "round"), Some(Some(Variant::U32(4)))));
    assert!(matches!(field(e, "reason"), Some(Some(Variant::String(r))) if r == "t_killed"));
    assert!(matches!(field(e, "winner"), Some(Some(Variant::String(r))) if r == "T"));
    assert_eq!(log.seen, vec!["round_end".to_string()]);
}

#[test]
fn round_end_with_unknown_reason_writes_the_number() {
    let s = state();
    let ctx = context(&["round_end"]);
    let mut log = new_log();
    let events = vec![
        GameEventInfo::RoundEnd(RoundEnd { old_value: Some(Variant::U32(0)), new_value: Some(Variant::U32(1)) }),
        GameEventInfo::RoundWinReason(RoundWinReason { reason: -3 }),
    ];
    s.emit_events(&ctx, &events, &mut log).unwrap();
    assert!(matches!(field(&log.events[0], "reason"), Some(Some(Variant::String(r))) if r == "-3"));
    let jump = vec![GameEventInfo::RoundEnd(RoundEnd { old_value: Some(Variant::U32(0)), new_value: Some(Variant::U32(2)) })];
    let mut log2 = new_log();
    s.emit_events(&ctx, &jump, &mut log2).unwrap();
    assert!(log2.events.is_empty());
    assert_eq!(log2.seen, vec!["round_end".to_string()]);
}

#[test]
fn freeze_period_closes_the_round_and_starts_the_next() {
    let s = state();
    let ctx = context(&["all"]);
    let mut log = new_log();
    s.emit_events(&ctx, &vec![GameEventInfo::FreezePeriodStart(true)], &mut log).unwrap();
    let names: Vec<&str> = log.events.iter().map(|e| e.name.as_str()).collect();
    assert_eq!(names, vec!["round_officially_ended", "round_start"]);
    assert_eq!(field_names(&log.events[0]), vec!["t_score", "ct_score", "tick"]);
    assert!(matches!(field(&log.events[1], "round"), Some(Some(Variant::I32(5)))));
    // in the first round there is no previous round to close
    let mut first = state();
    first.entities[11] = entity(11, EntityType::Rules, vec![(ROUNDS, Variant::I32(0))]);
    let mut log2 = new_log();
    first.emit_events(&ctx, &vec![GameEventInfo::FreezePeriodStart(true)], &mut log2).unwrap();
    let names: Vec<&str> = log2.events.iter().map(|e| e.name.as_str()).collect();
    assert_eq!(names, vec!["round_start"]);
}

#[test]
fn unwanted_events_are_only_noted() {
    let s = state();
    let ctx = context(&["player_death"]);
    let mut log = new_log();
    s.emit_events(&ctx, &vec![GameEventInfo::MatchEnd()], &mut log).unwrap();
    assert!(log.events.is_empty());
    assert_eq!(log.seen, vec!["cs_win_panel_match".to_string()]);
}

#[test]
fn sale_event_for_a_purchase_count_back_to_zero() {
    let s = state();
    let ctx = context(&[]);
    let mut log = new_log();
    let events = vec![
        GameEventInfo::WeaponPurchaseCount((Variant::U32(0), 3, 200000001)),
        GameEventInfo::WeaponPurchaseCount((Variant::U32(1), 3, 200000001)),
        GameEventInfo::WeaponPurchaseCount((Variant::U32(0), 4, 200000001)),
    ];
    s.emit_events(&ctx, &events, &mut log).unwrap();
    assert_eq!(log.events.len(), 1);
    let e = &log.events[0];
    assert_eq!(e.name, "item_sold");
    assert_eq!(
        field_names(e),
        vec!["name", "steamid", "tick", "weapon_name", "cost", "inventory_slot", "user_health", "t_score", "ct_score"]
    );
    assert!(matches!(field(e, "weapon_name"), Some(Some(Variant::String(n))) if n == "ak47"));
    assert!(matches!(field(e, "cost"), Some(Some(Variant::I32(2700)))));
    assert!(matches!(field(e, "inventory_slot"), Some(Some(Variant::U32(1)))));
    assert!(matches!(field(e, "steamid"), Some(Some(Variant::U64(765)))));
    assert_eq!(log.seen, vec!["item_sold".to_string()]);
}

#[test]
fn purchase_event_in_the_buy_zone() {
    let s = state();
    let ctx = context(&["item_purchase"]);
    let mut log = new_log();
    let events = vec![
        GameEventInfo::WeaponCreateDefIdx((Variant::U32(7), 3, 300000002)),
        GameEventInfo::WeaponCreateNCost((Variant::I32(2700), 3)),
        GameEventInfo::WeaponCreateHitem((Variant::U64(0x805), 3)),
    ];
    s.emit_events(&ctx, &events, &mut log).unwrap();
    assert_eq!(log.events.len(), 1);
    let e = &log.events[0];
    assert_eq!(e.name, "item_purchase");
    assert_eq!(
        field_names(e),
        vec![
            "item_name", "name", "steamid", "inventory_slot", "cost", "tick", "float", "skin", "skin_id", "paint_seed",
            "stickers", "custom_name", "user_health", "t_score", "ct_score"
        ]
    );
    assert!(matches!(field(e, "item_name"), Some(Some(Variant::String(n))) if n == "ak47"));
    assert!(matches!(field(e, "float"), Some(Some(Variant::F32(0x3e800000)))));
    assert!(matches!(field(e, "skin"), Some(Some(Variant::String(n))) if n == "Redline"));
    assert!(matches!(field(e, "skin_id"), Some(None)));
    assert!(matches!(field(e, "inventory_slot"), Some(Some(Variant::U32(2)))));
    assert_eq!(log.seen, vec!["item_purchase".to_string()]);
}

#[test]
fn purchase_outside_the_buy_zone_makes_no_event() {
    let mut s = state();
    s.entities[3] = entity(3, EntityType::Normal, vec![(BUY_ZONE, Variant::Bool(false))]);
    let ctx = context(&["all"]);
    let mut log = new_log();
    let events = vec![
        GameEventInfo::WeaponCreateDefIdx((Variant::U32(7), 3, 300000002)),
        GameEventInfo::WeaponCreateNCost((Variant::I32(2700), 3)),
    ];
    s.emit_events(&ctx, &events, &mut log).unwrap();
    assert!(log.events.is_empty());
    assert_eq!(log.seen, vec!["item_purchase".to_string()]);
}

#[test]
fn active_weapon_is_the_handle_low_bits() {
    let s = state();
    assert_eq!(s.find_active_weapon(3), Ok(5));
    assert_eq!(s.find_active_weapon(5), Err(PropCollectionError::GetPropFromEntPropNotFound));
    assert_eq!(s.find_active_weapon(4), Err(PropCollectionError::GetPropFromEntEntityNotFound));
    let mut wrong = state();
    wrong.entities[3] = entity(3, EntityType::Normal, vec![(ACTIVE_WEAPON, Variant::I32(5))]);
    assert_eq!(wrong.find_active_weapon(3), Err(PropCollectionError::WeaponHandleIncorrectVariant));
    let mut no_pointer = state();
    no_pointer.special_ids.active_weapon = None;
    assert_eq!(no_pointer.find_active_weapon(3), Err(PropCollectionError::SpecialidsActiveWeaponNotSet));
}

#[test]
fn sticker_slots_follow_the_skin_ids() {
    let slots = sticker_slot_ids();
    assert_eq!(slots.len(), 6);
    assert_eq!(slots[0], (10000004, 10000005, 10000006, 10000007));
    assert_eq!(slots[5], (10000024, 10000025, 10000026, 10000027));
}
