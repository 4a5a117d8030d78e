use demoparser::error::DemoParserError;
use demoparser::game_types::{EntityType, EventField, GameEvent, PlayerMetaData, Teams};
use demoparser::packet::packet_messages;
use demoparser::player_meta::{gather_extra_info, ExtraProps};
use demoparser::purchases::{
    combine_purchase_events, contains_freeze_period_start, contains_match_end, contains_round_end_event,
    contains_weapon_create, GameEventInfo, RoundEnd,
};
use demoparser::sales::{add_item_purchase_sell_column, remove_item_sold_events};
use demoparser::variants::Variant;

struct BitWriter {
    bytes: Vec<u8>,
    n: usize,
}

impl BitWriter {
    fn new() -> BitWriter {
        BitWriter { bytes: Vec::new(), n: 0 }
    }
    fn bits(&mut self, v: u64, count: usize) {
        for i in 0..count {
            if self.n % 8 == 0 {
                self.bytes.push(0);
            }
            if (v >> i) & 1 == 1 {
                let last = self.bytes.len() - 1;
                self.bytes[last] |= 1 << (self.n % 8);
            }
            self.n += 1;
        }
    }
}

fn names() -> Vec<(u32, String)> {
    vec![(7, "ak47".to_string()), (9, "awp".to_string())]
}

fn def_idx(def: u32, entid: i32, slot: u32) -> GameEventInfo {
    GameEventInfo::WeaponCreateDefIdx((Variant::U32(def), entid, 300000000 + slot))
}

fn cost(c: i32, entid: i32) -> GameEventInfo {
    GameEventInfo::WeaponCreateNCost((Variant::I32(c), entid))
}

fn handle(h: u64, entid: i32) -> GameEventInfo {
    GameEventInfo::WeaponCreateHitem((Variant::U64(h), entid))
}

fn trade_event(name: &str, tick: i32, steamid: u64, slot: u32) -> GameEvent {
    GameEvent {
        name: name.to_string(),
        fields: vec![
            EventField { name: "tick".to_string(), data: Some(Variant::I32(tick)) },
            EventField { name: "steamid".to_string(), data: Some(Variant::U64(steamid)) },
            EventField { name: "inventory_slot".to_string(), data: Some(Variant::U32(slot)) },
        ],
        tick,
    }
}

fn was_sold_flag(e: &GameEvent) -> Option<bool> {
    match e.fields.last() {
        Some(EventField { name, data: Some(Variant::Bool(b)) }) if name == "was_sold" => Some(*b),
        _ => None,
    }
}

fn no_props() -> ExtraProps {
    ExtraProps { team_team_num: None, team_num: None, player_name: None, steamid: None, player_pawn: None }
}

fn controller(pawn: u32, steamid: u64, name: &str, team: u32) -> ExtraProps {
    ExtraProps {
        team_team_num: None,
        team_num: Some(Variant::U32(team)),
        player_name: Some(Variant::String(name.to_string())),
        steamid: Some(Variant::U64(steamid)),
        player_pawn: Some(Variant::U32(pawn)),
    }
}

fn no_teams() -> Teams {
    Teams { team1_entid: None, team2_entid: None, team3_entid: None }
}

#[test]
fn purchase_with_handle_names_the_weapon_entity() {
    let events = vec![def_idx(7, 5, 2), cost(2700, 5), handle(0x12345, 5)];
    let p = combine_purchase_events(&events, &names());
    assert_eq!(p.len(), 1);
    assert_eq!(p[0].entid, 5);
    assert_eq!(p[0].cost, 2700);
    assert_eq!(p[0].name.as_deref(), Some("ak47"));
    assert_eq!(p[0].weapon_entid, 0x345);
    assert_eq!(p[0].inventory_slot, 2);
}

#[test]
fn purchase_without_handle_has_the_missing_handle() {
    let events = vec![def_idx(9, 4, 0), cost(4750, 4), def_idx(1, 4, 1), cost(200, 4)];
    let p = combine_purchase_events(&events, &names());
    assert_eq!(p.len(), 2);
    assert_eq!(p[0].weapon_entid, 2047);
    assert_eq!(p[0].name.as_deref(), Some("awp"));
    assert_eq!(p[1].name, None);
    assert_eq!(p[1].cost, 200);
    assert_eq!(p[1].inventory_slot, 1);
}

#[test]
fn other_updates_between_parts_are_passed_over() {
    let events = vec![
        def_idx(7, 5, 2),
        GameEventInfo::FreezePeriodStart(true),
        cost(2700, 5),
        GameEventInfo::MatchEnd(),
        handle(0x801, 5),
    ];
    let p = combine_purchase_events(&events, &names());
    assert_eq!(p.len(), 1);
    assert_eq!(p[0].weapon_entid, 1);
}

#[test]
fn lone_parts_make_no_purchase() {
    let events = vec![cost(100, 1), handle(3, 1), def_idx(7, 1, 0)];
    assert!(combine_purchase_events(&events, &names()).is_empty());
    let wrong_kind = vec![GameEventInfo::WeaponCreateDefIdx((Variant::I32(7), 1, 300000000)), cost(100, 1)];
    assert!(combine_purchase_events(&wrong_kind, &names()).is_empty());
}

#[test]
fn event_kinds_are_detected() {
    let events = vec![
        GameEventInfo::RoundEnd(RoundEnd { old_value: None, new_value: Some(Variant::U32(1)) }),
        cost(1, 1),
    ];
    assert!(contains_round_end_event(&events));
    assert!(!contains_freeze_period_start(&events));
    assert!(!contains_match_end(&events));
    // a cost alone does not count as a weapon creation
    assert!(!contains_weapon_create(&events));
    assert!(contains_weapon_create(&vec![handle(1, 1), def_idx(7, 1, 0)]));
    let others = vec![GameEventInfo::FreezePeriodStart(false), GameEventInfo::MatchEnd()];
    assert!(!contains_round_end_event(&others));
    assert!(contains_freeze_period_start(&others));
    assert!(contains_match_end(&others));
    assert!(!contains_weapon_create(&others));
}

#[test]
fn purchase_sold_before_the_next_purchase_is_marked_sold() {
    let mut events = vec![
        trade_event("item_purchase", 10, 1, 0),
        trade_event("item_sold", 20, 1, 0),
        trade_event("item_purchase", 30, 1, 0),
        trade_event("player_death", 40, 1, 0),
    ];
    add_item_purchase_sell_column(&mut events);
    assert_eq!(was_sold_flag(&events[0]), Some(true));
    assert_eq!(events[1].fields.len(), 3);
    assert_eq!(was_sold_flag(&events[2]), Some(false));
    assert_eq!(events[3].fields.len(), 3);
    assert_eq!(events[0].fields.len(), 4);
}

#[test]
fn sales_count_only_before_the_next_purchase_of_the_slot() {
    let mut events = vec![
        trade_event("item_purchase", 10, 1, 0),
        trade_event("item_purchase", 15, 1, 0),
        trade_event("item_sold", 20, 1, 0),
        trade_event("item_purchase", 12, 2, 3),
        trade_event("item_sold", 13, 2, 4),
    ];
    add_item_purchase_sell_column(&mut events);
    assert_eq!(was_sold_flag(&events[0]), Some(false));
    // sold later, with no purchase into the slot after it: eventually sold
    assert_eq!(was_sold_flag(&events[1]), Some(true));
    assert_eq!(was_sold_flag(&events[3]), Some(false));
}

#[test]
fn purchase_sold_later_with_no_later_purchase_is_marked_sold() {
    let mut events = vec![trade_event("item_purchase", 1, 7, 2), trade_event("item_sold", 3, 7, 2)];
    add_item_purchase_sell_column(&mut events);
    assert_eq!(was_sold_flag(&events[0]), Some(true));
    let mut unsold = vec![trade_event("item_purchase", 1, 7, 2)];
    add_item_purchase_sell_column(&mut unsold);
    assert_eq!(was_sold_flag(&unsold[0]), Some(false));
}

#[test]
fn sales_are_removed_and_the_rest_keeps_its_order() {
    let mut events = vec![
        trade_event("item_sold", 1, 1, 0),
        trade_event("item_purchase", 2, 1, 0),
        trade_event("item_sold", 3, 1, 0),
        trade_event("round_end", 4, 1, 0),
    ];
    remove_item_sold_events(&mut events);
    let kept: Vec<(String, i32)> = events.iter().map(|e| (e.name.clone(), e.tick)).collect();
    assert_eq!(kept, vec![("item_purchase".to_string(), 2), ("round_end".to_string(), 4)]);
}

#[test]
fn packet_with_one_message() {
    let mut w = BitWriter::new();
    w.bits(4, 6);
    w.bits(2, 8);
    w.bits(0xAA, 8);
    w.bits(0xBB, 8);
    let r = packet_messages(&w.bytes).unwrap();
    assert_eq!(r, vec![(4, vec![0xAA, 0xBB])]);
}

#[test]
fn packet_message_types_of_more_bits() {
    let mut w = BitWriter::new();
    // type 0x45: low four bits 5, marker 16, then four more bits 4
    w.bits(5 | 16, 6);
    w.bits(4, 4);
    w.bits(1, 8);
    w.bits(0x11, 8);
    w.bits(3, 6);
    w.bits(0, 8);
    w.bits(0, 8);
    let r = packet_messages(&w.bytes).unwrap();
    assert_eq!(r, vec![(0x45, vec![0x11]), (3, vec![])]);
}

#[test]
fn packet_message_longer_than_the_data_fails() {
    let mut w = BitWriter::new();
    w.bits(4, 6);
    w.bits(9, 8);
    w.bits(0xAA, 8);
    w.bits(0, 8);
    assert!(matches!(packet_messages(&w.bytes), Err(DemoParserError::FailedByteRead(_))));
}

#[test]
fn empty_packet_has_no_messages() {
    assert_eq!(packet_messages(&[]).unwrap(), vec![]);
    assert_eq!(packet_messages(&[0xFF]).unwrap(), vec![]);
}

#[test]
fn team_entity_is_placed_by_its_number() {
    let mut teams = no_teams();
    let mut players: Vec<(i32, PlayerMetaData)> = Vec::new();
    let mut p = no_props();
    p.team_team_num = Some(Variant::U32(2));
    assert_eq!(gather_extra_info(&mut teams, &mut players, 70, EntityType::Team, false, &p), Ok(()));
    assert_eq!(teams.team2_entid, Some(70));
    assert_eq!(teams.team1_entid, None);
    p.team_team_num = Some(Variant::U32(3));
    assert_eq!(gather_extra_info(&mut teams, &mut players, 71, EntityType::Team, true, &p), Ok(()));
    assert_eq!(teams.team3_entid, None);
    assert!(players.is_empty());
}

#[test]
fn controller_puts_its_player_in_under_the_pawn_id() {
    let mut teams = no_teams();
    let mut players: Vec<(i32, PlayerMetaData)> = Vec::new();
    let p = controller(0x1003, 765, "bob", 2);
    assert_eq!(gather_extra_info(&mut teams, &mut players, 1, EntityType::PlayerController, false, &p), Ok(()));
    assert_eq!(players.len(), 1);
    assert_eq!(players[0].0, 3);
    assert_eq!(players[0].1.name.as_deref(), Some("bob"));
    assert_eq!(players[0].1.steamid, Some(765));
    assert_eq!(players[0].1.controller_entid, Some(1));
    assert_eq!(players[0].1.team_num, Some(2));
    assert_eq!(players[0].1.player_entity_id, Some(3));
    let q = controller(1, 999, "al", 3);
    assert_eq!(gather_extra_info(&mut teams, &mut players, 2, EntityType::PlayerController, false, &q), Ok(()));
    let ids: Vec<i32> = players.iter().map(|x| x.0).collect();
    assert_eq!(ids, vec![1, 3]);
    // the same steam id under a new pawn replaces the old entry
    let r = controller(9, 765, "bob", 2);
    assert_eq!(gather_extra_info(&mut teams, &mut players, 1, EntityType::PlayerController, false, &r), Ok(()));
    let ids: Vec<i32> = players.iter().map(|x| x.0).collect();
    assert_eq!(ids, vec![1, 9]);
}

#[test]
fn spectators_and_unknown_players_are_not_recorded() {
    let mut teams = no_teams();
    let mut players: Vec<(i32, PlayerMetaData)> = Vec::new();
    let spectator = controller(3, 765, "bob", 1);
    assert_eq!(gather_extra_info(&mut teams, &mut players, 1, EntityType::PlayerController, false, &spectator), Ok(()));
    let zero_id = controller(3, 0, "bot", 2);
    assert_eq!(gather_extra_info(&mut teams, &mut players, 1, EntityType::PlayerController, false, &zero_id), Ok(()));
    let missing = controller(0x7FF, 765, "bob", 2);
    assert_eq!(gather_extra_info(&mut teams, &mut players, 1, EntityType::PlayerController, false, &missing), Ok(()));
    assert!(players.is_empty());
    let normal = controller(3, 765, "bob", 2);
    assert_eq!(gather_extra_info(&mut teams, &mut players, 1, EntityType::Normal, false, &normal), Ok(()));
    assert!(players.is_empty());
}

#[test]
fn property_of_the_wrong_kind_is_an_error() {
    let mut teams = no_teams();
    let mut players: Vec<(i32, PlayerMetaData)> = Vec::new();
    let mut p = controller(3, 765, "bob", 2);
    p.steamid = Some(Variant::String("765".to_string()));
    assert_eq!(
        gather_extra_info(&mut teams, &mut players, 1, EntityType::PlayerController, false, &p),
        Err(DemoParserError::IncorrectMetaDataProp)
    );
    assert!(players.is_empty());
}

#[test]
fn steam_ids_stay_distinct_when_a_pawn_is_taken_over() {
    let mut teams = no_teams();
    let mut players: Vec<(i32, PlayerMetaData)> = Vec::new();
    let a = controller(3, 765, "bob", 2);
    assert_eq!(gather_extra_info(&mut teams, &mut players, 1, EntityType::PlayerController, false, &a), Ok(()));
    let b = controller(5, 999, "al", 3);
    assert_eq!(gather_extra_info(&mut teams, &mut players, 2, EntityType::PlayerController, false, &b), Ok(()));
    // al moves to bob's pawn: bob's entry is overwritten, al's old one dropped
    let c = controller(3, 999, "al", 3);
    assert_eq!(gather_extra_info(&mut teams, &mut players, 2, EntityType::PlayerController, false, &c), Ok(()));
    let ids: Vec<(i32, Option<u64>)> = players.iter().map(|x| (x.0, x.1.steamid)).collect();
    assert_eq!(ids, vec![(3, Some(999))]);
}
