use std::collections::HashMap;

use demoparser::collect::{FloatProp, NameTables, PropLookups};
use demoparser::custom_events::{EventContext, EventLog, TickExtras};
use demoparser::entity_state::{Entity, EntityState};
use demoparser::event_parse::{
    find_user_by_userid, parse_key, EventDescriptor, EventKey, GameEventMsg, KeyDescriptor,
};
use demoparser::game_types::{EntityType, EventField, GameEvent, PlayerMetaData, PropCollectionError, Teams};
use demoparser::player_info::UserInfo;
use demoparser::prop_controller::{PropInfo, PropType, SpecialIDs};
use demoparser::variants::Variant;

const HEALTH: u32 = 1001;
const OWNER: u32 = 30;

fn key(t: i32) -> EventKey {
    EventKey {
        key_type: Some(t),
        val_string: None,
        val_float: None,
        val_long: None,
        val_short: None,
        val_byte: None,
        val_bool: None,
        val_uint64: None,
    }
}

fn short_key(v: i32) -> EventKey {
    let mut k = key(9);
    k.val_short = Some(v);
    k
}

fn text_key(v: &str) -> EventKey {
    let mut k = key(1);
    k.val_string = Some(v.to_string());
    k
}

fn desc(id: i32, name: &str, keys: &[&str]) -> EventDescriptor {
    EventDescriptor {
        eventid: Some(id),
        name: Some(name.to_string()),
        keys: keys.iter().map(|k| KeyDescriptor { key_type: Some(1), name: Some(k.to_string()) }).collect(),
    }
}

fn entity(id: i32, props: Vec<(u32, Variant)>) -> Option<Entity> {
    let mut map = HashMap::new();
    for (k, v) in props {
        map.insert(k, v);
    }
    Some(Entity { cls_id: 0, entity_id: id, props: map, entity_type: EntityType::Normal })
}

fn state() -> EntityState {
    let mut special = SpecialIDs::default();
    special.grenade_owner_id = Some(OWNER);
    let mut entities: Vec<Option<Entity>> = (0..10).map(|_| None).collect();
    entities[3] = entity(3, vec![(HEALTH, Variant::I32(77))]);
    entities[8] = entity(8, vec![(OWNER, Variant::U32(0x803))]);
    EntityState {
        entities,
        players: vec![(
            3,
            PlayerMetaData {
                player_entity_id: Some(3),
                steamid: Some(765),
                controller_entid: Some(1),
                name: Some("bob".to_string()),
                team_num: Some(2),
            },
        )],
        teams: Teams { team1_entid: None, team2_entid: None, team3_entid: None },
        special_ids: special,
        rules_entity_id: None,
        c4_entity_id: None,
        tick: 500,
    }
}

fn context(wanted: &[&str]) -> EventContext {
    EventContext {
        wanted: wanted.iter().map(|s| s.to_string()).collect(),
        prop_infos: vec![PropInfo {
            id: HEALTH,
            prop_type: PropType::Player,
            prop_friendly_name: "health".to_string(),
            prop_name: "m_iHealth".to_string(),
            is_player_prop: true,
        }],
        extras: TickExtras { user_props: vec![], weapon_skins: vec![], game_time: 0 },
        win_reasons: vec![],
        winners: vec![],
        weapon_names: vec![],
    }
}

fn lookups() -> PropLookups {
    PropLookups {
        tables: NameTables { weapon_names: vec![], agents: vec![], player_colors: vec![], buttons: vec![] },
        users: vec![UserInfo { steamid: 765, name: "bob".to_string(), userid: 0x105, is_hltv: false }],
    }
}

fn no_floats(_k: FloatProp, _e: i32) -> Result<Variant, PropCollectionError> {
    Err(PropCollectionError::VelocityNotFound)
}

fn hit_groups() -> Vec<(i32, String)> {
    vec![(1, "head".to_string())]
}

fn names(e: &GameEvent) -> Vec<&str> {
    e.fields.iter().map(|f| f.name.as_str()).collect()
}

fn data<'a>(e: &'a GameEvent, name: &str) -> &'a Option<Variant> {
    &e.fields.iter().find(|f| f.name == name).unwrap().data
}

#[test]
fn keys_are_read_by_their_kind() {
    assert!(matches!(parse_key(&text_key("ak47")), Some(Variant::String(ref s)) if s == "ak47"));
    assert!(matches!(parse_key(&short_key(7)), Some(Variant::I32(7))));
    let mut f = key(2);
    f.val_float = Some(0x3f800000);
    assert!(matches!(parse_key(&f), Some(Variant::F32(0x3f800000))));
    assert!(matches!(parse_key(&key(6)), Some(Variant::Bool(false))));
    assert!(matches!(parse_key(&key(7)), Some(Variant::U64(0))));
    assert!(parse_key(&key(10)).is_none());
    assert!(matches!(parse_key(&key(1)), Some(Variant::String(ref s)) if s.is_empty()));
}

#[test]
fn users_are_found_by_low_byte_first() {
    let users = vec![
        UserInfo { steamid: 1, name: "a".to_string(), userid: 5, is_hltv: false },
        UserInfo { steamid: 2, name: "b".to_string(), userid: 0x205, is_hltv: false },
    ];
    assert_eq!(find_user_by_userid(&users, 5).unwrap().steamid, 1);
    assert_eq!(find_user_by_userid(&users, 0x205).unwrap().steamid, 2);
    assert!(find_user_by_userid(&users, 6).is_none());
}

#[test]
fn userids_and_grenades_lead_to_pawns() {
    let s = state();
    let lk = lookups();
    assert_eq!(s.entity_id_from_userid(&lk.users, 5), Some(3));
    assert_eq!(s.entity_id_from_userid(&lk.users, 6), None);
    assert_eq!(s.entity_id_from_user_pawn(0x1803), Some(3));
    assert_eq!(s.grenade_owner_entid_from_grenade(&Some(Variant::I32(8))), Some(3));
    assert_eq!(s.grenade_owner_entid_from_grenade(&Some(Variant::I32(4))), None);
    assert_eq!(s.grenade_owner_entid_from_grenade(&None), None);
}

#[test]
fn player_death_gets_player_fields_and_loses_internal_ones() {
    let s = state();
    let ctx = context(&["player_death"]);
    let lk = lookups();
    let list = vec![desc(20, "player_death", &["userid", "attacker", "hitgroup", "weapon"])];
    let msg = GameEventMsg {
        eventid: Some(20),
        keys: vec![short_key(5), short_key(9), short_key(1), text_key("ak47")],
    };
    let mut log = EventLog { events: vec![], seen: vec![] };
    let r = s.parse_event(&msg, &list, &ctx, &lk, &hit_groups(), &no_floats, &mut log);
    assert!(matches!(r, Ok(None)));
    assert_eq!(log.seen, vec!["player_death".to_string()]);
    assert_eq!(log.events.len(), 1);
    let e = &log.events[0];
    assert_eq!(e.name, "player_death");
    assert_eq!(e.tick, 500);
    assert_eq!(
        names(e),
        vec![
            "hitgroup",
            "weapon",
            "tick",
            "user_name",
            "user_steamid",
            "user_health",
            "attacker_steamid",
            "attacker_name",
            "attacker_health",
        ]
    );
    assert!(matches!(data(e, "hitgroup"), Some(Variant::String(h)) if h == "head"));
    assert!(matches!(data(e, "user_steamid"), Some(Variant::String(x)) if x == "765"));
    assert!(matches!(data(e, "user_health"), Some(Variant::I32(77))));
    assert!(data(e, "attacker_name").is_none());
}

#[test]
fn unknown_and_unwanted_events_are_not_logged() {
    let s = state();
    let lk = lookups();
    let list = vec![desc(20, "player_death", &["userid"]), desc(21, "server_cvar", &["name"])];
    let mut log = EventLog { events: vec![], seen: vec![] };
    let unknown = GameEventMsg { eventid: Some(99), keys: vec![] };
    assert!(matches!(s.parse_event(&unknown, &list, &context(&["all"]), &lk, &hit_groups(), &no_floats, &mut log), Ok(None)));
    assert!(log.seen.is_empty());
    let death = GameEventMsg { eventid: Some(20), keys: vec![short_key(5)] };
    assert!(matches!(s.parse_event(&death, &list, &context(&["round_end"]), &lk, &hit_groups(), &no_floats, &mut log), Ok(None)));
    assert_eq!(log.seen, vec!["player_death".to_string()]);
    let cvar = GameEventMsg { eventid: Some(21), keys: vec![text_key("x")] };
    assert!(matches!(s.parse_event(&cvar, &list, &context(&["all"]), &lk, &hit_groups(), &no_floats, &mut log), Ok(None)));
    assert!(log.events.is_empty());
    assert_eq!(log.seen, vec!["player_death".to_string(), "server_cvar".to_string()]);
}

#[test]
fn fire_events_come_back_without_extra_fields() {
    let s = state();
    let lk = lookups();
    let list = vec![desc(30, "inferno_startburn", &["entityid", "x"])];
    let msg = GameEventMsg { eventid: Some(30), keys: vec![short_key(8), text_key("1.0")] };
    let mut log = EventLog { events: vec![], seen: vec![] };
    match s.parse_event(&msg, &list, &context(&["all"]), &lk, &hit_groups(), &no_floats, &mut log) {
        Ok(Some(e)) => {
            assert_eq!(e.name, "inferno_startburn");
            assert_eq!(names(&e), vec!["entityid", "x"]);
        },
        other => panic!("unexpected {:?}", other),
    }
    assert!(log.events.is_empty());
}

#[test]
fn grenade_events_find_the_thrower() {
    let s = state();
    let lk = lookups();
    let list = vec![desc(40, "smokegrenade_detonate", &["entityid"])];
    let msg = GameEventMsg { eventid: Some(40), keys: vec![short_key(8)] };
    let mut log = EventLog { events: vec![], seen: vec![] };
    s.parse_event(&msg, &list, &context(&["all"]), &lk, &hit_groups(), &no_floats, &mut log).unwrap();
    let e = &log.events[0];
    assert_eq!(names(e), vec!["entityid", "tick", "user_name", "user_steamid", "user_health"]);
    assert!(matches!(data(e, "user_name"), Some(Variant::String(n)) if n == "bob"));
}

#[test]
fn early_events_are_completed_later() {
    let s = state();
    let lk = lookups();
    let mut early = vec![GameEvent {
        name: "player_spawn".to_string(),
        fields: vec![EventField { name: "userid".to_string(), data: Some(Variant::I32(5)) }],
        tick: 1,
    }];
    let mut log = EventLog { events: vec![], seen: vec![] };
    assert!(s.resolve_wrong_order_event(&mut early, &context(&["all"]), &lk, &no_floats, &mut log).is_ok());
    assert_eq!(log.events.len(), 1);
    assert_eq!(log.events[0].tick, 500);
    assert_eq!(names(&log.events[0]), vec!["tick", "user_name", "user_steamid", "user_health"]);
    assert_eq!(names(&early[0]), vec!["tick", "user_name", "user_steamid", "user_health"]);
}

use demoparser::message_events::{ConVar, RankUpdate, RankUpdateMsg, SayText2Msg, SayTextMsg, SetConVarMsg};

#[test]
fn convars_become_value_and_name_pairs() {
    let s = state();
    let mut log = EventLog { events: vec![], seen: vec![] };
    let msg = SetConVarMsg {
        convars: Some(vec![
            ConVar { name: Some("mp_maxrounds".to_string()), value: Some("24".to_string()) },
            ConVar { name: None, value: Some("1".to_string()) },
        ]),
    };
    s.create_custom_event_parse_convars(&context(&["all"]), &msg, &mut log).unwrap();
    let e = &log.events[0];
    assert_eq!(e.name, "server_cvar");
    assert_eq!(names(e), vec!["value", "name", "value", "name", "tick"]);
    assert!(matches!(&e.fields[1].data, Some(Variant::String(n)) if n == "mp_maxrounds"));
    assert!(matches!(&e.fields[3].data, Some(Variant::String(n)) if n.is_empty()));
    let mut log2 = EventLog { events: vec![], seen: vec![] };
    s.create_custom_event_parse_convars(&context(&["all"]), &SetConVarMsg { convars: None }, &mut log2).unwrap();
    assert!(log2.events.is_empty());
    assert_eq!(log2.seen, vec!["server_cvar".to_string()]);
}

#[test]
fn server_and_chat_messages() {
    let s = state();
    let lk = lookups();
    let mut log = EventLog { events: vec![], seen: vec![] };
    s.create_custom_event_server_message(&context(&["all"]), &SayTextMsg { text: Some("hello".to_string()) }, &mut log).unwrap();
    assert_eq!(names(&log.events[0]), vec!["server_message", "tick"]);
    let chat = SayText2Msg { entityindex: Some(1), param2: Some("gg".to_string()) };
    s.create_custom_event_chat_message(&context(&["chat_message"]), &lk, &no_floats, &chat, &mut log).unwrap();
    let e = &log.events[1];
    assert_eq!(names(e), vec!["chat_message", "tick", "user_name", "user_steamid", "user_health"]);
    assert!(matches!(data(e, "user_name"), Some(Variant::String(n)) if n == "bob"));
    let stranger = SayText2Msg { entityindex: Some(2), param2: None };
    s.create_custom_event_chat_message(&context(&["all"]), &lk, &no_floats, &stranger, &mut log).unwrap();
    assert!(data(&log.events[2], "user_name").is_none());
    assert!(matches!(data(&log.events[2], "chat_message"), Some(Variant::String(n)) if n.is_empty()));
}

#[test]
fn rank_updates_of_known_accounts() {
    let mut s = state();
    s.players[0].1.steamid = Some(0x0110000100000000 + 42);
    let lk = lookups();
    let mut log = EventLog { events: vec![], seen: vec![] };
    let update = |id: i32| RankUpdate {
        account_id: Some(id),
        rank_old: Some(10),
        rank_new: Some(11),
        num_wins: Some(100),
        rank_change: Some(0x3f800000),
        rank_type_id: None,
    };
    let msg = RankUpdateMsg { rank_update: vec![update(42), update(7)] };
    s.create_custom_event_rank_update(&context(&["all"]), &lk, &no_floats, &msg, &mut log).unwrap();
    assert_eq!(log.events.len(), 1);
    let e = &log.events[0];
    assert_eq!(
        names(e),
        vec!["num_wins", "rank_old", "rank_new", "rank_change", "rank_type_id", "tick", "user_name", "user_steamid", "user_health"]
    );
    assert!(matches!(data(e, "rank_type_id"), Some(Variant::I32(0))));
    assert_eq!(s.player_from_steamid32(42), Some(3));
    assert_eq!(s.player_from_steamid32(43), None);
}
