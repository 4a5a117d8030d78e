use std::collections::HashMap;

use demoparser::collect::{FloatProp, NameTables, PropLookups};
use demoparser::entity_state::{Entity, EntityState};
use demoparser::game_types::{EntityType, PlayerMetaData, PropCollectionError, Teams};
use demoparser::player_info::UserInfo;
use demoparser::prop_controller::{PropInfo, PropType, SpecialIDs};
use demoparser::variants::Variant;

const ACTIVE_WEAPON: u32 = 11;
const ITEM_DEF: u32 = 12;
const LIFE: u32 = 15;
const BUTTONS: u32 = 20;
const EYES: u32 = 21;
const LOW: u32 = 22;
const HIGH: u32 = 23;
const AIRBORNE: u32 = 24;
const AGENT: u32 = 25;
const COLOR: u32 = 26;
const OWNER: u32 = 27;
const HEALTH: u32 = 1001;

fn entity(id: i32, props: Vec<(u32, Variant)>) -> Option<Entity> {
    let mut map = HashMap::new();
    for (k, v) in props {
        map.insert(k, v);
    }
    Some(Entity { cls_id: 0, entity_id: id, props: map, entity_type: EntityType::Normal })
}

fn player() -> PlayerMetaData {
    PlayerMetaData {
        player_entity_id: Some(3),
        steamid: Some(765),
        controller_entid: Some(1),
        name: Some("bob".to_string()),
        team_num: Some(2),
    }
}

fn state() -> EntityState {
    let mut special = SpecialIDs::default();
    special.active_weapon = Some(ACTIVE_WEAPON);
    special.item_def = Some(ITEM_DEF);
    special.life_state = Some(LIFE);
    special.buttons = Some(BUTTONS);
    special.eye_angles = Some(EYES);
    special.orig_own_low = Some(LOW);
    special.orig_own_high = Some(HIGH);
    special.is_airborne = Some(AIRBORNE);
    special.agent_skin_idx = Some(AGENT);
    special.h_owner_entity = Some(OWNER);
    let mut entities: Vec<Option<Entity>> = (0..10).map(|_| None).collect();
    entities[1] = entity(1, vec![(AGENT, Variant::U32(4613)), (COLOR, Variant::I32(2))]);
    entities[3] = entity(
        3,
        vec![
            (ACTIVE_WEAPON, Variant::U32(5)),
            (LIFE, Variant::U32(0)),
            (BUTTONS, Variant::U64(0b101)),
            (EYES, Variant::XYZVec([10, 20, 30])),
            (AIRBORNE, Variant::U32(0xFFFFFF)),
            (HEALTH, Variant::I32(90)),
            (1111111, Variant::U32(2)),
            // three inventory slots: a rifle, the same rifle again, a flashbang, the bomb
            (500000, Variant::U32(4)),
            (500001, Variant::U32(0x4005)),
            (500002, Variant::U32(5)),
            (500003, Variant::U32(6)),
            (500004, Variant::U32(7)),
        ],
    );
    entities[5] = entity(5, vec![(ITEM_DEF, Variant::U32(7)), (LOW, Variant::U32(1)), (HIGH, Variant::U32(1))]);
    entities[6] = entity(6, vec![(ITEM_DEF, Variant::U32(43))]);
    entities[7] = entity(7, vec![(ITEM_DEF, Variant::U32(49)), (OWNER, Variant::U32(4))]);
    EntityState {
        entities,
        players: vec![(3, player())],
        teams: Teams { team1_entid: None, team2_entid: None, team3_entid: None },
        special_ids: special,
        rules_entity_id: None,
        c4_entity_id: Some(7),
        tick: 64,
    }
}

fn lookups() -> PropLookups {
    PropLookups {
        tables: NameTables {
            weapon_names: vec![(7, "ak47".to_string()), (43, "flashbang".to_string()), (49, "c4".to_string())],
            agents: vec![(4613, "Agent Ava".to_string())],
            player_colors: vec![(2, "yellow".to_string())],
            buttons: vec![("FORWARD".to_string(), 0b1), ("BACK".to_string(), 0b10)],
        },
        users: vec![
            UserInfo { steamid: 1, name: "x".to_string(), userid: 4, is_hltv: false },
            UserInfo { steamid: 765, name: "bob".to_string(), userid: 9, is_hltv: false },
        ],
    }
}

fn info(name: &str, kind: PropType, id: u32) -> PropInfo {
    PropInfo { id, prop_type: kind, prop_friendly_name: name.to_string(), prop_name: name.to_string(), is_player_prop: true }
}

fn no_floats(_k: FloatProp, _e: i32) -> Result<Variant, PropCollectionError> {
    Err(PropCollectionError::VelocityNotFound)
}

#[test]
fn buttons_are_bits_of_the_mask() {
    let s = state();
    let lk = lookups();
    assert!(matches!(s.get_button_prop(&info("FORWARD", PropType::Button, 0), 3, &lk.tables), Ok(Variant::Bool(true))));
    assert!(matches!(s.get_button_prop(&info("BACK", PropType::Button, 0), 3, &lk.tables), Ok(Variant::Bool(false))));
    assert_eq!(
        s.get_button_prop(&info("JUMP", PropType::Button, 0), 3, &lk.tables).unwrap_err(),
        PropCollectionError::ButtonsMapNoEntryFound
    );
}

#[test]
fn pitch_and_yaw_are_eye_angle_components() {
    let s = state();
    assert!(matches!(s.find_pitch_or_yaw(3, 0), Ok(Variant::F32(10))));
    assert!(matches!(s.find_pitch_or_yaw(3, 1), Ok(Variant::F32(20))));
    assert_eq!(s.find_pitch_or_yaw(5, 0).unwrap_err(), PropCollectionError::GetPropFromEntPropNotFound);
}

#[test]
fn original_owner_joins_both_halves_in_decimal() {
    let s = state();
    assert!(matches!(s.find_weapon_original_owner(3), Ok(Variant::String(ref x)) if x == "4294967297"));
    let mut no_high = state();
    no_high.special_ids.orig_own_high = None;
    assert_eq!(no_high.find_weapon_original_owner(3).unwrap_err(), PropCollectionError::OriginalOwnerXuidIdHighNotSet);
}

#[test]
fn airborne_agent_color_and_userid() {
    let s = state();
    let lk = lookups();
    let p = player();
    assert!(matches!(s.find_is_airborne(&p), Ok(Variant::Bool(true))));
    assert!(matches!(s.find_agent_skin(&p, &lk.tables), Ok(Variant::String(ref a)) if a == "Agent Ava"));
    assert!(matches!(s.find_player_color(&p, &info("c", PropType::Custom, COLOR), &lk.tables), Ok(Variant::String(ref c)) if c == "yellow"));
    assert!(matches!(s.get_userid(&p, &lk.users), Ok(Variant::I32(9))));
    let mut stranger = player();
    stranger.steamid = Some(5);
    assert_eq!(s.get_userid(&stranger, &lk.users).unwrap_err(), PropCollectionError::UseridNotFound);
}

#[test]
fn inventory_lists_each_item_once_with_two_flashbangs() {
    let s = state();
    let lk = lookups();
    // the bomb's owner handle points at entity 4, not at pawn 3
    match s.find_my_inventory(3, &lk.tables) {
        Ok(Variant::StringVec(v)) => assert_eq!(v, vec!["ak47", "flashbang", "flashbang"]),
        other => panic!("unexpected {:?}", other),
    }
    match s.find_my_inventory_as_ids(3, &lk.tables) {
        Ok(Variant::U32Vec(v)) => assert_eq!(v, vec![7, 43, 43]),
        other => panic!("unexpected {:?}", other),
    }
}

#[test]
fn inventory_includes_the_bomb_its_owner_carries() {
    let mut s = state();
    s.entities[7] = entity(7, vec![(ITEM_DEF, Variant::U32(49)), (OWNER, Variant::U32(3))]);
    match s.find_my_inventory(3, &lookups().tables) {
        Ok(Variant::StringVec(v)) => assert_eq!(v, vec!["ak47", "flashbang", "flashbang", "c4"]),
        other => panic!("unexpected {:?}", other),
    }
}

#[test]
fn dead_players_have_no_inventory() {
    let mut s = state();
    s.special_ids.life_state = None;
    match s.find_my_inventory(3, &lookups().tables) {
        Ok(Variant::StringVec(v)) => assert!(v.is_empty()),
        other => panic!("unexpected {:?}", other),
    }
}

#[test]
fn find_prop_by_kind() {
    let s = state();
    let lk = lookups();
    let p = player();
    assert!(matches!(s.find_prop(&info("tick", PropType::Tick, 0), 3, &p, &lk, &no_floats), Ok(Variant::I32(64))));
    assert!(matches!(s.find_prop(&info("health", PropType::Player, HEALTH), 3, &p, &lk, &no_floats), Ok(Variant::I32(90))));
    assert!(matches!(s.find_prop(&info("name", PropType::Name, 0), 3, &p, &lk, &no_floats), Ok(Variant::String(ref n)) if n == "bob"));
    assert!(matches!(s.find_prop(&info("weapon_name", PropType::Custom, 0), 3, &p, &lk, &no_floats), Ok(Variant::String(ref n)) if n == "ak47"));
    assert!(matches!(s.find_prop(&info("entity_id", PropType::Custom, 0), 3, &p, &lk, &no_floats), Ok(Variant::I32(3))));
    assert!(matches!(s.find_prop(&info("is_alive", PropType::Custom, 0), 3, &p, &lk, &no_floats), Ok(Variant::Bool(true))));
    assert_eq!(
        s.find_prop(&info("nonsense", PropType::Custom, 0), 3, &p, &lk, &no_floats).unwrap_err(),
        PropCollectionError::UnknownCustomPropName
    );
    let coords = |k: FloatProp, e: i32| match k {
        FloatProp::X => Ok(Variant::F32(e as u32)),
        _ => Err(PropCollectionError::VelocityNotFound),
    };
    assert!(matches!(s.find_prop(&info("X", PropType::Custom, 0), 3, &p, &lk, &coords), Ok(Variant::F32(3))));
    assert_eq!(
        s.find_prop(&info("game_time", PropType::GameTime, 0), 3, &p, &lk, &coords).unwrap_err(),
        PropCollectionError::VelocityNotFound
    );
}

#[test]
fn extra_props_are_prefixed_and_skip_default_names() {
    let s = state();
    let lk = lookups();
    let infos = vec![
        info("health", PropType::Player, HEALTH),
        info("tick", PropType::Tick, 0),
        PropInfo { id: 0, prop_type: PropType::Custom, prop_friendly_name: "pos_x".to_string(), prop_name: "X".to_string(), is_player_prop: true },
        PropInfo { id: 0, prop_type: PropType::Rules, prop_friendly_name: "rounds".to_string(), prop_name: "r".to_string(), is_player_prop: false },
    ];
    let f = s.find_extra_props_events(3, "user", &infos, &lk, &no_floats);
    let names: Vec<&str> = f.iter().map(|x| x.name.as_str()).collect();
    assert_eq!(names, vec!["user_health", "user_pos_x"]);
    assert!(matches!(f[0].data, Some(Variant::I32(90))));
    assert!(f[1].data.is_none());
    let unknown = s.find_extra_props_events(4, "attacker", &infos, &lk, &no_floats);
    let names: Vec<&str> = unknown.iter().map(|x| x.name.as_str()).collect();
    assert_eq!(names, vec!["attacker_health", "attacker_pos_x"]);
    assert!(unknown.iter().all(|x| x.data.is_none()));
}

use demoparser::entity_updates::{
    extract_event, insert_field, BaseUserCmd, ButtonState, InputHistoryEntry, UserCmd, ViewAngles,
};
use demoparser::purchases::GameEventInfo;
use demoparser::sendtables::{Decoder, FieldInfo};

#[test]
fn updates_tell_the_event_builders_what_changed() {
    let mut special = SpecialIDs::default();
    special.round_end_count = Some(70);
    special.round_win_reason = Some(71);
    special.round_start_count = Some(72);
    let e = Entity {
        cls_id: 1,
        entity_id: 4,
        props: {
            let mut m = HashMap::new();
            m.insert(70, Variant::U32(3));
            m
        },
        entity_type: EntityType::Rules,
    };
    match extract_event(&e, &Variant::U32(4), 70, &special) {
        Some(GameEventInfo::RoundEnd(r)) => {
            assert!(matches!(r.old_value, Some(Variant::U32(3))));
            assert!(matches!(r.new_value, Some(Variant::U32(4))));
        },
        other => panic!("unexpected {:?}", other),
    }
    assert!(matches!(extract_event(&e, &Variant::I32(9), 71, &special), Some(GameEventInfo::RoundWinReason(r)) if r.reason == 9));
    assert!(extract_event(&e, &Variant::U32(9), 71, &special).is_none());
    assert!(matches!(extract_event(&e, &Variant::U32(0), 72, &special), Some(GameEventInfo::FreezePeriodStart(true))));
    assert!(matches!(
        extract_event(&e, &Variant::I32(2700), 400000003, &special),
        Some(GameEventInfo::WeaponCreateNCost((Variant::I32(2700), 4)))
    ));
    assert!(matches!(
        extract_event(&e, &Variant::U32(0), 200000002, &special),
        Some(GameEventInfo::WeaponPurchaseCount((Variant::U32(0), 4, 200000002)))
    ));
    assert!(extract_event(&e, &Variant::U32(0), 400100000, &special).is_none());
    assert!(extract_event(&e, &Variant::U32(0), 5, &special).is_none());
}

#[test]
fn user_commands_are_stored_in_their_pawns() {
    let mut s = state();
    let cmd = |handle: u32, impulse: i32| {
        Some(UserCmd {
            base: Some(BaseUserCmd {
                pawn_entity_handle: Some(handle),
                leftmove: None,
                forwardmove: Some(0x3f800000),
                impulse: Some(impulse),
                mousedx: None,
                mousedy: None,
                consumed_server_angle_changes: None,
                viewangles: Some(ViewAngles { x: Some(1), y: None, z: None }),
                buttons_pb: Some(ButtonState { buttonstate1: Some(5), buttonstate2: None, buttonstate3: None }),
            }),
            input_history: vec![InputHistoryEntry {
                render_tick_count: Some(10),
                render_tick_fraction: None,
                player_tick_count: None,
                player_tick_fraction: None,
                view_angles: None,
            }],
        })
    };
    let cmds = vec![cmd(0x1003, 1), None, cmd(3, 2)];
    assert!(s.parse_user_cmd(&cmds).is_ok());
    let props = &s.entities[3].as_ref().unwrap().props;
    assert!(matches!(props.get(&100000026), Some(Variant::I32(1))));
    assert!(matches!(props.get(&100000025), Some(Variant::F32(0x3f800000))));
    assert!(matches!(props.get(&100000033), Some(Variant::F32(0))));
    assert!(matches!(props.get(&100000022), Some(Variant::F32(1))));
    assert!(matches!(props.get(&100000023), Some(Variant::F32(0))));
    assert!(matches!(props.get(&100000029), Some(Variant::U64(5))));
    match props.get(&100001000) {
        Some(Variant::InputHistory(h)) => {
            assert_eq!(h.len(), 1);
            assert_eq!(h[0].render_tick_count, 10);
            assert_eq!(h[0].x, None);
        },
        other => panic!("unexpected {:?}", other),
    }
    // a pawn with no entity is passed over
    assert!(s.parse_user_cmd(&vec![cmd(9, 3)]).is_ok());
    assert!(s.entities[9].is_none());
}

#[test]
fn decoded_values_are_kept_only_for_parsed_fields() {
    let mut e = Entity { cls_id: 1, entity_id: 2, props: HashMap::new(), entity_type: EntityType::Normal };
    insert_field(&mut e, Variant::U32(8), &FieldInfo { decoder: Decoder::Unsigned64Decoder, should_parse: true, prop_id: 5 });
    insert_field(&mut e, Variant::U32(9), &FieldInfo { decoder: Decoder::Unsigned64Decoder, should_parse: false, prop_id: 6 });
    assert!(matches!(e.props.get(&5), Some(Variant::U32(8))));
    assert!(e.props.get(&6).is_none());
}
