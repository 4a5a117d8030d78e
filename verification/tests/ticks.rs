use std::collections::HashMap;

use demoparser::class_info::{parse_class_info, ClassEntry, ClassInfoMsg};
use demoparser::collect::{FloatProp, NameTables, PropLookups};
use demoparser::coordinates::{
    find_last_coordinate_idx, find_most_recent_coordinate_idx, find_wanted_indicies, index_coordinates_from_propcol,
};
use demoparser::entity_state::{Entity, EntityState};
use demoparser::equality::{f32_bits_eq, variant_eq};
use demoparser::full_packet::{parse_full_packet, parse_u32, FullPacketMsg, FullPacketTable, PacketMsg, TableItem};
use demoparser::game_types::{CoordinateAxis, EconItem, EconItemPreview, EntityType, PlayerEndMetaData, PlayerMetaData, PropCollectionError, Teams};
use demoparser::item_messages::{parse_item_drops, parse_player_end_msg, EndOfMatchMsg, EndOfMatchPlayer, ItemDropsMsg};
use demoparser::projectiles::{coord_from_cell, ProjectileRecord};
use demoparser::prop_controller::{PropController, PropInfo, PropTables, PropType, SpecialIDs, WantedPropStateInfo};
use demoparser::sendtables::Serializer;
use demoparser::stringtables::StringTableStore;
use demoparser::tick_collect::{collect_velocity, should_collect, velocity_from_indicies, CollectSettings, CollectTables};
use demoparser::variants::{PropColumn, Sticker, VarVec, Variant};

const STEAMID_ID: u32 = 100000014;
const PLAYER_X_ID: u32 = 100000016;
const PLAYER_Y_ID: u32 = 100000017;

fn preview(itemid: Option<u64>, defindex: Option<u32>, paintindex: Option<u32>) -> EconItemPreview {
    EconItemPreview {
        accountid: Some(1),
        itemid,
        defindex,
        paintindex,
        rarity: Some(3),
        quality: Some(4),
        paintwear: Some(1000),
        paintseed: Some(55),
        questid: None,
        dropreason: Some(2),
        customname: Some("mine".to_string()),
        inventory: None,
        entindex: Some(9),
    }
}

fn weapon_table() -> Vec<(u32, String)> {
    vec![(7, "ak47".to_string()), (9, "awp".to_string())]
}

fn kit_table() -> Vec<(u32, String)> {
    vec![(44, "Case Hardened".to_string())]
}

#[test]
fn item_drops_are_named_and_unowned() {
    let drops = ItemDropsMsg { entity_updates: vec![preview(Some(5), Some(7), Some(44)), preview(None, Some(1), None)] };
    let mut out: Vec<EconItem> = Vec::new();
    parse_item_drops(&drops, &weapon_table(), &kit_table(), &mut out);
    assert_eq!(out.len(), 2);
    assert_eq!(out[0].item_name.as_deref(), Some("ak47"));
    assert_eq!(out[0].skin_name.as_deref(), Some("Case Hardened"));
    assert_eq!(out[0].steamid, None);
    assert_eq!(out[0].paint_wear, Some(1000));
    assert_eq!(out[1].item_name, None);
    assert_eq!(out[1].skin_name, None);
    assert_eq!(out[1].custom_name.as_deref(), Some("mine"));
}

#[test]
fn end_of_match_keeps_players_and_listed_items() {
    let msg = EndOfMatchMsg {
        allplayerdata: vec![
            EndOfMatchPlayer {
                xuid: Some(11),
                name: Some("ann".to_string()),
                teamnumber: Some(2),
                items: vec![preview(Some(0), Some(7), None), preview(Some(3), Some(9), Some(44)), preview(None, Some(7), None)],
            },
            EndOfMatchPlayer { xuid: None, name: None, teamnumber: Some(3), items: vec![preview(Some(8), Some(7), None)] },
        ],
    };
    let mut players: Vec<PlayerEndMetaData> = Vec::new();
    let mut skins: Vec<EconItem> = Vec::new();
    parse_player_end_msg(&msg, &weapon_table(), &kit_table(), &mut players, &mut skins);
    assert_eq!(players.len(), 2);
    assert_eq!(players[0].steamid, Some(11));
    assert_eq!(players[0].name.as_deref(), Some("ann"));
    assert_eq!(players[1].team_number, Some(3));
    assert_eq!(skins.len(), 2);
    assert_eq!(skins[0].item_id, Some(3));
    assert_eq!(skins[0].steamid, Some(11));
    assert_eq!(skins[0].item_name.as_deref(), Some("awp"));
    assert_eq!(skins[1].item_id, Some(8));
    assert_eq!(skins[1].steamid, None);
}

fn steamid_column(rows: Vec<Option<u64>>) -> PropColumn {
    PropColumn { data: Some(VarVec::U64(rows)), num_nones: 0 }
}

#[test]
fn the_two_latest_rows_of_a_player_are_found() {
    let col = steamid_column(vec![Some(1), Some(2), Some(1), None, Some(2), Some(1)]);
    assert_eq!(find_most_recent_coordinate_idx(Some(&col), 1), Some(5));
    assert_eq!(find_last_coordinate_idx(Some(&col), 1, Some(5)), Some(2));
    assert_eq!(find_last_coordinate_idx(Some(&col), 1, None), None);
    assert_eq!(find_wanted_indicies(Some(&col), 1), vec![5, 2]);
    assert_eq!(find_wanted_indicies(Some(&col), 2), vec![4, 1]);
    assert_eq!(find_wanted_indicies(Some(&col), 3), Vec::<usize>::new());
    let once = steamid_column(vec![Some(7)]);
    assert_eq!(find_wanted_indicies(Some(&once), 7), Vec::<usize>::new());
    assert_eq!(find_wanted_indicies(None, 7), Vec::<usize>::new());
    let other_kind = PropColumn { data: Some(VarVec::U32(vec![Some(1)])), num_nones: 0 };
    assert_eq!(find_most_recent_coordinate_idx(Some(&other_kind), 1), None);
}

#[test]
fn coordinates_are_read_at_two_rows() {
    let col = PropColumn { data: Some(VarVec::F32(vec![Some(10), None, Some(30)])), num_nones: 0 };
    assert_eq!(index_coordinates_from_propcol(&col, &[2, 0]), Some((Some(30), Some(10))));
    assert_eq!(index_coordinates_from_propcol(&col, &[1, 0]), Some((None, Some(10))));
    assert_eq!(index_coordinates_from_propcol(&col, &[1]), None);
    let ints = PropColumn { data: Some(VarVec::U32(vec![Some(1), Some(2)])), num_nones: 0 };
    assert_eq!(index_coordinates_from_propcol(&ints, &[1, 0]), None);
}

fn place(cell: u32, offset: u32) -> u32 {
    ((cell as f32 * 512.0 - 16384.0) + f32::from_bits(offset)).to_bits()
}

#[test]
fn positions_need_a_cell_and_an_offset() {
    let ok = coord_from_cell(Ok(Variant::U32(40)), Ok(Variant::F32(2.5f32.to_bits())), &place);
    assert_eq!(ok, Ok((40.0f32 * 512.0 - 16384.0 + 2.5).to_bits()));
    let missing = || Err(PropCollectionError::GetPropFromEntPropNotFound);
    assert_eq!(coord_from_cell(missing(), missing(), &place), Err(PropCollectionError::CoordinateBothNone));
    assert_eq!(coord_from_cell(missing(), Ok(Variant::F32(0)), &place), Err(PropCollectionError::CoordinateCellNone));
    assert_eq!(coord_from_cell(Ok(Variant::U32(1)), missing(), &place), Err(PropCollectionError::CoordinateOffsetNone));
    assert_eq!(
        coord_from_cell(Ok(Variant::I32(1)), Ok(Variant::F32(0)), &place),
        Err(PropCollectionError::CoordinateIncorrectTypes)
    );
}

fn entity(id: i32, cls_id: u32, props: Vec<(u32, Variant)>) -> Option<Entity> {
    let mut map = HashMap::new();
    for (k, v) in props {
        map.insert(k, v);
    }
    Some(Entity { cls_id, entity_id: id, props: map, entity_type: EntityType::Projectile })
}

fn serializer(name: &str) -> Serializer {
    Serializer { name: name.to_string(), fields: vec![] }
}

fn grenade_state() -> EntityState {
    let mut special = SpecialIDs::default();
    special.is_incendiary_grenade = Some(30);
    special.grenade_owner_id = Some(31);
    special.cell_x_grenade = Some(40);
    special.cell_x_offset_grenade = Some(41);
    special.cell_y_grenade = Some(42);
    special.cell_y_offset_grenade = Some(43);
    let mut entities: Vec<Option<Entity>> = (0..12).map(|_| None).collect();
    entities[8] = entity(8, 0, vec![(30, Variant::Bool(true)), (31, Variant::U32(3)), (40, Variant::U32(32)), (41, Variant::F32(0))]);
    entities[9] = entity(9, 0, vec![(30, Variant::Bool(false))]);
    entities[10] = entity(10, 1, vec![]);
    entities[11] = entity(11, 7, vec![]);
    EntityState {
        entities,
        players: vec![(
            3,
            PlayerMetaData {
                player_entity_id: Some(3),
                steamid: Some(765),
                controller_entid: Some(1),
                name: Some("bob".to_string()),
                team_num: Some(2),
            },
        )],
        teams: Teams { team1_entid: None, team2_entid: None, team3_entid: None },
        special_ids: special,
        rules_entity_id: None,
        c4_entity_id: None,
        tick: 100,
    }
}

fn grenade_names() -> Vec<(String, String)> {
    vec![
        ("CMolotovProjectile".to_string(), "molotov".to_string()),
        ("CFlashbangProjectile".to_string(), "flashbang".to_string()),
    ]
}

#[test]
fn grenade_kinds_come_from_their_class() {
    let s = grenade_state();
    let sers = vec![serializer("CMolotovProjectile"), serializer("CFlashbangProjectile")];
    let names = grenade_names();
    assert_eq!(s.find_grenade_type(8, &sers, &names).as_deref(), Some("incendiary_grenade"));
    assert_eq!(s.find_grenade_type(9, &sers, &names).as_deref(), Some("molotov"));
    assert_eq!(s.find_grenade_type(10, &sers, &names).as_deref(), Some("flashbang"));
    assert_eq!(s.find_grenade_type(11, &sers, &names), None);
    assert_eq!(s.find_grenade_type(2, &sers, &names), None);
    assert_eq!(s.find_grenade_type(-1, &sers, &names), None);
}

#[test]
fn grenades_are_recorded_with_thrower_and_position() {
    let s = grenade_state();
    let sers = vec![serializer("CMolotovProjectile"), serializer("CFlashbangProjectile")];
    let mut records: Vec<ProjectileRecord> = Vec::new();
    s.collect_projectiles(&vec![8, 11, 9], &sers, &grenade_names(), &place, &mut records);
    assert_eq!(records.len(), 2);
    assert_eq!(records[0].entity_id, Some(8));
    assert_eq!(records[0].steamid, Some(765));
    assert_eq!(records[0].name.as_deref(), Some("bob"));
    assert_eq!(records[0].x, Some(0.0f32.to_bits()));
    assert_eq!(records[0].y, None);
    assert_eq!(records[0].z, None);
    assert_eq!(records[0].tick, Some(100));
    assert_eq!(records[0].grenade_type.as_deref(), Some("incendiary_grenade"));
    assert_eq!(records[1].entity_id, Some(9));
    assert_eq!(records[1].steamid, None);
    assert_eq!(s.collect_cell_coordinate_grenade(CoordinateAxis::Z, 8, &place), Err(PropCollectionError::GrenadeSpecialIDCellZMissing));
    assert_eq!(s.collect_cell_coordinate_grenade(CoordinateAxis::Y, 8, &place), Err(PropCollectionError::CoordinateBothNone));
}

#[test]
fn values_compare_as_floats_where_they_hold_floats() {
    let nan = f32::NAN.to_bits();
    assert!(!f32_bits_eq(nan, nan));
    assert!(f32_bits_eq(0.0f32.to_bits(), (-0.0f32).to_bits()));
    assert!(f32_bits_eq(1.5f32.to_bits(), 1.5f32.to_bits()));
    assert!(!variant_eq(&Variant::F32(nan), &Variant::F32(nan)));
    assert!(variant_eq(&Variant::U32(3), &Variant::U32(3)));
    assert!(!variant_eq(&Variant::U32(3), &Variant::I32(3)));
    assert!(!variant_eq(&Variant::I16(3), &Variant::I32(3)));
    assert!(variant_eq(&Variant::String("a".to_string()), &Variant::String("a".to_string())));
    assert!(variant_eq(&Variant::XYVec([0, 5]), &Variant::XYVec([0x8000_0000, 5])));
    let sticker = |wear: u32| Sticker { name: "s".to_string(), wear, id: 1, x: 0, y: 0 };
    assert!(variant_eq(&Variant::Stickers(vec![sticker(0)]), &Variant::Stickers(vec![sticker(0x8000_0000)])));
    assert!(!variant_eq(&Variant::Stickers(vec![sticker(nan)]), &Variant::Stickers(vec![sticker(nan)])));
    assert!(!variant_eq(&Variant::StringVec(vec!["a".to_string()]), &Variant::StringVec(vec![])));
}

fn class(id: Option<i32>, name: Option<&str>) -> ClassEntry {
    ClassEntry { class_id: id, network_name: name.map(|n| n.to_string()) }
}

#[test]
fn classes_take_their_serializer_by_name() {
    let msg = ClassInfoMsg {
        classes: vec![
            class(Some(1), Some("CWorld")),
            class(Some(0), Some("CPlayer")),
            class(Some(2), Some("CWorld")),
            class(Some(2), Some("Nothing")),
        ],
    };
    let sers = vec![serializer("CPlayer"), serializer("CWorld"), serializer("CPlayer")];
    let out = parse_class_info(&msg, sers);
    assert_eq!(out.len(), 4);
    assert_eq!(out[0].name, "CPlayer");
    assert_eq!(out[1].name, "CWorld");
    assert_eq!(out[2].name, "");
    assert_eq!(out[3].name, "");
    let missing = ClassInfoMsg { classes: vec![class(None, None)] };
    let out = parse_class_info(&missing, vec![serializer("")]);
    assert_eq!(out.len(), 1);
}

#[test]
fn numbers_are_read_as_decimal_text() {
    assert_eq!(parse_u32("12"), Some(12));
    assert_eq!(parse_u32("+5"), Some(5));
    assert_eq!(parse_u32("007"), Some(7));
    assert_eq!(parse_u32("4294967295"), Some(u32::MAX));
    assert_eq!(parse_u32("4294967296"), None);
    assert_eq!(parse_u32("99999999999999999999"), None);
    assert_eq!(parse_u32(""), None);
    assert_eq!(parse_u32("+"), None);
    assert_eq!(parse_u32("-1"), None);
    assert_eq!(parse_u32("1a"), None);
    assert_eq!(parse_u32(" 1"), None);
    for n in [0u32, 9, 10, 65535, 123456789] {
        assert_eq!(parse_u32(&n.to_string()), Some(n));
    }
}

fn player_message(name: &[u8], xuid: u64, userid: u8) -> Vec<u8> {
    let mut m = vec![0x0A, name.len() as u8];
    m.extend_from_slice(name);
    m.push(0x11);
    m.extend_from_slice(&xuid.to_le_bytes());
    m.push(0x18);
    m.push(userid);
    m
}

fn item(key: Option<&str>, data: Option<Vec<u8>>) -> TableItem {
    TableItem { str: key.map(|k| k.to_string()), data }
}

#[test]
fn full_packets_keep_baselines_and_players() {
    let mut store = StringTableStore::new();
    let mut packets: HashMap<usize, Option<PacketMsg>> = HashMap::new();
    let msg = FullPacketMsg {
        string_table: Some(vec![
            FullPacketTable {
                table_name: Some("instancebaseline".to_string()),
                items: vec![item(Some("12"), Some(vec![1, 2])), item(Some("x"), Some(vec![3])), item(Some("12"), None)],
            },
            FullPacketTable {
                table_name: Some("userinfo".to_string()),
                items: vec![
                    item(Some("0"), Some(player_message(b"ann", 76561198000000001, 4))),
                    item(Some("1"), Some(player_message(b"bot", 0, 5))),
                    item(Some("2"), Some(vec![0x0A, 0x05, b'a'])),
                ],
            },
            FullPacketTable { table_name: Some("other".to_string()), items: vec![item(Some("3"), Some(vec![9]))] },
        ]),
        packet: Some(PacketMsg { data: Some(vec![7, 7]) }),
    };
    parse_full_packet(&mut store, &mut packets, msg, 1234);
    assert_eq!(store.baselines.len(), 2);
    assert_eq!(store.baselines.get(&12), Some(&vec![]));
    assert_eq!(store.baselines.get(&u32::MAX), Some(&vec![3]));
    assert_eq!(store.stringtable_players.len(), 1);
    assert_eq!(store.stringtable_players.get(&4).map(|p| p.name.as_str()), Some("ann"));
    assert!(matches!(packets.get(&1234), Some(Some(PacketMsg { data: Some(d) })) if d == &vec![7u8, 7]));
    let mut store2 = StringTableStore::new();
    store2.parse_full_packet_stringtables(&FullPacketMsg { string_table: None, packet: None });
    assert!(store2.baselines.is_empty());
}

fn vel(a: u32, b: u32) -> u32 {
    (f32::from_bits(a) * 64.0 - f32::from_bits(b) * 64.0).to_bits()
}

fn speed(x: u32, y: u32) -> u32 {
    let (x, y) = (f32::from_bits(x), f32::from_bits(y));
    (x * x + y * y).sqrt().to_bits()
}

fn float_col(rows: Vec<Option<f32>>) -> PropColumn {
    PropColumn { data: Some(VarVec::F32(rows.into_iter().map(|r| r.map(|f| f.to_bits())).collect())), num_nones: 0 }
}

#[test]
fn speeds_come_from_the_two_latest_positions() {
    let table = vec![
        (STEAMID_ID, steamid_column(vec![Some(5), Some(6), Some(5)])),
        (PLAYER_X_ID, float_col(vec![Some(1.0), Some(9.0), Some(1.5)])),
        (PLAYER_Y_ID, float_col(vec![Some(2.0), Some(9.0), Some(2.0)])),
    ];
    assert_eq!(velocity_from_indicies(&table, 5, PLAYER_X_ID, &vel), Ok(32.0f32.to_bits()));
    assert_eq!(velocity_from_indicies(&table, 5, PLAYER_Y_ID, &vel), Ok(0.0f32.to_bits()));
    assert_eq!(collect_velocity(&table, 5, &vel, &speed), Ok(32.0f32.to_bits()));
    assert_eq!(velocity_from_indicies(&table, 6, PLAYER_X_ID, &vel), Err(PropCollectionError::VelocityNotFound));
    assert_eq!(velocity_from_indicies(&table, 5, 100000018, &vel), Err(PropCollectionError::VelocityNotFound));
}

fn settings(ticks: Vec<i32>, wanted_players: Vec<u64>, by_player: bool) -> CollectSettings {
    CollectSettings {
        parse_projectiles: false,
        order_by_steamid: by_player,
        wanted_players,
        wanted_ticks: ticks,
        has_wanted_events: false,
    }
}

#[test]
fn ticks_are_collected_when_wanted() {
    assert!(should_collect(false, &settings(vec![], vec![], false), 5));
    assert!(should_collect(false, &settings(vec![5], vec![], false), 5));
    assert!(!should_collect(false, &settings(vec![6], vec![], false), 5));
    assert!(should_collect(true, &settings(vec![6], vec![], false), 5));
    let mut with_events = settings(vec![], vec![], false);
    with_events.has_wanted_events = true;
    assert!(!should_collect(false, &with_events, 5));
}

fn meta(pawn: i32, steamid: Option<u64>, name: &str) -> PlayerMetaData {
    PlayerMetaData {
        player_entity_id: Some(pawn),
        steamid,
        controller_entid: None,
        name: Some(name.to_string()),
        team_num: None,
    }
}

fn collect_state() -> EntityState {
    let mut entities: Vec<Option<Entity>> = (0..6).map(|_| None).collect();
    entities[2] = entity(2, 0, vec![(1000, Variant::I32(100))]);
    entities[3] = entity(3, 0, vec![(1000, Variant::I32(40))]);
    EntityState {
        entities,
        players: vec![(2, meta(2, Some(22), "ann")), (3, meta(3, Some(33), "bob")), (4, meta(4, None, "nobody"))],
        teams: Teams { team1_entid: None, team2_entid: None, team3_entid: None },
        special_ids: SpecialIDs::default(),
        rules_entity_id: None,
        c4_entity_id: None,
        tick: 7,
    }
}

fn prop(name: &str, kind: PropType, id: u32) -> PropInfo {
    PropInfo { id, prop_type: kind, prop_friendly_name: name.to_string(), prop_name: name.to_string(), is_player_prop: true }
}

fn controller() -> PropController {
    let mut pc = PropController::new(
        vec![],
        vec![],
        vec![],
        vec![],
        false,
        PropTables { buttons: vec![], custom_ids: vec![], types: vec![] },
    );
    pc.prop_infos = vec![prop("health", PropType::Player, 1000), prop("name", PropType::Name, 100000015), prop("tick", PropType::Tick, 100000013)];
    pc
}

fn no_lookups() -> PropLookups {
    PropLookups {
        tables: NameTables { weapon_names: vec![], agents: vec![], player_colors: vec![], buttons: vec![] },
        users: vec![],
    }
}

fn no_floats(_k: FloatProp, _e: i32) -> Result<Variant, PropCollectionError> {
    Err(PropCollectionError::VelocityNotFound)
}

fn empty_tables() -> CollectTables {
    CollectTables { prop_data: vec![], prop_data_per_player: vec![], projectile_records: vec![] }
}

fn column<'a>(cols: &'a [(u32, PropColumn)], key: u32) -> &'a PropColumn {
    &cols.iter().find(|(k, _)| *k == key).unwrap().1
}

#[test]
fn every_player_with_a_steamid_gets_a_row() {
    let s = collect_state();
    let pc = controller();
    let mut tables = empty_tables();
    s.collect_entities(&pc, &settings(vec![], vec![], false), &no_lookups(), &vec![], &vec![], &vec![], &no_floats, &place, &vel, &speed, &mut tables);
    assert_eq!(tables.prop_data.len(), 3);
    assert!(matches!(&column(&tables.prop_data, 1000).data, Some(VarVec::I32(v)) if v == &vec![Some(100), Some(40)]));
    assert!(matches!(&column(&tables.prop_data, 100000015).data, Some(VarVec::String(v)) if v == &vec![Some("ann".to_string()), Some("bob".to_string())]));
    assert!(matches!(&column(&tables.prop_data, 100000013).data, Some(VarVec::I32(v)) if v == &vec![Some(7), Some(7)]));
    assert!(tables.prop_data_per_player.is_empty());
}

#[test]
fn only_wanted_players_and_ticks_are_collected() {
    let s = collect_state();
    let pc = controller();
    let mut tables = empty_tables();
    s.collect_entities(&pc, &settings(vec![], vec![33], false), &no_lookups(), &vec![], &vec![], &vec![], &no_floats, &place, &vel, &speed, &mut tables);
    assert!(matches!(&column(&tables.prop_data, 1000).data, Some(VarVec::I32(v)) if v == &vec![Some(40)]));
    let mut untouched = empty_tables();
    s.collect_entities(&pc, &settings(vec![8], vec![], false), &no_lookups(), &vec![], &vec![], &vec![], &no_floats, &place, &vel, &speed, &mut untouched);
    assert!(untouched.prop_data.is_empty());
}

#[test]
fn rows_go_to_each_player_when_ordered_by_steamid() {
    let s = collect_state();
    let pc = controller();
    let mut tables = empty_tables();
    s.collect_entities(&pc, &settings(vec![], vec![], true), &no_lookups(), &vec![], &vec![], &vec![], &no_floats, &place, &vel, &speed, &mut tables);
    assert!(tables.prop_data.is_empty());
    assert_eq!(tables.prop_data_per_player.len(), 2);
    let (sid, cols) = &tables.prop_data_per_player[1];
    assert_eq!(*sid, 33);
    assert!(matches!(&column(cols, 1000).data, Some(VarVec::I32(v)) if v == &vec![Some(40)]));
}

#[test]
fn a_failed_wanted_state_stops_the_tick() {
    let s = collect_state();
    let mut pc = controller();
    pc.wanted_prop_state_infos =
        vec![WantedPropStateInfo { base: prop("health", PropType::Player, 1000), wanted_prop_state: Variant::I32(100) }];
    let mut tables = empty_tables();
    s.collect_entities(&pc, &settings(vec![], vec![], false), &no_lookups(), &vec![], &vec![], &vec![], &no_floats, &place, &vel, &speed, &mut tables);
    // the first player passes and gets its row; the second fails and ends the tick
    assert!(matches!(&column(&tables.prop_data, 1000).data, Some(VarVec::I32(v)) if v == &vec![Some(100)]));
}
