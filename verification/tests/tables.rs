use demoparser::error::DemoParserError;
use demoparser::game_types::{
    check_entity_type, create_econ_item, get_friendly_name, rm_user_friendly_names, EconItemPreview, EntityType,
    EventField, GameEvent, SellBackHelper, Teams,
};
use demoparser::player_info::UserInfo;
use demoparser::prop_controller::split_first_dot;
use demoparser::sendtables::Serializer;
use demoparser::stringtables::{parse_string_table, CreateStringTableMsg, StringTableStore, UpdateStringTableMsg};
use demoparser::translations::{parse, trim_string};
use demoparser::variants::{filter_to_vec, PropColumn, VarVec, Variant};
use demoparser::voice::generate_wav_header;

struct BitWriter {
    bytes: Vec<u8>,
    n: usize,
}

impl BitWriter {
    fn new() -> BitWriter {
        BitWriter { bytes: Vec::new(), n: 0 }
    }
    fn bits(&mut self, v: u64, count: usize) {
        for i in 0..count {
            if self.n % 8 == 0 {
                self.bytes.push(0);
            }
            if (v >> i) & 1 == 1 {
                let last = self.bytes.len() - 1;
                self.bytes[last] |= 1 << (self.n % 8);
            }
            self.n += 1;
        }
    }
    fn text(&mut self, s: &str) {
        for b in s.bytes() {
            self.bits(b as u64, 8);
        }
        self.bits(0, 8);
    }
}

fn u32_cells(c: &PropColumn) -> Vec<Option<u32>> {
    match &c.data {
        Some(VarVec::U32(v)) => v.clone(),
        _ => panic!("expected u32 values"),
    }
}

fn player_message(name: &[u8], xuid: u64, userid: u8, hltv: bool) -> Vec<u8> {
    let mut m = vec![0x0A, name.len() as u8];
    m.extend_from_slice(name);
    m.push(0x11);
    m.extend_from_slice(&xuid.to_le_bytes());
    m.push(0x18);
    m.push(userid);
    m.push(0x30);
    m.push(hltv as u8);
    m
}

#[test]
fn column_keeps_empty_rows_before_first_value() {
    let mut c = PropColumn::new();
    c.push(None);
    c.push(None);
    assert_eq!(c.len(), 2);
    c.push(Some(Variant::U32(5)));
    assert_eq!(c.len(), 3);
    assert_eq!(u32_cells(&c), vec![None, None, Some(5)]);
    c.push(Some(Variant::Bool(true)));
    assert_eq!(c.len(), 3);
    c.push(None);
    assert_eq!(u32_cells(&c), vec![None, None, Some(5), None]);
}

#[test]
fn small_integers_start_an_i32_column_without_a_row() {
    let mut c = PropColumn::new();
    c.push(None);
    c.push(Some(Variant::I16(3)));
    assert!(matches!(c.data, Some(VarVec::I32(_))));
    assert_eq!(c.len(), 1);
}

#[test]
fn columns_extend_by_kind() {
    let mut a = PropColumn::new();
    a.push(None);
    let mut b = PropColumn::new();
    b.push(Some(Variant::U32(1)));
    b.push(Some(Variant::U32(2)));
    a.extend_from(&mut b);
    assert_eq!(a.len(), 3);
    assert_eq!(u32_cells(&a), vec![None, Some(1), Some(2)]);
    let mut empty = PropColumn::new();
    empty.push(None);
    empty.push(None);
    a.extend_from(&mut empty);
    assert_eq!(u32_cells(&a), vec![None, Some(1), Some(2), None, None]);
    let mut other = PropColumn::new();
    other.push(Some(Variant::Bool(false)));
    a.extend_from(&mut other);
    assert_eq!(a.len(), 5);
    let mut n1 = PropColumn::new();
    n1.push(None);
    let mut n2 = PropColumn::new();
    n2.push(None);
    n1.extend_from(&mut n2);
    assert!(n1.data.is_none());
    assert_eq!(n1.len(), 2);
}

#[test]
fn columns_keep_listed_rows() {
    let mut c = PropColumn::new();
    for x in [10u32, 11, 12, 13] {
        c.push(Some(Variant::U32(x)));
    }
    c.retain(&[0, 2, 9]);
    assert_eq!(u32_cells(&c), vec![Some(10), Some(12)]);
    assert_eq!(c.num_nones, 0);
    let mut e = PropColumn::new();
    e.push(None);
    e.retain(&[0, 1, 2]);
    assert_eq!(e.len(), 3);
}

#[test]
fn string_columns_hold_copies() {
    let mut a = PropColumn::new();
    a.push(Some(Variant::String("x".to_string())));
    let mut b = PropColumn::new();
    b.push(Some(Variant::String("y".to_string())));
    a.extend_from(&mut b);
    match &a.data {
        Some(VarVec::String(v)) => assert_eq!(v, &vec![Some("x".to_string()), Some("y".to_string())]),
        _ => panic!(),
    }
    match &b.data {
        Some(VarVec::String(v)) => assert_eq!(v, &vec![Some("y".to_string())]),
        _ => panic!(),
    }
}

#[test]
fn new_vectors_take_the_kind_of_their_value() {
    assert!(matches!(VarVec::new(&Variant::U8(1)), VarVec::I32(_)));
    assert!(matches!(VarVec::new(&Variant::XYVec([0, 0])), VarVec::XYVec(_)));
    assert_eq!(VarVec::new(&Variant::U64(1)).len(), 0);
}

#[test]
fn values_that_convert_are_kept() {
    let out: Vec<u8> = filter_to_vec(vec![1i32, 300, -1, 7]);
    assert_eq!(out, vec![1u8, 7]);
}

#[test]
fn players_are_read_from_protobuf() {
    let m = player_message(b"bob", 76561198000000000, 5, true);
    let u = UserInfo::from_bytes(&m).unwrap();
    assert_eq!(u.name, "bob");
    assert_eq!(u.steamid, 76561198000000000);
    assert_eq!(u.userid, 5);
    assert!(u.is_hltv);
    let empty = UserInfo::from_bytes(&[]).unwrap();
    assert_eq!(empty.steamid, 0);
    assert_eq!(empty.name, "");
    assert!(matches!(UserInfo::from_bytes(&[0x0A, 0x05, b'a']), Err(DemoParserError::MalformedMessage)));
    assert!(matches!(UserInfo::from_bytes(&[0x0A, 0x01, 0xff]), Err(DemoParserError::MalformedMessage)));
    let mut with_unknown = vec![0x48, 0x01];
    with_unknown.extend_from_slice(&m);
    assert_eq!(UserInfo::from_bytes(&with_unknown).unwrap().userid, 5);
}

fn two_entry_table() -> Vec<u8> {
    let mut w = BitWriter::new();
    // Entry 0: next index, a key "ab", a value of two bytes.
    w.bits(1, 1);
    w.bits(1, 1);
    w.bits(0, 1);
    w.text("ab");
    w.bits(1, 1);
    w.bits(2, 17);
    w.bits(1, 8);
    w.bits(2, 8);
    // Entry 1: next index, key from history: one byte of key 0, then "c".
    w.bits(1, 1);
    w.bits(1, 1);
    w.bits(1, 1);
    w.bits(0, 5);
    w.bits(1, 5);
    w.text("c");
    w.bits(0, 1);
    // Entry 2: skips two, has no key.
    w.bits(0, 1);
    w.bits(1, 8);
    w.bits(0, 1);
    w.bytes
}

#[test]
fn string_table_entries_use_key_history() {
    let out = parse_string_table(&two_entry_table(), 3, "foo".to_string(), false, 0, 0, false);
    let t = out.table.unwrap();
    assert_eq!(t.data.len(), 2);
    assert_eq!((t.data[0].idx, t.data[0].key.as_str(), t.data[0].value.clone()), (0, "ab", vec![1, 2]));
    assert_eq!((t.data[1].idx, t.data[1].key.as_str(), t.data[1].value.clone()), (1, "ac", vec![]));
    assert!(out.players.is_empty());
}

#[test]
fn string_table_that_ends_early_fails() {
    let out = parse_string_table(&two_entry_table(), 5, "foo".to_string(), false, 0, 0, false);
    assert_eq!(out.table.unwrap_err(), DemoParserError::OutOfBitsError);
}

#[test]
fn baselines_and_players_are_kept() {
    let mut w = BitWriter::new();
    w.bits(1, 1);
    w.bits(1, 1);
    w.bits(0, 1);
    w.text("12");
    w.bits(1, 1);
    w.bits(1, 17);
    w.bits(9, 8);
    let mut store = StringTableStore::new();
    let msg = CreateStringTableMsg {
        name: Some("instancebaseline".to_string()),
        num_entries: Some(1),
        user_data_fixed_size: None,
        user_data_size: None,
        flags: None,
        string_data: Some(w.bytes.clone()),
        data_compressed: None,
        using_varint_bitcounts: None,
    };
    assert_eq!(store.parse_create_stringtable(&msg), Ok(()));
    assert_eq!(store.baselines.get(&12), Some(&vec![9u8]));
    assert_eq!(store.string_tables.len(), 1);

    let player = player_message(b"ann", 42, 3, false);
    let mut p = BitWriter::new();
    p.bits(1, 1);
    p.bits(1, 1);
    p.bits(0, 1);
    p.text("0");
    p.bits(1, 1);
    p.bits(player.len() as u64, 17);
    for b in &player {
        p.bits(*b as u64, 8);
    }
    let compressed = snap::raw::Encoder::new().compress_vec(&p.bytes).unwrap();
    let msg = CreateStringTableMsg {
        name: Some("userinfo".to_string()),
        num_entries: Some(1),
        user_data_fixed_size: Some(false),
        user_data_size: Some(0),
        flags: Some(0),
        string_data: Some(compressed),
        data_compressed: Some(true),
        using_varint_bitcounts: Some(false),
    };
    assert_eq!(store.parse_create_stringtable(&msg), Ok(()));
    assert_eq!(store.stringtable_players.get(&3).unwrap().name, "ann");

    let ignored = CreateStringTableMsg {
        name: Some("soundprecache".to_string()),
        num_entries: Some(1),
        user_data_fixed_size: None,
        user_data_size: None,
        flags: None,
        string_data: None,
        data_compressed: None,
        using_varint_bitcounts: None,
    };
    assert_eq!(store.parse_create_stringtable(&ignored), Ok(()));
    assert_eq!(store.string_tables.len(), 2);

    let update = UpdateStringTableMsg { table_id: Some(7), num_changed_entries: Some(1), string_data: None };
    assert_eq!(store.update_string_table(&update, true), Err(DemoParserError::StringTableNotFound));
    assert_eq!(store.update_string_table(&update, false), Ok(()));
    let update = UpdateStringTableMsg { table_id: Some(0), num_changed_entries: Some(1), string_data: Some(w.bytes) };
    assert_eq!(store.update_string_table(&update, true), Ok(()));
    assert_eq!(store.string_tables.len(), 3);
}

#[test]
fn bad_compressed_table_is_malformed() {
    let mut store = StringTableStore::new();
    let msg = CreateStringTableMsg {
        name: Some("userinfo".to_string()),
        num_entries: Some(1),
        user_data_fixed_size: None,
        user_data_size: None,
        flags: None,
        string_data: Some(vec![0xff, 0xff, 0xff]),
        data_compressed: Some(true),
        using_varint_bitcounts: None,
    };
    assert_eq!(store.parse_create_stringtable(&msg), Err(DemoParserError::MalformedMessage));
    assert!(store.string_tables.is_empty());
}

#[test]
fn wav_header_describes_pcm() {
    let h = generate_wav_header(1, 48000, 16, 100);
    assert_eq!(h.len(), 44);
    assert_eq!(&h[0..4], b"RIFF");
    assert_eq!(&h[4..8], &136u32.to_le_bytes());
    assert_eq!(&h[8..16], b"WAVEfmt ");
    assert_eq!(&h[28..32], &96000u32.to_le_bytes());
    assert_eq!(&h[32..34], &2u16.to_le_bytes());
    assert_eq!(&h[36..40], b"data");
    assert_eq!(&h[40..44], &100u32.to_le_bytes());
}

#[test]
fn translations_are_read_line_by_line() {
    let text = "\"Key\"\t\"Value one\"\n// comment\n  a  b \nlonely\n\ntrailing \n";
    let pairs = parse(text);
    assert_eq!(
        pairs,
        vec![("Key".to_string(), "Value one".to_string()), ("a".to_string(), "b".to_string())]
    );
    let again = parse("a 1\nb 2\na 3\n");
    assert_eq!(again, vec![("a".to_string(), "3".to_string()), ("b".to_string(), "2".to_string())]);
    assert_eq!(trim_string("  \"x\"\t "), "x");
    assert_eq!(trim_string("\u{3000}y\u{a0}"), "y");
}

#[test]
fn entity_types_come_from_serializer_names() {
    let sers = vec![
        Serializer { name: "CCSPlayerController".to_string(), fields: vec![] },
        Serializer { name: "CSmokeGrenadeProjectile".to_string(), fields: vec![] },
        Serializer { name: "CWorld".to_string(), fields: vec![] },
    ];
    assert_eq!(check_entity_type(&sers, 0), Ok(EntityType::PlayerController));
    assert_eq!(check_entity_type(&sers, 1), Ok(EntityType::Projectile));
    assert_eq!(check_entity_type(&sers, 2), Ok(EntityType::Normal));
    assert_eq!(check_entity_type(&sers, 3), Err(DemoParserError::ClassNotFound));
}

#[test]
fn sales_are_read_from_events() {
    let event = GameEvent {
        name: "item_sold".to_string(),
        fields: vec![
            EventField { name: "tick".to_string(), data: Some(Variant::I32(64)) },
            EventField { name: "steamid".to_string(), data: Some(Variant::U64(7)) },
            EventField { name: "inventory_slot".to_string(), data: Some(Variant::U32(2)) },
        ],
        tick: 64,
    };
    assert_eq!(SellBackHelper::from_event(&event), Some(SellBackHelper { tick: 64, steamid: 7, inventory_slot: 2 }));
    let wrong = GameEvent {
        name: "item_sold".to_string(),
        fields: vec![EventField { name: "tick".to_string(), data: Some(Variant::U32(64)) }],
        tick: 64,
    };
    assert_eq!(SellBackHelper::from_event(&wrong), None);
}

#[test]
fn friendly_names_come_from_the_table() {
    let table = vec![("X".to_string(), "CCSPlayerPawn.m_vecX".to_string())];
    assert_eq!(get_friendly_name(&"X".to_string(), &table), Ok("CCSPlayerPawn.m_vecX".to_string()));
    assert_eq!(
        rm_user_friendly_names(&vec!["X".to_string(), "nope".to_string()], &table),
        Err(DemoParserError::UnknownPropName("nope".to_string()))
    );
}

#[test]
fn econ_items_get_names() {
    let preview = EconItemPreview {
        accountid: Some(1),
        itemid: Some(2),
        defindex: Some(7),
        paintindex: Some(44),
        rarity: None,
        quality: None,
        paintwear: None,
        paintseed: None,
        questid: None,
        dropreason: None,
        customname: Some("mine".to_string()),
        inventory: None,
        entindex: Some(3),
    };
    let weapons = vec![(7u32, "ak47".to_string())];
    let kits = vec![(1u32, "x".to_string())];
    let item = create_econ_item(&preview, Some(9), &weapons, &kits);
    assert_eq!(item.item_name, Some("ak47".to_string()));
    assert_eq!(item.skin_name, None);
    assert_eq!(item.custom_name, Some("mine".to_string()));
    assert_eq!(item.steamid, Some(9));
    assert_eq!(Teams::default().team1_entid, None);
}

#[test]
fn dotted_names_split_at_first_dot() {
    assert_eq!(split_first_dot("CAK47.m_iClip1.x"), ("CAK47".to_string(), "m_iClip1.x".to_string()));
    assert_eq!(split_first_dot("plain"), ("plain".to_string(), String::new()));
}

#[test]
fn friendly_names_report_the_first_unknown_one() {
    let table = vec![("X".to_string(), "CCSPlayerPawn.m_vecX".to_string())];
    let names = vec!["X".to_string(), "first".to_string(), "second".to_string()];
    assert_eq!(rm_user_friendly_names(&names, &table), Err(DemoParserError::UnknownPropName("first".to_string())));
    assert_eq!(
        rm_user_friendly_names(&vec!["X".to_string(), "X".to_string()], &table),
        Ok(vec!["CCSPlayerPawn.m_vecX".to_string(), "CCSPlayerPawn.m_vecX".to_string()])
    );
}

#[test]
fn unknown_groups_are_skipped_to_their_end() {
    // field 7 as a group holding a varint and a nested group 8, then userid 42
    let m = [0x3B, 0x08, 0x05, 0x43, 0x10, 0x01, 0x44, 0x3C, 0x18, 0x2A];
    assert_eq!(UserInfo::from_bytes(&m).unwrap().userid, 42);
    // a group closed by another number's end
    assert!(matches!(UserInfo::from_bytes(&[0x3B, 0x44, 0x18, 0x2A]), Err(DemoParserError::MalformedMessage)));
    // a group end with no group open
    assert!(matches!(UserInfo::from_bytes(&[0x3C, 0x18, 0x2A]), Err(DemoParserError::MalformedMessage)));
    // a group that never ends
    assert!(matches!(UserInfo::from_bytes(&[0x3B, 0x08, 0x05]), Err(DemoParserError::MalformedMessage)));
    // a known field sent as a group
    assert!(matches!(UserInfo::from_bytes(&[0x1B, 0x1C]), Err(DemoParserError::MalformedMessage)));
}

#[test]
fn groups_nest_at_most_a_hundred_deep() {
    let mut ok = Vec::new();
    for _ in 0..99 {
        ok.push(0x3B);
    }
    for _ in 0..99 {
        ok.push(0x3C);
    }
    assert!(UserInfo::from_bytes(&ok).is_ok());
    let mut deep = Vec::new();
    for _ in 0..101 {
        deep.push(0x3B);
    }
    for _ in 0..101 {
        deep.push(0x3C);
    }
    assert!(matches!(UserInfo::from_bytes(&deep), Err(DemoParserError::MalformedMessage)));
}
