use demoparser::demo_header::{parse_header, DemoFileHeader};
use demoparser::outputs::{combine_dfs, remove_unwanted_ticks};
use demoparser::variants::{PropColumn, VarVec, Variant};

const TICK_ID: u32 = 100000013;
const STEAMID_ID: u32 = 100000014;
const NAME_ID: u32 = 100000015;

fn column(values: &[Option<i32>]) -> PropColumn {
    let mut c = PropColumn::new();
    for v in values {
        c.push(v.map(Variant::I32));
    }
    c
}

fn i32_cells(c: &PropColumn) -> Vec<Option<i32>> {
    match &c.data {
        Some(VarVec::I32(v)) => v.clone(),
        _ => panic!("expected i32 values"),
    }
}

fn get(cols: &[(u32, PropColumn)], k: u32) -> &PropColumn {
    &cols.iter().find(|(key, _)| *key == k).unwrap().1
}

#[test]
fn unwanted_ticks_are_removed_from_every_column() {
    let mut cols = vec![
        (TICK_ID, column(&[Some(1), Some(2), None, Some(3)])),
        (7, column(&[Some(10), Some(20), Some(30), Some(40)])),
        (8, PropColumn { data: None, num_nones: 4 }),
    ];
    remove_unwanted_ticks(&mut cols, &vec![3, 1]);
    assert_eq!(i32_cells(get(&cols, TICK_ID)), vec![Some(1), Some(3)]);
    assert_eq!(i32_cells(get(&cols, 7)), vec![Some(10), Some(40)]);
    assert_eq!(get(&cols, 8).num_nones, 2);
}

#[test]
fn without_a_tick_column_nothing_changes() {
    let mut cols = vec![(7, column(&[Some(10), Some(20)]))];
    remove_unwanted_ticks(&mut cols, &vec![1]);
    assert_eq!(i32_cells(get(&cols, 7)), vec![Some(10), Some(20)]);
}

#[test]
fn parts_are_combined_key_by_key_in_order() {
    let a = vec![(7, column(&[Some(1)])), (STEAMID_ID, column(&[Some(5)]))];
    let b = vec![(8, column(&[Some(9)])), (7, column(&[Some(2), None]))];
    let combined = combine_dfs(vec![a, b], false);
    assert_eq!(combined.len(), 3);
    assert_eq!(i32_cells(get(&combined, 7)), vec![Some(1), Some(2), None]);
    assert_eq!(i32_cells(get(&combined, 8)), vec![Some(9)]);
    let a = vec![(7, column(&[Some(1)])), (STEAMID_ID, column(&[Some(5)])), (NAME_ID, column(&[None]))];
    let only = combine_dfs(vec![a], true);
    assert_eq!(only.len(), 1);
    assert!(combine_dfs(vec![], false).is_empty());
}

#[test]
fn header_fields_in_order_with_defaults() {
    let h = DemoFileHeader {
        demo_file_stamp: "PBDEMS2".to_string(),
        network_protocol: Some(14000),
        server_name: Some("srv".to_string()),
        client_name: None,
        map_name: Some("de_dust2".to_string()),
        game_directory: None,
        fullpackets_version: None,
        allow_clientside_entities: Some(true),
        allow_clientside_particles: None,
        addons: None,
        demo_version_name: None,
        demo_version_guid: None,
        build_num: Some(-1),
        game: None,
        server_start_tick: None,
    };
    let r = parse_header(&h);
    assert_eq!(r.len(), 15);
    assert_eq!(r[0], ("demo_file_stamp".to_string(), "PBDEMS2".to_string()));
    assert_eq!(r[2], ("network_protocol".to_string(), "14000".to_string()));
    assert_eq!(r[4], ("client_name".to_string(), "".to_string()));
    assert_eq!(r[5], ("map_name".to_string(), "de_dust2".to_string()));
    assert_eq!(r[7], ("fullpackets_version".to_string(), "0".to_string()));
    assert_eq!(r[8], ("allow_clientside_entities".to_string(), "true".to_string()));
    assert_eq!(r[9], ("allow_clientside_particles".to_string(), "false".to_string()));
    assert_eq!(r[11], ("build_num".to_string(), "-1".to_string()));
}
