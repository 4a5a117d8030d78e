use demoparser::combine::{
    combine_outputs, combine_per_player, remove_temp_props, stable_order, FirstPassSummary, SecondPassOutput,
};
use demoparser::game_types::{EventField, GameEvent, PlayerEndMetaData};
use demoparser::prop_controller::{PropController, PropInfo, PropTables, PropType};
use demoparser::variants::{PropColumn, VarVec, Variant};

const TICK_ID: u32 = 100000013;
const STEAMID_ID: u32 = 100000014;

fn controller(wanted: &[&str], infos: &[&str]) -> PropController {
    let mut pc = PropController::new(
        wanted.iter().map(|s| s.to_string()).collect(),
        vec![],
        vec![],
        vec![],
        false,
        PropTables { buttons: vec![], custom_ids: vec![], types: vec![] },
    );
    pc.prop_infos = infos
        .iter()
        .enumerate()
        .map(|(i, n)| PropInfo {
            id: i as u32,
            prop_type: PropType::Player,
            prop_friendly_name: n.to_string(),
            prop_name: n.to_string(),
            is_player_prop: true,
        })
        .collect();
    pc
}

#[test]
fn order_is_a_stable_sort_by_start() {
    assert_eq!(stable_order(&vec![30, 10, 20, 10]), vec![1, 3, 2, 0]);
    assert_eq!(stable_order(&vec![]), Vec::<usize>::new());
    assert_eq!(stable_order(&vec![5, 5, 5]), vec![0, 1, 2]);
}

#[test]
fn temporary_props_are_taken_out() {
    let mut pc = controller(&["X", "health", "Y"], &["X", "health"]);
    remove_temp_props(&mut pc, &vec!["X".to_string(), "Y".to_string()]);
    assert_eq!(pc.wanted_player_props, vec!["health".to_string()]);
    assert_eq!(pc.prop_infos.len(), 1);
    assert_eq!(pc.prop_infos[0].prop_name, "health");
}

fn i32_col(rows: Vec<Option<i32>>) -> PropColumn {
    PropColumn { data: Some(VarVec::I32(rows)), num_nones: 0 }
}

fn i32_rows(c: &PropColumn) -> Vec<Option<i32>> {
    match &c.data {
        Some(VarVec::I32(v)) => v.clone(),
        _ => panic!("not an i32 column"),
    }
}

#[test]
fn each_player_is_merged_over_the_parts() {
    let part1 = vec![(7u64, vec![(1u32, i32_col(vec![Some(1)])), (STEAMID_ID, i32_col(vec![Some(0)]))])];
    let part2 = vec![(8u64, vec![(1u32, i32_col(vec![Some(5)]))]), (7u64, vec![(1u32, i32_col(vec![Some(2), Some(3)]))])];
    let merged = combine_per_player(vec![part1, part2]);
    assert_eq!(merged.len(), 2);
    let seven = &merged.iter().find(|(s, _)| *s == 7).unwrap().1;
    assert_eq!(seven.len(), 1);
    assert_eq!(i32_rows(&seven[0].1), vec![Some(1), Some(2), Some(3)]);
    let eight = &merged.iter().find(|(s, _)| *s == 8).unwrap().1;
    assert_eq!(i32_rows(&eight[0].1), vec![Some(5)]);
}

fn event(name: &str, tick: i32) -> GameEvent {
    GameEvent { name: name.to_string(), fields: vec![EventField { name: "tick".to_string(), data: Some(Variant::I32(tick)) }], tick }
}

fn output(ptr: usize, ticks: Vec<Option<i32>>, events: Vec<GameEvent>, names: &[&str], md: &str) -> SecondPassOutput {
    SecondPassOutput {
        ptr,
        prop_data: vec![(TICK_ID, i32_col(ticks))],
        prop_data_per_player: vec![],
        item_drops: vec![],
        player_md: vec![PlayerEndMetaData { steamid: None, name: Some(md.to_string()), team_number: None }],
        game_events: events,
        skins: vec![],
        game_events_counter: names.iter().map(|s| s.to_string()).collect(),
        projectiles: vec![],
        voice_data: vec![vec![ptr as u8]],
    }
}

fn summary(ticks: Vec<i32>) -> FirstPassSummary {
    FirstPassSummary {
        prop_controller: controller(&["health", "X"], &["health", "X"]),
        header: vec![("map_name".to_string(), "de_dust2".to_string())],
        wanted_ticks: ticks,
        added_temp_props: vec!["X".to_string()],
    }
}

#[test]
fn parts_are_joined_in_order_of_their_start() {
    let late = output(500, vec![Some(3), Some(4)], vec![event("player_death", 3), event("item_sold", 4)], &["player_death"], "late");
    let early = output(100, vec![Some(1), Some(2)], vec![event("round_start", 1)], &["round_start", "player_death"], "early");
    let out = combine_outputs(vec![late, early], summary(vec![]));
    assert_eq!(i32_rows(&out.df[0].1), vec![Some(1), Some(2), Some(3), Some(4)]);
    let names: Vec<&str> = out.player_md.iter().map(|m| m.name.as_deref().unwrap()).collect();
    assert_eq!(names, vec!["early", "late"]);
    let events: Vec<&str> = out.game_events.iter().map(|e| e.name.as_str()).collect();
    assert_eq!(events, vec!["round_start", "player_death"]);
    assert_eq!(out.voice_data, vec![vec![100u8], vec![244u8]]);
    let mut counter = out.game_events_counter.clone();
    counter.sort();
    assert_eq!(counter, vec!["player_death".to_string(), "round_start".to_string()]);
    assert_eq!(out.header.as_ref().unwrap()[0].1, "de_dust2");
    assert_eq!(out.prop_controller.wanted_player_props, vec!["health".to_string()]);
    assert_eq!(out.prop_controller.prop_infos.len(), 1);
}

#[test]
fn only_wanted_ticks_are_kept_after_joining() {
    let a = output(0, vec![Some(1), Some(2)], vec![], &[], "a");
    let b = output(9, vec![Some(3), Some(4)], vec![], &[], "b");
    let out = combine_outputs(vec![a, b], summary(vec![2, 3]));
    assert_eq!(i32_rows(&out.df[0].1), vec![Some(2), Some(3)]);
}
