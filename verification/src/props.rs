use vstd::prelude::*;
use crate::strings::{str_contains, str_eq, contains_seq};

verus! {

pub const ENTITY_HANDLE_MISSING: i32 = 2047;
pub const SPECTATOR_TEAM_NUM: u32 = 1;
pub const BUTTONS_BASEID: u32 = 100000;
pub const NORMAL_PROP_BASEID: u32 = 1000;
pub const WEAPON_SKIN_NAME: u32 = 420420420;
pub const WEAPON_ORIGINGAL_OWNER_ID: u32 = 6942000;
pub const MY_WEAPONS_OFFSET: u32 = 500000;
pub const GRENADE_AMMO_ID: u32 = 1111111;
pub const INVENTORY_ID: u32 = 100000000;
pub const IS_ALIVE_ID: u32 = 100000001;
pub const GAME_TIME_ID: u32 = 100000002;
pub const ENTITY_ID_ID: u32 = 100000003;
pub const VELOCITY_X_ID: u32 = 100000004;
pub const VELOCITY_Y_ID: u32 = 100000005;
pub const VELOCITY_Z_ID: u32 = 100000006;
pub const VELOCITY_ID: u32 = 100000007;
pub const USERID_ID: u32 = 100000008;
pub const AGENT_SKIN_ID: u32 = 100000009;
pub const WEAPON_NAME_ID: u32 = 100000010;
pub const YAW_ID: u32 = 100000111;
pub const PITCH_ID: u32 = 100000012;
pub const TICK_ID: u32 = 100000013;
pub const STEAMID_ID: u32 = 100000014;
pub const NAME_ID: u32 = 100000015;
pub const PLAYER_X_ID: u32 = 100000016;
pub const PLAYER_Y_ID: u32 = 100000017;
pub const PLAYER_Z_ID: u32 = 100000018;
pub const WEAPON_STICKERS_ID: u32 = 100000019;
pub const INVENTORY_AS_IDS_ID: u32 = 100000020;
pub const IS_AIRBORNE_ID: u32 = 100000021;

pub const WEAPON_SKIN_ID: u32 = 10000000;
pub const WEAPON_PAINT_SEED: u32 = 10000001;
pub const WEAPON_FLOAT: u32 = 10000002;
pub const ITEM_PURCHASE_COUNT: u32 = 200000000;
pub const ITEM_PURCHASE_DEF_IDX: u32 = 300000000;
pub const ITEM_PURCHASE_COST: u32 = 400000000;
pub const ITEM_PURCHASE_HANDLE: u32 = 500000000;
pub const ITEM_PURCHASE_NEW_DEF_IDX: u32 = 600000000;
pub const FLATTENED_VEC_MAX_LEN: u32 = 100000;

pub const USERCMD_VIEWANGLE_X: u32 = 100000022;
pub const USERCMD_VIEWANGLE_Y: u32 = 100000023;
pub const USERCMD_VIEWANGLE_Z: u32 = 100000024;
pub const USERCMD_FORWARDMOVE: u32 = 100000025;
pub const USERCMD_IMPULSE: u32 = 100000026;
pub const USERCMD_MOUSE_DX: u32 = 100000027;
pub const USERCMD_MOUSE_DY: u32 = 100000028;
pub const USERCMD_BUTTONSTATE_1: u32 = 100000029;
pub const USERCMD_BUTTONSTATE_2: u32 = 100000030;
pub const USERCMD_BUTTONSTATE_3: u32 = 100000031;
pub const USERCMD_CONSUMED_SERVER_ANGLE_CHANGES: u32 = 100000032;
pub const USERCMD_LEFTMOVE: u32 = 100000033;
pub const USERCMD_WEAPON_SELECT: u32 = 100000034;
pub const USERCMD_SUBTICK_MOVE_ANALOG_FORWARD_DELTA: u32 = 100000035;
pub const USERCMD_SUBTICK_MOVE_ANALOG_LEFT_DELTA: u32 = 100000036;
pub const USERCMD_SUBTICK_MOVE_BUTTON: u32 = 100000037;
pub const USERCMD_SUBTICK_MOVE_WHEN: u32 = 100000038;
pub const USERCMD_SUBTICK_LEFT_HAND_DESIRED: u32 = 100000039;

pub const USERCMD_ATTACK_START_HISTORY_INDEX_1: u32 = 100000040;
pub const USERCMD_ATTACK_START_HISTORY_INDEX_2: u32 = 100000041;
pub const USERCMD_ATTACK_START_HISTORY_INDEX_3: u32 = 100000042;

pub const USERCMD_INPUT_HISTORY_BASEID: u32 = 100001000;
pub const INPUT_HISTORY_X_OFFSET: u32 = 0;
pub const INPUT_HISTORY_Y_OFFSET: u32 = 1;
pub const INPUT_HISTORY_Z_OFFSET: u32 = 2;
pub const INPUT_HISTORY_RENDER_TICK_COUNT_OFFSET: u32 = 3;
pub const INPUT_HISTORY_RENDER_TICK_FRACTION_OFFSET: u32 = 4;
pub const INPUT_HISTORY_PLAYER_TICK_COUNT_OFFSET: u32 = 5;
pub const INPUT_HISTORY_PLAYER_TICK_FRACTION_OFFSET: u32 = 6;

/// Some name in `names` contains `part`.
pub open spec fn any_contains(names: Seq<String>, part: Seq<char>) -> bool {
    exists|i: int| 0 <= i < names.len() && contains_seq(#[trigger] names[i]@, part)
}

/// Whether some name in `names` contains `part`.
fn any_name_contains(names: &[String], part: &str) -> (r: bool)
    ensures
        r == any_contains(names@, part@),
{
    let mut i: usize = 0;
    while i < names.len()
        invariant
            i <= names@.len(),
            forall|j: int| 0 <= j < i ==> !contains_seq(#[trigger] names@[j]@, part@),
        decreases names@.len() - i,
    {
        if str_contains(names[i].as_str(), part) {
            return true;
        }
        i += 1;
    }
    false
}

/// Whether any wanted prop asks for velocity: its name contains "velo".
pub fn needs_velocity(props: &[String]) -> (r: bool)
    ensures
        r == any_contains(props@, "velo"@),
{
    any_name_contains(props, "velo")
}

/// Whether any wanted prop comes from user commands: its name contains
/// "usercmd".
pub fn contains_usercmd_prop(names: &[String]) -> (r: bool)
    ensures
        r == any_contains(names@, "usercmd"@),
{
    any_name_contains(names, "usercmd")
}

/// Some name in `names` is `name`.
pub open spec fn has_name(names: Seq<String>, name: Seq<char>) -> bool {
    exists|i: int| 0 <= i < names.len() && #[trigger] names[i]@ == name
}

/// Whether `names` holds `name`.
pub fn names_contain(names: &[String], name: &str) -> (r: bool)
    ensures
        r == has_name(names@, name@),
{
    let mut i: usize = 0;
    while i < names.len()
        invariant
            i <= names@.len(),
            forall|j: int| 0 <= j < i ==> #[trigger] names@[j]@ != name@,
        decreases names@.len() - i,
    {
        if str_eq(names[i].as_str(), name) {
            return true;
        }
        i += 1;
    }
    false
}

/// The position props "X", "Y", "Z" that velocity is computed from and that
/// are not wanted already, in that order.
pub open spec fn missing_position_props(wanted: Seq<String>) -> Seq<Seq<char>> {
    let x = if has_name(wanted, "X"@) { Seq::empty() } else { seq!["X"@] };
    let y = if has_name(wanted, "Y"@) { Seq::empty() } else { seq!["Y"@] };
    let z = if has_name(wanted, "Z"@) { Seq::empty() } else { seq!["Z"@] };
    x + y + z
}

/// The player props to collect and the ones added only to work out
/// velocity: when velocity is wanted, "X", "Y" and "Z" are added unless
/// wanted already.
pub fn add_velocity_props(wanted: &[String]) -> (r: (Vec<String>, Vec<String>))
    ensures
        any_contains(wanted@, "velo"@) ==> r.1@.map_values(|s: String| s@) == missing_position_props(wanted@),
        !any_contains(wanted@, "velo"@) ==> r.1@.len() == 0,
        r.0@.map_values(|s: String| s@) == wanted@.map_values(|s: String| s@) + r.1@.map_values(|s: String| s@),
{
    let mut all: Vec<String> = Vec::new();
    let mut i: usize = 0;
    while i < wanted.len()
        invariant
            i <= wanted@.len(),
            all@.len() == i,
            forall|k: int| 0 <= k < i ==> #[trigger] all@[k]@ == wanted@[k]@,
        decreases wanted@.len() - i,
    {
        all.push(wanted[i].clone());
        i += 1;
    }
    assert(all@.map_values(|s: String| s@) =~= wanted@.map_values(|s: String| s@));
    let ghost base = all@.map_values(|s: String| s@);
    let ghost n0 = all@.len();
    let mut added: Vec<String> = Vec::new();
    if needs_velocity(wanted) {
        if !names_contain(wanted, "X") {
            added.push("X".to_string());
        }
        if !names_contain(wanted, "Y") {
            added.push("Y".to_string());
        }
        if !names_contain(wanted, "Z") {
            added.push("Z".to_string());
        }
        assert(added@.map_values(|s: String| s@) =~= missing_position_props(wanted@));
    }
    let mut j: usize = 0;
    while j < added.len()
        invariant
            j <= added@.len(),
            all@.len() == n0 + j,
            base.len() == n0,
            forall|k: int| 0 <= k < n0 ==> #[trigger] all@[k]@ == base[k],
            forall|k: int| 0 <= k < j ==> #[trigger] all@[n0 + k]@ == added@[k]@,
        decreases added@.len() - j,
    {
        all.push(added[j].clone());
        j += 1;
    }
    let ghost am = all@.map_values(|s: String| s@);
    let ghost bm = base + added@.map_values(|s: String| s@);
    assert forall|k: int| 0 <= k < all@.len() implies #[trigger] am[k] == bm[k] by {
        if k >= n0 {
            assert(all@[n0 + (k - n0)]@ == added@[k - n0]@);
        }
    }
    assert(all@.map_values(|s: String| s@) =~= base + added@.map_values(|s: String| s@));
    (all, added)
}

} // verus!
