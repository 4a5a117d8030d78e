use vstd::prelude::*;
use crate::variants::{Variant, VarKind, Cell, PropColumn, variant_view, blank_cell, blanks, variant_kind, pushed_cells};
use crate::outputs::{ColumnModel, col_model, cols_map, keys_unique, model_len, lemma_cols_map_index, lemma_cols_map_update, position_of_key};
use crate::collect::VarView;
use crate::variants::VarVec;
use crate::game_types::PropCollectionError;
use crate::coordinates::{latest_row, steamid_rows, find_wanted_indicies, index_coordinates_from_propcol};
use crate::props::{STEAMID_ID, PLAYER_X_ID, PLAYER_Y_ID, PLAYER_Z_ID};
use crate::collect::{FloatProp, PropLookups, float_kind, float_custom_kind, outcome_view, prop_outcome};
use crate::prop_controller::{PropInfo, PropType};
use crate::game_types::PlayerMetaData;
use crate::entity_state::EntityState;
use crate::prop_controller::{PropController, WantedPropStateInfo};
use crate::equality::{views_equal, variant_eq};
use crate::projectiles::ProjectileRecord;
use crate::sendtables::Serializer;

verus! {

/// An optional value as a mathematical value.
pub open spec fn item_view(item: Option<Variant>) -> Option<VarView> {
    match item {
        Some(v) => Some(variant_view(v)),
        None => None,
    }
}

/// The rows of a column of kind `kind` after `item` is pushed: a missing
/// value is an empty row, and a value of another kind is not taken.
pub open spec fn view_pushed(kind: VarKind, cells: Seq<Cell>, item: Option<VarView>) -> Seq<Cell> {
    match item {
        None => cells.push(blank_cell(kind)),
        Some(v) => if v.0 == kind && !v.2 && !v.3 { cells.push(v.1) } else { cells },
    }
}

/// A column after `item` is pushed: the first value fixes its kind, with
/// the empty rows before it kept as empty rows of that kind.
pub open spec fn push_model(m: ColumnModel, item: Option<VarView>) -> ColumnModel {
    match m.0 {
        None => match item {
            None => (None, m.1 + 1),
            Some(v) => (Some((v.0, view_pushed(v.0, blanks(v.0, m.1), item))), 0),
        },
        Some((k, cells)) => (Some((k, view_pushed(k, cells, item))), m.1),
    }
}

/// A column with no rows.
pub open spec fn empty_model() -> ColumnModel {
    (None, 0nat)
}

/// The columns after `item` is pushed onto the column under `key`, which
/// starts empty where there is none.
pub open spec fn table_push(t: Map<u32, ColumnModel>, key: u32, item: Option<VarView>) -> Map<u32, ColumnModel> {
    t.insert(key, push_model(if t.contains_key(key) { t[key] } else { empty_model() }, item))
}

/// Every column of `t` can take `budget` more rows.
pub open spec fn fits(t: Map<u32, ColumnModel>, budget: int) -> bool {
    forall|k: u32| #[trigger] t.contains_key(k) ==> model_len(t[k]) + budget < usize::MAX
}

/// `PropColumn::push` as a function of the models.
proof fn lemma_push_model(before: PropColumn, after: PropColumn, item: Option<Variant>)
    requires
        match before.data {
            None => match item {
                None => after.data is None && after.num_nones == before.num_nones + 1,
                Some(v) => after.num_nones == 0 && (after.data matches Some(d)
                    && d.kind() == variant_kind(v)
                    && d.cells() == pushed_cells(variant_kind(v), blanks(variant_kind(v), before.num_nones as nat), item)),
            },
            Some(od) => after.num_nones == before.num_nones && (after.data matches Some(d)
                && d.kind() == od.kind() && d.cells() == pushed_cells(od.kind(), od.cells(), item)),
        },
    ensures
        col_model(after) == push_model(col_model(before), item_view(item)),
        model_len(col_model(after)) <= model_len(col_model(before)) + 1,
{
}

/// Pushes `item` onto the column under `key`, making the column where
/// there is none, as `table_push` says.
pub(crate) fn push_item(table: &mut Vec<(u32, PropColumn)>, key: u32, item: Option<Variant>, Ghost(budget): Ghost<int>)
    requires
        keys_unique(old(table)@),
        fits(cols_map(old(table)@), budget),
        budget >= 1,
        budget < usize::MAX,
    ensures
        keys_unique(final(table)@),
        cols_map(final(table)@) == table_push(cols_map(old(table)@), key, item_view(item)),
        fits(cols_map(final(table)@), budget - 1),
{
    proof {
        lemma_cols_map_index(table@);
    }
    let ghost t0 = table@;
    match position_of_key(table, key) {
        Some(i) => {
            let mut cur = (0u32, PropColumn::new());
            std::mem::swap(&mut cur, &mut table[i]);
            assert(cur == t0[i as int]);
            let ghost c_old = cur.1;
            assert(cols_map(t0).contains_key(key));
            assert(c_old.spec_len() == model_len(col_model(c_old)));
            cur.1.push(item);
            proof {
                lemma_push_model(c_old, cur.1, item);
            }
            table.set(i, cur);
            proof {
                assert(table@ =~= t0.update(i as int, (key, cur.1)));
                lemma_cols_map_update(t0, i as int, cur.1);
                assert(cols_map(table@) =~= table_push(cols_map(t0), key, item_view(item)));
            }
        },
        None => {
            assert(!cols_map(t0).contains_key(key)) by {
                if cols_map(t0).contains_key(key) {
                    let t = choose|t: int| 0 <= t < t0.len() && #[trigger] t0[t].0 == key;
                }
            }
            let mut c = PropColumn::new();
            let ghost c0 = c;
            c.push(item);
            proof {
                lemma_push_model(c0, c, item);
            }
            table.push((key, c));
            proof {
                assert(table@.drop_last() =~= t0);
                assert forall|x: int, y: int| 0 <= x < y < table@.len() implies table@[x].0 != table@[y].0 by {
                    assert(table@[x] == t0[x]);
                    if y == table@.len() - 1 {
                        assert(cols_map(t0).contains_key(t0[x].0));
                    } else {
                        assert(table@[y] == t0[y]);
                    }
                }
                assert(cols_map(table@) =~= table_push(cols_map(t0), key, item_view(item)));
            }
        },
    }
}

/// The columns of each player, by steam id.
pub open spec fn players_cols(v: Seq<(u64, Vec<(u32, PropColumn)>)>) -> Map<u64, Map<u32, ColumnModel>>
    decreases v.len(),
{
    if v.len() == 0 {
        Map::empty()
    } else {
        players_cols(v.drop_last()).insert(v.last().0, cols_map(v.last().1@))
    }
}

/// The steam ids are distinct, and so are the keys of each player's columns.
pub open spec fn players_valid(v: Seq<(u64, Vec<(u32, PropColumn)>)>) -> bool {
    &&& forall|i: int, j: int| 0 <= i < j < v.len() ==> v[i].0 != v[j].0
    &&& forall|i: int| 0 <= i < v.len() ==> keys_unique(#[trigger] v[i].1@)
}

/// Every player's columns can take `budget` more rows.
pub open spec fn players_fit(m: Map<u64, Map<u32, ColumnModel>>, budget: int) -> bool {
    forall|s: u64| #[trigger] m.contains_key(s) ==> fits(m[s], budget)
}

/// The columns after `item` is pushed onto player `sid`'s column `key`.
pub open spec fn player_push(m: Map<u64, Map<u32, ColumnModel>>, sid: u64, key: u32, item: Option<VarView>)
    -> Map<u64, Map<u32, ColumnModel>> {
    m.insert(sid, table_push(if m.contains_key(sid) { m[sid] } else { Map::empty() }, key, item))
}

/// With distinct steam ids, the map holds each listed player's columns.
proof fn lemma_players_index(v: Seq<(u64, Vec<(u32, PropColumn)>)>)
    requires
        forall|i: int, j: int| 0 <= i < j < v.len() ==> v[i].0 != v[j].0,
    ensures
        forall|i: int| 0 <= i < v.len() ==> players_cols(v).contains_key(#[trigger] v[i].0)
            && players_cols(v)[v[i].0] == cols_map(v[i].1@),
        forall|s: u64| players_cols(v).contains_key(s) ==> exists|i: int| 0 <= i < v.len() && #[trigger] v[i].0 == s,
    decreases v.len(),
{
    if v.len() > 0 {
        let front = v.drop_last();
        lemma_players_index(front);
        assert forall|i: int| 0 <= i < v.len() implies players_cols(v).contains_key(#[trigger] v[i].0)
            && players_cols(v)[v[i].0] == cols_map(v[i].1@) by {
            if i < v.len() - 1 {
                assert(front[i] == v[i]);
            }
        }
        assert forall|s: u64| players_cols(v).contains_key(s) implies exists|i: int| 0 <= i < v.len() && #[trigger] v[i].0 == s by {
            if s == v.last().0 {
                assert(v[v.len() - 1].0 == s);
            } else {
                assert(players_cols(front).contains_key(s));
                let i = choose|i: int| 0 <= i < front.len() && #[trigger] front[i].0 == s;
                assert(front[i] == v[i]);
            }
        }
    }
}

/// Replacing the columns of the player at position `i`.
proof fn lemma_players_update(v: Seq<(u64, Vec<(u32, PropColumn)>)>, i: int, c: Vec<(u32, PropColumn)>)
    requires
        forall|a: int, b: int| 0 <= a < b < v.len() ==> v[a].0 != v[b].0,
        0 <= i < v.len(),
    ensures
        players_cols(v.update(i, (v[i].0, c))) == players_cols(v).insert(v[i].0, cols_map(c@)),
    decreases v.len(),
{
    let u = v.update(i, (v[i].0, c));
    let front = v.drop_last();
    if i == v.len() - 1 {
        assert(u.drop_last() =~= front);
        lemma_players_index(front);
        assert(!players_cols(front).contains_key(v[i].0)) by {
            if players_cols(front).contains_key(v[i].0) {
                let j = choose|j: int| 0 <= j < front.len() && #[trigger] front[j].0 == v[i].0;
                assert(front[j] == v[j]);
            }
        }
        assert(players_cols(u) =~= players_cols(v).insert(v[i].0, cols_map(c@)));
    } else {
        lemma_players_update(front, i, c);
        assert(u.drop_last() =~= front.update(i, (v[i].0, c)));
        assert(u.last() == v.last());
        assert(players_cols(u) =~= players_cols(v).insert(v[i].0, cols_map(c@)));
    }
}

/// The position of player `sid`'s columns.
fn position_of_player(v: &Vec<(u64, Vec<(u32, PropColumn)>)>, sid: u64) -> (r: Option<usize>)
    ensures
        match r {
            Some(i) => i < v@.len() && v@[i as int].0 == sid,
            None => forall|i: int| 0 <= i < v@.len() ==> v@[i].0 != sid,
        },
{
    let mut i: usize = 0;
    while i < v.len()
        invariant
            i <= v@.len(),
            forall|j: int| 0 <= j < i ==> v@[j].0 != sid,
        decreases v@.len() - i,
    {
        if v[i].0 == sid {
            return Some(i);
        }
        i += 1;
    }
    None
}

/// Pushes `item` onto player `sid`'s column `key`, as `player_push` says.
pub(crate) fn push_player_item(pp: &mut Vec<(u64, Vec<(u32, PropColumn)>)>, sid: u64, key: u32, item: Option<Variant>,
    Ghost(budget): Ghost<int>)
    requires
        players_valid(old(pp)@),
        players_fit(players_cols(old(pp)@), budget),
        budget >= 1,
        budget < usize::MAX,
    ensures
        players_valid(final(pp)@),
        players_cols(final(pp)@) == player_push(players_cols(old(pp)@), sid, key, item_view(item)),
        players_fit(players_cols(final(pp)@), budget - 1),
{
    let ghost v0 = pp@;
    proof {
        lemma_players_index(v0);
    }
    match position_of_player(pp, sid) {
        Some(i) => {
            let mut cur: (u64, Vec<(u32, PropColumn)>) = (0u64, Vec::new());
            std::mem::swap(&mut cur, &mut pp[i]);
            assert(cur == v0[i as int]);
            assert(players_cols(v0).contains_key(sid));
            assert(keys_unique(v0[i as int].1@));
            push_item(&mut cur.1, key, item, Ghost(budget));
            pp.set(i, cur);
            proof {
                assert(pp@ =~= v0.update(i as int, (sid, cur.1)));
                lemma_players_update(v0, i as int, cur.1);
                assert forall|a: int, b: int| 0 <= a < b < pp@.len() implies pp@[a].0 != pp@[b].0 by {
                    assert(pp@[a].0 == v0[a].0);
                    assert(pp@[b].0 == v0[b].0);
                }
                assert forall|a: int| 0 <= a < pp@.len() implies keys_unique(#[trigger] pp@[a].1@) by {
                    if a != i {
                        assert(pp@[a] == v0[a]);
                    }
                }
                assert(players_cols(pp@) =~= player_push(players_cols(v0), sid, key, item_view(item)));
                assert forall|s: u64| #[trigger] players_cols(pp@).contains_key(s) implies fits(players_cols(pp@)[s], budget - 1) by {
                    if s != sid {
                        assert(players_cols(v0).contains_key(s));
                        assert forall|k: u32| #[trigger] players_cols(pp@)[s].contains_key(k) implies
                            model_len(players_cols(pp@)[s][k]) + (budget - 1) < usize::MAX by {
                            assert(players_cols(v0)[s].contains_key(k));
                        }
                    }
                }
            }
        },
        None => {
            assert(!players_cols(v0).contains_key(sid)) by {
                if players_cols(v0).contains_key(sid) {
                    let t = choose|t: int| 0 <= t < v0.len() && #[trigger] v0[t].0 == sid;
                }
            }
            let mut cols: Vec<(u32, PropColumn)> = Vec::new();
            assert(cols_map(cols@) =~= Map::<u32, ColumnModel>::empty());
            push_item(&mut cols, key, item, Ghost(budget));
            pp.push((sid, cols));
            proof {
                assert(pp@.drop_last() =~= v0);
                assert forall|a: int, b: int| 0 <= a < b < pp@.len() implies pp@[a].0 != pp@[b].0 by {
                    assert(pp@[a] == v0[a]);
                    if b == pp@.len() - 1 {
                        assert(players_cols(v0).contains_key(v0[a].0));
                    } else {
                        assert(pp@[b] == v0[b]);
                    }
                }
                assert forall|a: int| 0 <= a < pp@.len() implies keys_unique(#[trigger] pp@[a].1@) by {
                    if a < pp@.len() - 1 {
                        assert(pp@[a] == v0[a]);
                    }
                }
                assert(players_cols(pp@) =~= player_push(players_cols(v0), sid, key, item_view(item)));
                assert forall|s: u64| #[trigger] players_cols(pp@).contains_key(s) implies fits(players_cols(pp@)[s], budget - 1) by {
                    if s != sid {
                        assert(players_cols(v0).contains_key(s));
                        assert forall|k: u32| #[trigger] players_cols(pp@)[s].contains_key(k) implies
                            model_len(players_cols(pp@)[s][k]) + (budget - 1) < usize::MAX by {
                            assert(players_cols(v0)[s].contains_key(k));
                        }
                    }
                }
            }
        },
    }
}

/// The steam ids a column holds, where it is a column of steam ids.
pub open spec fn model_steamids(m: ColumnModel) -> Option<Seq<Option<u64>>> {
    match m.0 {
        Some((VarKind::U64, cells)) => Some(cells.map_values(|c: Cell| match c { Cell::U64(x) => Some(x), _ => None })),
        _ => None,
    }
}

/// The `f32` bits a column holds, where it is a column of floats.
pub open spec fn model_floats(m: ColumnModel) -> Option<Seq<Option<u32>>> {
    match m.0 {
        Some((VarKind::F32, cells)) => Some(cells.map_values(|c: Cell| match c { Cell::F32(x) => Some(x), _ => None })),
        _ => None,
    }
}

/// The result of a deterministic two-argument step on `a` and `b`.
pub open spec fn step_of<V: Fn(u32, u32) -> u32>(f: V, a: u32, b: u32) -> u32 {
    choose|r: u32| f.ensures((a, b), r)
}

/// A two-argument step that always returns and gives one result per arguments.
pub open spec fn deterministic<V: Fn(u32, u32) -> u32>(f: V) -> bool {
    &&& forall|a: u32, b: u32| f.requires((a, b))
    &&& forall|a: u32, b: u32, r1: u32, r2: u32| #[trigger] f.ensures((a, b), r1) && #[trigger] f.ensures((a, b), r2) ==> r1 == r2
}

/// The rows of player `sid` that a speed is worked out from: its last row
/// of the steam-id column, and the one before.
pub open spec fn velocity_rows(t: Map<u32, ColumnModel>, sid: u64) -> Option<(int, int)> {
    if t.contains_key(STEAMID_ID) {
        match model_steamids(t[STEAMID_ID]) {
            Some(rows) => match latest_row(rows, sid, -1) {
                Some(a) => match latest_row(rows, sid, a) {
                    Some(b) => Some((a, b)),
                    None => None,
                },
                None => None,
            },
            None => None,
        }
    } else {
        None
    }
}

/// Player `sid`'s speed along the axis whose column is `axis_id`, as `f32`
/// bits: the step `vel` applied to its positions at the two rows of
/// `velocity_rows`; not found where either position is missing.
pub open spec fn axis_velocity<V: Fn(u32, u32) -> u32>(t: Map<u32, ColumnModel>, sid: u64, axis_id: u32, vel: V)
    -> Result<u32, PropCollectionError> {
    match velocity_rows(t, sid) {
        Some((a, b)) => if t.contains_key(axis_id) {
            match model_floats(t[axis_id]) {
                Some(xs) => if a < xs.len() && b < xs.len() {
                    match (xs[a], xs[b]) {
                        (Some(x1), Some(x2)) => Ok(step_of(vel, x1, x2)),
                        _ => Err(PropCollectionError::VelocityNotFound),
                    }
                } else {
                    Err(PropCollectionError::VelocityNotFound)
                },
                None => Err(PropCollectionError::VelocityNotFound),
            }
        } else {
            Err(PropCollectionError::VelocityNotFound)
        },
        None => Err(PropCollectionError::VelocityNotFound),
    }
}

/// Player `sid`'s speed in the plane, as `f32` bits: the step `speed` on
/// its speeds along the two horizontal axes.
pub open spec fn plane_velocity<V: Fn(u32, u32) -> u32, S: Fn(u32, u32) -> u32>(t: Map<u32, ColumnModel>, sid: u64, vel: V, speed: S)
    -> Result<u32, PropCollectionError> {
    match (axis_velocity(t, sid, PLAYER_X_ID, vel), axis_velocity(t, sid, PLAYER_Y_ID, vel)) {
        (Ok(x), Ok(y)) => Ok(step_of(speed, x, y)),
        (Err(e), _) => Err(e),
        (_, Err(e)) => Err(e),
    }
}

/// The column under `key`.
fn column_at(table: &Vec<(u32, PropColumn)>, key: u32) -> (r: Option<&PropColumn>)
    requires
        keys_unique(table@),
    ensures
        match r {
            Some(c) => cols_map(table@).contains_key(key) && col_model(*c) == cols_map(table@)[key],
            None => !cols_map(table@).contains_key(key),
        },
{
    proof {
        lemma_cols_map_index(table@);
    }
    match position_of_key(table, key) {
        Some(i) => Some(&table[i].1),
        None => {
            assert(!cols_map(table@).contains_key(key)) by {
                if cols_map(table@).contains_key(key) {
                    let t = choose|t: int| 0 <= t < table@.len() && #[trigger] table@[t].0 == key;
                }
            }
            None
        },
    }
}

/// The steam ids of a column read from its model.
proof fn lemma_model_steamids(c: Option<PropColumn>)
    ensures
        steamid_rows(c) == match c { Some(col) => model_steamids(col_model(col)), None => None },
{
    if let Some(col) = c {
        if let Some(VarVec::U64(v)) = col.data {
            let cells = col.data->Some_0.cells();
            assert(cells.map_values(|c: Cell| match c { Cell::U64(x) => Some(x), _ => None }) =~= v@);
        }
    }
}

/// The floats of a column read from its model.
proof fn lemma_model_floats(col: PropColumn)
    ensures
        match col.data {
            Some(VarVec::F32(v)) => model_floats(col_model(col)) == Some(v@),
            _ => model_floats(col_model(col)) is None,
        },
{
    if let Some(VarVec::F32(v)) = col.data {
        let cells = col.data->Some_0.cells();
        assert(cells.map_values(|c: Cell| match c { Cell::F32(x) => Some(x), _ => None }) =~= v@);
    }
}

/// A deterministic step gives its one result.
proof fn lemma_step<V: Fn(u32, u32) -> u32>(f: V, a: u32, b: u32, r: u32)
    requires
        deterministic(f),
        f.ensures((a, b), r),
    ensures
        r == step_of(f, a, b),
{
    assert(f.ensures((a, b), step_of(f, a, b)));
}

/// Player `sid`'s speed along the axis whose column is `axis_id`, as
/// `axis_velocity` says; the step from two positions to a speed is `vel`.
pub fn velocity_from_indicies<V: Fn(u32, u32) -> u32>(table: &Vec<(u32, PropColumn)>, sid: u64, axis_id: u32, vel: &V)
    -> (r: Result<u32, PropCollectionError>)
    requires
        keys_unique(table@),
        deterministic(*vel),
    ensures
        r == axis_velocity(cols_map(table@), sid, axis_id, *vel),
{
    let steamids = column_at(table, STEAMID_ID);
    let idx = find_wanted_indicies(steamids, sid);
    proof {
        lemma_model_steamids(match steamids { Some(c) => Some(*c), None => None });
    }
    let col = match column_at(table, axis_id) {
        Some(c) => c,
        None => return Err(PropCollectionError::VelocityNotFound),
    };
    proof {
        lemma_model_floats(*col);
    }
    let ghost t = cols_map(table@);
    if idx.len() != 2 {
        return Err(PropCollectionError::VelocityNotFound);
    }
    assert(velocity_rows(t, sid) == Some((idx@[0] as int, idx@[1] as int)));
    assert(t.contains_key(axis_id) && col_model(*col) == t[axis_id]);
    let in_range = match &col.data {
        Some(VarVec::F32(v)) => idx[0] < v.len() && idx[1] < v.len(),
        _ => false,
    };
    if !in_range {
        return Err(PropCollectionError::VelocityNotFound);
    }
    match index_coordinates_from_propcol(col, idx.as_slice()) {
        Some((Some(a), Some(b))) => {
            let v = vel(a, b);
            proof {
                lemma_step(*vel, a, b, v);
            }
            Ok(v)
        },
        _ => Err(PropCollectionError::VelocityNotFound),
    }
}

/// Player `sid`'s speed in the plane, as `plane_velocity` says.
pub fn collect_velocity<V: Fn(u32, u32) -> u32, S: Fn(u32, u32) -> u32>(table: &Vec<(u32, PropColumn)>, sid: u64,
    vel: &V, speed: &S) -> (r: Result<u32, PropCollectionError>)
    requires
        keys_unique(table@),
        deterministic(*vel),
        deterministic(*speed),
    ensures
        r == plane_velocity(cols_map(table@), sid, *vel, *speed),
{
    let x = velocity_from_indicies(table, sid, PLAYER_X_ID, vel)?;
    let y = velocity_from_indicies(table, sid, PLAYER_Y_ID, vel)?;
    let v = speed(x, y);
    proof {
        lemma_step(*speed, x, y, v);
    }
    Ok(v)
}

/// The outcome a deterministic step for the floating-point kinds gives.
pub open spec fn float_out<F: Fn(FloatProp, i32) -> Result<Variant, PropCollectionError>>(f: F, k: FloatProp, e: i32)
    -> Result<VarView, PropCollectionError> {
    outcome_view(choose|r: Result<Variant, PropCollectionError>| f.ensures((k, e), r))
}

/// The step for the floating-point kinds always returns, and gives one
/// outcome (up to copies) per kind and entity.
pub open spec fn float_deterministic<F: Fn(FloatProp, i32) -> Result<Variant, PropCollectionError>>(f: F) -> bool {
    &&& forall|k: FloatProp, e: i32| f.requires((k, e))
    &&& forall|k: FloatProp, e: i32, r1: Result<Variant, PropCollectionError>, r2: Result<Variant, PropCollectionError>|
        #[trigger] f.ensures((k, e), r1) && #[trigger] f.ensures((k, e), r2) ==> outcome_view(r1) == outcome_view(r2)
}

/// A speed in `f32` bits as an outcome.
pub open spec fn bits_out(r: Result<u32, PropCollectionError>) -> Result<VarView, PropCollectionError> {
    match r {
        Ok(b) => Ok(variant_view(Variant::F32(b))),
        Err(e) => Err(e),
    }
}

/// The value of property `info` for the player with pawn `e` at this tick:
/// speeds are read from the columns `t` collected so far, the other
/// floating-point kinds come from `f`, and the rest as `prop_outcome` says.
pub open spec fn tick_value<F: Fn(FloatProp, i32) -> Result<Variant, PropCollectionError>, V: Fn(u32, u32) -> u32,
    S: Fn(u32, u32) -> u32>(st: EntityState, info: PropInfo, e: i32, player: PlayerMetaData, lk: PropLookups,
    t: Map<u32, ColumnModel>, f: F, vel: V, speed: S) -> Result<VarView, PropCollectionError> {
    match float_kind(info) {
        Some(FloatProp::Velocity) => match player.steamid {
            Some(s) => bits_out(plane_velocity(t, s, vel, speed)),
            None => Err(PropCollectionError::PlayerNotFound),
        },
        Some(FloatProp::VelocityX) => match player.steamid {
            Some(s) => bits_out(axis_velocity(t, s, PLAYER_X_ID, vel)),
            None => Err(PropCollectionError::PlayerNotFound),
        },
        Some(FloatProp::VelocityY) => match player.steamid {
            Some(s) => bits_out(axis_velocity(t, s, PLAYER_Y_ID, vel)),
            None => Err(PropCollectionError::PlayerNotFound),
        },
        Some(FloatProp::VelocityZ) => match player.steamid {
            Some(s) => bits_out(axis_velocity(t, s, PLAYER_Z_ID, vel)),
            None => Err(PropCollectionError::PlayerNotFound),
        },
        Some(k) => float_out(f, k, e),
        None => prop_outcome(st, info, e, player, lk),
    }
}

/// The floating-point kind of a property.
fn kind_of(info: &PropInfo) -> (r: Option<FloatProp>)
    ensures
        r == float_kind(*info),
{
    match info.prop_type {
        PropType::GameTime => Some(FloatProp::GameTime),
        PropType::Custom => float_custom_kind(info.prop_name.as_str()),
        _ => None,
    }
}

/// A speed in `f32` bits as a value.
fn bits_value(r: Result<u32, PropCollectionError>) -> (out: Result<Variant, PropCollectionError>)
    ensures
        outcome_view(out) == bits_out(r),
{
    match r {
        Ok(b) => Ok(Variant::F32(b)),
        Err(e) => Err(e),
    }
}

impl EntityState {
    /// The value of property `info` for the player with pawn `e`, as
    /// `tick_value` says, with the global columns `table`.
    pub fn tick_item<F: Fn(FloatProp, i32) -> Result<Variant, PropCollectionError>, V: Fn(u32, u32) -> u32,
        S: Fn(u32, u32) -> u32>(&self, info: &PropInfo, e: i32, player: &PlayerMetaData, lk: &PropLookups,
        table: &Vec<(u32, PropColumn)>, f: &F, vel: &V, speed: &S) -> (r: Result<Variant, PropCollectionError>)
        requires
            keys_unique(table@),
            float_deterministic(*f),
            deterministic(*vel),
            deterministic(*speed),
        ensures
            outcome_view(r) == tick_value(*self, *info, e, *player, *lk, cols_map(table@), *f, *vel, *speed),
    {
        let kind = kind_of(info);
        match kind {
            Some(FloatProp::Velocity) => match player.steamid {
                Some(s) => bits_value(collect_velocity(table, s, vel, speed)),
                None => Err(PropCollectionError::PlayerNotFound),
            },
            Some(FloatProp::VelocityX) => match player.steamid {
                Some(s) => bits_value(velocity_from_indicies(table, s, PLAYER_X_ID, vel)),
                None => Err(PropCollectionError::PlayerNotFound),
            },
            Some(FloatProp::VelocityY) => match player.steamid {
                Some(s) => bits_value(velocity_from_indicies(table, s, PLAYER_Y_ID, vel)),
                None => Err(PropCollectionError::PlayerNotFound),
            },
            Some(FloatProp::VelocityZ) => match player.steamid {
                Some(s) => bits_value(velocity_from_indicies(table, s, PLAYER_Z_ID, vel)),
                None => Err(PropCollectionError::PlayerNotFound),
            },
            _ => {
                let r = self.find_prop(info, e, player, lk, f);
                proof {
                    if let Some(k) = kind {
                        let w = choose|w: Result<Variant, PropCollectionError>| f.ensures((k, e), w);
                        assert(f.ensures((k, e), r));
                        assert(f.ensures((k, e), w));
                    }
                }
                r
            },
        }
    }
}

/// The value an outcome holds, if any.
pub open spec fn ok_view(r: Result<VarView, PropCollectionError>) -> Option<VarView> {
    match r {
        Ok(v) => Some(v),
        Err(_) => None,
    }
}

/// What one tick's collection fills: the columns of all players together,
/// the columns of each player by steam id, and the grenade records.
#[derive(Debug)]
pub struct CollectTables {
    pub prop_data: Vec<(u32, PropColumn)>,
    pub prop_data_per_player: Vec<(u64, Vec<(u32, PropColumn)>)>,
    pub projectile_records: Vec<ProjectileRecord>,
}

/// What decides which ticks and players are collected and where rows go.
#[derive(Debug)]
pub struct CollectSettings {
    pub parse_projectiles: bool,
    pub order_by_steamid: bool,
    pub wanted_players: Vec<u64>,
    pub wanted_ticks: Vec<i32>,
    pub has_wanted_events: bool,
}

/// The columns of the tables as mathematical values.
pub open spec fn tables_model(t: CollectTables) -> (Map<u32, ColumnModel>, Map<u64, Map<u32, ColumnModel>>) {
    (cols_map(t.prop_data@), players_cols(t.prop_data_per_player@))
}

/// The keys of the tables are distinct.
pub open spec fn tables_valid(t: CollectTables) -> bool {
    keys_unique(t.prop_data@) && players_valid(t.prop_data_per_player@)
}

/// Whether a tick is collected: speeds are wanted (they need every tick),
/// or no events are wanted and the tick is wanted (every tick is, where
/// none is named).
pub open spec fn collects(needs_velocity: bool, settings: CollectSettings, tick: i32) -> bool {
    needs_velocity || (!settings.has_wanted_events
        && (settings.wanted_ticks@.contains(tick) || settings.wanted_ticks@.len() == 0))
}

/// The player with pawn `e` has, for each wanted state, a value of its base
/// property that compares equal to the wanted one.
pub open spec fn states_hold<F: Fn(FloatProp, i32) -> Result<Variant, PropCollectionError>, V: Fn(u32, u32) -> u32,
    S: Fn(u32, u32) -> u32>(st: EntityState, states: Seq<WantedPropStateInfo>, e: i32, player: PlayerMetaData,
    lk: PropLookups, t: Map<u32, ColumnModel>, f: F, vel: V, speed: S) -> bool {
    forall|i: int| #![trigger states[i]] 0 <= i < states.len() ==>
        match tick_value(st, states[i].base, e, player, lk, t, f, vel, speed) {
            Ok(v) => views_equal(v, variant_view(states[i].wanted_prop_state)),
            Err(_) => false,
        }
}

/// The tables after the values of the first `n` properties of `infos` for
/// the player with pawn `e` and steam id `sid` are pushed, in order: onto
/// the player's own columns where `by_player`, else onto the shared ones.
pub open spec fn row_pushed<F: Fn(FloatProp, i32) -> Result<Variant, PropCollectionError>, V: Fn(u32, u32) -> u32,
    S: Fn(u32, u32) -> u32>(st: EntityState, infos: Seq<PropInfo>, n: int, e: i32, player: PlayerMetaData, sid: u64,
    by_player: bool, lk: PropLookups, f: F, vel: V, speed: S,
    start: (Map<u32, ColumnModel>, Map<u64, Map<u32, ColumnModel>>)) -> (Map<u32, ColumnModel>, Map<u64, Map<u32, ColumnModel>>)
    decreases n,
{
    if n <= 0 {
        start
    } else {
        let prev = row_pushed(st, infos, n - 1, e, player, sid, by_player, lk, f, vel, speed, start);
        let info = infos[n - 1];
        let item = ok_view(tick_value(st, info, e, player, lk, prev.0, f, vel, speed));
        if by_player {
            (prev.0, player_push(prev.1, sid, info.id, item))
        } else {
            (table_push(prev.0, info.id, item), prev.1)
        }
    }
}

/// The tables after the first `n` players are gone through, in order, and
/// whether the collection stopped: a player without a steam id, or not
/// among the wanted ones, is passed over; a player that fails a wanted
/// state stops the collection; any other gets a row.
pub open spec fn players_pushed<F: Fn(FloatProp, i32) -> Result<Variant, PropCollectionError>, V: Fn(u32, u32) -> u32,
    S: Fn(u32, u32) -> u32>(st: EntityState, n: int, states: Seq<WantedPropStateInfo>, infos: Seq<PropInfo>,
    wanted: Seq<u64>, by_player: bool, lk: PropLookups, f: F, vel: V, speed: S,
    start: (Map<u32, ColumnModel>, Map<u64, Map<u32, ColumnModel>>)) -> ((Map<u32, ColumnModel>, Map<u64, Map<u32, ColumnModel>>), bool)
    decreases n,
{
    if n <= 0 {
        (start, false)
    } else {
        let prev = players_pushed(st, n - 1, states, infos, wanted, by_player, lk, f, vel, speed, start);
        if prev.1 {
            prev
        } else {
            let e = st.players@[n - 1].0;
            let p = st.players@[n - 1].1;
            match p.steamid {
                None => prev,
                Some(sid) => if wanted.len() > 0 && !wanted.contains(sid) {
                    prev
                } else if !states_hold(st, states, e, p, lk, prev.0.0, f, vel, speed) {
                    (prev.0, true)
                } else {
                    (row_pushed(st, infos, infos.len() as int, e, p, sid, by_player, lk, f, vel, speed, prev.0), false)
                },
            }
        }
    }
}

/// Whether `x` is in `v`.
fn has_u64(v: &Vec<u64>, x: u64) -> (r: bool)
    ensures
        r == v@.contains(x),
{
    let mut i: usize = 0;
    while i < v.len()
        invariant
            i <= v@.len(),
            forall|j: int| 0 <= j < i ==> v@[j] != x,
        decreases v@.len() - i,
    {
        if v[i] == x {
            assert(v@[i as int] == x);
            return true;
        }
        i += 1;
    }
    false
}

/// Whether `x` is in `v`.
fn has_i32(v: &Vec<i32>, x: i32) -> (r: bool)
    ensures
        r == v@.contains(x),
{
    let mut i: usize = 0;
    while i < v.len()
        invariant
            i <= v@.len(),
            forall|j: int| 0 <= j < i ==> v@[j] != x,
        decreases v@.len() - i,
    {
        if v[i] == x {
            assert(v@[i as int] == x);
            return true;
        }
        i += 1;
    }
    false
}

/// Whether tick `tick` is collected, as `collects` says.
pub fn should_collect(needs_velocity: bool, settings: &CollectSettings, tick: i32) -> (r: bool)
    ensures
        r == collects(needs_velocity, *settings, tick),
{
    needs_velocity || (!settings.has_wanted_events && (has_i32(&settings.wanted_ticks, tick) || settings.wanted_ticks.len() == 0))
}

/// Growing a budget of `(p - i) * n` rows by one player's `n` rows.
proof fn lemma_budget_step(p: int, i: int, n: int)
    requires
        0 <= i < p,
        0 <= n,
    ensures
        (p - i) * n - n == (p - (i + 1)) * n,
        (p - i) * n >= n,
{
    assert((p - i) * n - n == (p - (i + 1)) * n) by (nonlinear_arith);
    assert((p - i) * n >= n) by (nonlinear_arith)
        requires
            0 <= i < p,
            0 <= n;
}

impl EntityState {
    /// Whether the player with pawn `e` passes every wanted state, as
    /// `states_hold` says.
    pub fn wanted_states_hold<F: Fn(FloatProp, i32) -> Result<Variant, PropCollectionError>, V: Fn(u32, u32) -> u32,
        S: Fn(u32, u32) -> u32>(&self, states: &Vec<WantedPropStateInfo>, e: i32, player: &PlayerMetaData, lk: &PropLookups,
        table: &Vec<(u32, PropColumn)>, f: &F, vel: &V, speed: &S) -> (r: bool)
        requires
            keys_unique(table@),
            float_deterministic(*f),
            deterministic(*vel),
            deterministic(*speed),
        ensures
            r == states_hold(*self, states@, e, *player, *lk, cols_map(table@), *f, *vel, *speed),
    {
        let mut i: usize = 0;
        while i < states.len()
            invariant
                i <= states@.len(),
                keys_unique(table@),
                float_deterministic(*f),
                deterministic(*vel),
                deterministic(*speed),
                forall|j: int| #![trigger states@[j]] 0 <= j < i ==>
                    match tick_value(*self, states@[j].base, e, *player, *lk, cols_map(table@), *f, *vel, *speed) {
                        Ok(v) => views_equal(v, variant_view(states@[j].wanted_prop_state)),
                        Err(_) => false,
                    },
            decreases states@.len() - i,
        {
            let info = &states[i];
            let value = self.tick_item(&info.base, e, player, lk, table, f, vel, speed);
            let ok = match &value {
                Ok(v) => variant_eq(v, &info.wanted_prop_state),
                Err(_) => false,
            };
            if !ok {
                assert(!match tick_value(*self, states@[i as int].base, e, *player, *lk, cols_map(table@), *f, *vel, *speed) {
                    Ok(v) => views_equal(v, variant_view(states@[i as int].wanted_prop_state)),
                    Err(_) => false,
                });
                return false;
            }
            i += 1;
        }
        true
    }

    /// Pushes the values of every property of `infos` for the player with
    /// pawn `e` and steam id `sid`, as `row_pushed` says.
    fn push_row<F: Fn(FloatProp, i32) -> Result<Variant, PropCollectionError>, V: Fn(u32, u32) -> u32,
        S: Fn(u32, u32) -> u32>(&self, tables: &mut CollectTables, infos: &Vec<PropInfo>, e: i32, player: &PlayerMetaData,
        sid: u64, by_player: bool, lk: &PropLookups, f: &F, vel: &V, speed: &S, Ghost(budget): Ghost<int>)
        requires
            tables_valid(*old(tables)),
            budget >= infos@.len(),
            budget < usize::MAX,
            fits(cols_map(old(tables).prop_data@), budget),
            players_fit(players_cols(old(tables).prop_data_per_player@), budget),
            float_deterministic(*f),
            deterministic(*vel),
            deterministic(*speed),
        ensures
            tables_valid(*final(tables)),
            tables_model(*final(tables)) == row_pushed(*self, infos@, infos@.len() as int, e, *player, sid, by_player,
                *lk, *f, *vel, *speed, tables_model(*old(tables))),
            fits(cols_map(final(tables).prop_data@), budget - infos@.len()),
            players_fit(players_cols(final(tables).prop_data_per_player@), budget - infos@.len()),
            final(tables).projectile_records@ == old(tables).projectile_records@,
    {
        let ghost start = tables_model(*tables);
        let mut k: usize = 0;
        while k < infos.len()
            invariant
                k <= infos@.len(),
                tables_valid(*tables),
                budget >= infos@.len(),
                budget < usize::MAX,
                fits(cols_map(tables.prop_data@), budget - k),
                players_fit(players_cols(tables.prop_data_per_player@), budget - k),
                float_deterministic(*f),
                deterministic(*vel),
                deterministic(*speed),
                start == tables_model(*old(tables)),
                tables_model(*tables) == row_pushed(*self, infos@, k as int, e, *player, sid, by_player, *lk, *f, *vel, *speed, start),
                tables.projectile_records@ == old(tables).projectile_records@,
            decreases infos@.len() - k,
        {
            let info = &infos[k];
            let value = self.tick_item(info, e, player, lk, &tables.prop_data, f, vel, speed);
            let item = match value {
                Ok(v) => Some(v),
                Err(_) => None,
            };
            assert(item_view(item) == ok_view(tick_value(*self, *info, e, *player, *lk, cols_map(tables.prop_data@), *f, *vel, *speed)));
            if by_player {
                push_player_item(&mut tables.prop_data_per_player, sid, info.id, item, Ghost(budget - k));
                assert forall|kk: u32| #[trigger] cols_map(tables.prop_data@).contains_key(kk) implies
                    model_len(cols_map(tables.prop_data@)[kk]) + (budget - (k + 1)) < usize::MAX by {
                }
            } else {
                push_item(&mut tables.prop_data, info.id, item, Ghost(budget - k));
                assert forall|s: u64| #[trigger] players_cols(tables.prop_data_per_player@).contains_key(s) implies
                    fits(players_cols(tables.prop_data_per_player@)[s], budget - (k + 1)) by {
                    assert forall|kk: u32| #[trigger] players_cols(tables.prop_data_per_player@)[s].contains_key(kk) implies
                        model_len(players_cols(tables.prop_data_per_player@)[s][kk]) + (budget - (k + 1)) < usize::MAX by {
                    }
                }
            }
            k += 1;
        }
    }
}

/// Once the collection stops, later players change nothing.
proof fn lemma_stopped<F: Fn(FloatProp, i32) -> Result<Variant, PropCollectionError>, V: Fn(u32, u32) -> u32,
    S: Fn(u32, u32) -> u32>(st: EntityState, i: int, n: int, states: Seq<WantedPropStateInfo>, infos: Seq<PropInfo>,
    wanted: Seq<u64>, by_player: bool, lk: PropLookups, f: F, vel: V, speed: S,
    start: (Map<u32, ColumnModel>, Map<u64, Map<u32, ColumnModel>>))
    requires
        0 <= i <= n,
        players_pushed(st, i, states, infos, wanted, by_player, lk, f, vel, speed, start).1,
    ensures
        players_pushed(st, n, states, infos, wanted, by_player, lk, f, vel, speed, start)
            == players_pushed(st, i, states, infos, wanted, by_player, lk, f, vel, speed, start),
    decreases n - i,
{
    if n > i {
        lemma_stopped(st, i, n - 1, states, infos, wanted, by_player, lk, f, vel, speed, start);
    }
}

impl EntityState {
    /// Collects one tick, where `should_collect` says it is collected: the
    /// grenades are recorded where wanted, then each player, in order, as
    /// `players_pushed` says: with no steam id or not among the wanted
    /// players it is passed over, failing a wanted state ends the
    /// collection, and otherwise each property of the controller gets the
    /// player's value (or an empty row) on its column, the player's own
    /// where rows are ordered by steam id. The floating-point steps are
    /// `f` (for the kinds other than speeds), `place` (positions of
    /// grenades), `vel` (a speed from two positions) and `speed` (a plane
    /// speed from two axis speeds).
    pub fn collect_entities<F: Fn(FloatProp, i32) -> Result<Variant, PropCollectionError>, P: Fn(u32, u32) -> u32,
        V: Fn(u32, u32) -> u32, S: Fn(u32, u32) -> u32>(&self, pc: &PropController, settings: &CollectSettings,
        lk: &PropLookups, serializers: &Vec<Serializer>, grenade_names: &Vec<(String, String)>, projectiles: &Vec<i32>,
        f: &F, place: &P, vel: &V, speed: &S, tables: &mut CollectTables)
        requires
            tables_valid(*old(tables)),
            self.players@.len() * pc.prop_infos@.len() < usize::MAX,
            fits(cols_map(old(tables).prop_data@), (self.players@.len() * pc.prop_infos@.len()) as int),
            players_fit(players_cols(old(tables).prop_data_per_player@), (self.players@.len() * pc.prop_infos@.len()) as int),
            float_deterministic(*f),
            forall|c: u32, o: u32| place.requires((c, o)),
            deterministic(*vel),
            deterministic(*speed),
        ensures
            !collects(pc.needs_velocity, *settings, self.tick) ==> *final(tables) == *old(tables),
            collects(pc.needs_velocity, *settings, self.tick) ==> {
                &&& tables_valid(*final(tables))
                &&& tables_model(*final(tables)) == players_pushed(*self, self.players@.len() as int,
                    pc.wanted_prop_state_infos@, pc.prop_infos@, settings.wanted_players@, settings.order_by_steamid,
                    *lk, *f, *vel, *speed, tables_model(*old(tables))).0
                &&& if settings.parse_projectiles {
                    self.projectiles_recorded(old(tables).projectile_records@, final(tables).projectile_records@,
                        projectiles@, serializers@, grenade_names@, *place)
                } else {
                    final(tables).projectile_records@ == old(tables).projectile_records@
                }
            },
    {
        if !should_collect(pc.needs_velocity, settings, self.tick) {
            return;
        }
        if settings.parse_projectiles {
            self.collect_projectiles(projectiles, serializers, grenade_names, place, &mut tables.projectile_records);
        }
        let ghost recs = tables.projectile_records@;
        let ghost start = tables_model(*tables);
        let ghost np = self.players@.len() as int;
        let ghost ni = pc.prop_infos@.len() as int;
        let mut i: usize = 0;
        let ghost mut budget: int = np * ni;
        while i < self.players.len()
            invariant
                i <= self.players@.len(),
                np == self.players@.len(),
                ni == pc.prop_infos@.len(),
                np * ni < usize::MAX,
                budget >= (np - i) * ni,
                budget <= np * ni,
                tables_valid(*tables),
                fits(cols_map(tables.prop_data@), budget),
                players_fit(players_cols(tables.prop_data_per_player@), budget),
                float_deterministic(*f),
                deterministic(*vel),
                deterministic(*speed),
                start == tables_model(*old(tables)),
                collects(pc.needs_velocity, *settings, self.tick),
                tables.projectile_records@ == recs,
                settings.parse_projectiles ==> self.projectiles_recorded(old(tables).projectile_records@, recs,
                    projectiles@, serializers@, grenade_names@, *place),
                !settings.parse_projectiles ==> recs == old(tables).projectile_records@,
                tables_model(*tables) == players_pushed(*self, i as int, pc.wanted_prop_state_infos@, pc.prop_infos@,
                    settings.wanted_players@, settings.order_by_steamid, *lk, *f, *vel, *speed, start).0,
                !players_pushed(*self, i as int, pc.wanted_prop_state_infos@, pc.prop_infos@,
                    settings.wanted_players@, settings.order_by_steamid, *lk, *f, *vel, *speed, start).1,
            decreases self.players@.len() - i,
        {
            proof {
                lemma_budget_step(np, i as int, ni);
            }
            let e = self.players[i].0;
            let player = &self.players[i].1;
            let sid = match player.steamid {
                Some(s) => s,
                None => {
                    i += 1;
                    continue;
                },
            };
            if settings.wanted_players.len() > 0 && !has_u64(&settings.wanted_players, sid) {
                i += 1;
                continue;
            }
            if !self.wanted_states_hold(&pc.wanted_prop_state_infos, e, player, lk, &tables.prop_data, f, vel, speed) {
                proof {
                    lemma_stopped(*self, i as int + 1, np, pc.wanted_prop_state_infos@, pc.prop_infos@,
                        settings.wanted_players@, settings.order_by_steamid, *lk, *f, *vel, *speed, start);
                }
                return;
            }
            self.push_row(tables, &pc.prop_infos, e, player, sid, settings.order_by_steamid, lk, f, vel, speed, Ghost(budget));
            proof {
                budget = budget - ni;
            }
            i += 1;
        }
    }
}

} // verus!
