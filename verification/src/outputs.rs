use vstd::prelude::*;
use crate::variants::{PropColumn, VarVec, VarKind, Cell, keep, index_set, sorted, blanks};
use crate::props::{TICK_ID, STEAMID_ID, NAME_ID};

verus! {

/// A column as a mathematical value: its kind and rows where it has values,
/// and its count of empty rows.
pub type ColumnModel = (Option<(VarKind, Seq<Cell>)>, nat);

/// A column as a mathematical value.
pub open spec fn col_model(c: PropColumn) -> ColumnModel {
    (match c.data {
        Some(d) => Some((d.kind(), d.cells())),
        None => None,
    }, c.num_nones as nat)
}

/// The column after keeping the rows at the positions of `s`, of which
/// there are `n`.
pub open spec fn kept_model(m: ColumnModel, s: Set<int>, n: nat) -> ColumnModel {
    match m.0 {
        None => (None, n),
        Some((k, cells)) => (Some((k, keep(cells, s))), 0),
    }
}

/// The first column of `cols` stored under `key`.
pub open spec fn column_for(cols: Seq<(u32, PropColumn)>, key: u32) -> Option<PropColumn>
    decreases cols.len(),
{
    if cols.len() == 0 {
        None
    } else if cols[0].0 == key {
        Some(cols[0].1)
    } else {
        column_for(cols.drop_first(), key)
    }
}

/// The positions of the rows of `ticks` whose tick is one of `wanted`, in
/// ascending order.
pub open spec fn wanted_rows(ticks: Seq<Option<i32>>, wanted: Seq<i32>) -> Seq<usize>
    decreases ticks.len(),
{
    if ticks.len() == 0 {
        Seq::empty()
    } else {
        let rest = wanted_rows(ticks.drop_last(), wanted);
        match ticks.last() {
            Some(t) => if wanted.contains(t) { rest.push((ticks.len() - 1) as usize) } else { rest },
            None => rest,
        }
    }
}

/// The positions `wanted_rows` lists are ascending and below the count.
proof fn lemma_wanted_rows(ticks: Seq<Option<i32>>, wanted: Seq<i32>)
    requires
        ticks.len() <= usize::MAX,
    ensures
        sorted(wanted_rows(ticks, wanted)),
        forall|i: int| 0 <= i < wanted_rows(ticks, wanted).len() ==> (#[trigger] wanted_rows(ticks, wanted)[i] as int) < ticks.len(),
    decreases ticks.len(),
{
    if ticks.len() > 0 {
        lemma_wanted_rows(ticks.drop_last(), wanted);
    }
}

/// The rows of the tick column `ticks` that hold a wanted tick.
fn find_wanted_rows(ticks: &Vec<Option<i32>>, wanted: &Vec<i32>) -> (r: Vec<usize>)
    ensures
        r@ == wanted_rows(ticks@, wanted@),
{
    let mut out: Vec<usize> = Vec::new();
    let mut i: usize = 0;
    assert(ticks@.take(0) =~= Seq::<Option<i32>>::empty());
    while i < ticks.len()
        invariant
            i <= ticks@.len(),
            out@ == wanted_rows(ticks@.take(i as int), wanted@),
        decreases ticks@.len() - i,
    {
        assert(ticks@.take(i + 1).drop_last() =~= ticks@.take(i as int));
        assert(ticks@.take(i + 1).last() == ticks@[i as int]);
        if let Some(t) = ticks[i] {
            let mut found = false;
            let mut j: usize = 0;
            while j < wanted.len()
                invariant
                    j <= wanted@.len(),
                    found == (exists|k: int| 0 <= k < j && wanted@[k] == t),
                decreases wanted@.len() - j,
            {
                if wanted[j] == t {
                    found = true;
                }
                j += 1;
            }
            assert(found == wanted@.contains(t));
            if found {
                out.push(i);
            }
        }
        i += 1;
    }
    assert(ticks@.take(ticks@.len() as int) =~= ticks@);
    out
}

/// The tick column of `cols`, where it holds ticks.
pub open spec fn tick_rows(cols: Seq<(u32, PropColumn)>) -> Option<Seq<Option<i32>>> {
    match column_for(cols, TICK_ID) {
        Some(c) => match c.data {
            Some(VarVec::I32(v)) => Some(v@),
            _ => None,
        },
        None => None,
    }
}

/// A copy of the tick column of `cols`, where it holds ticks.
fn tick_column(cols: &Vec<(u32, PropColumn)>) -> (r: Option<Vec<Option<i32>>>)
    ensures
        match tick_rows(cols@) {
            Some(t) => r matches Some(v) && v@ == t,
            None => r is None,
        },
{
    let mut i: usize = 0;
    assert(cols@.skip(0) =~= cols@);
    while i < cols.len()
        invariant
            i <= cols@.len(),
            column_for(cols@, TICK_ID) == column_for(cols@.skip(i as int), TICK_ID),
        decreases cols@.len() - i,
    {
        assert(cols@.skip(i as int)[0] == cols@[i as int]);
        if cols[i].0 == TICK_ID {
            return match &cols[i].1.data {
                Some(VarVec::I32(v)) => Some(crate::variants::copy_plain(v)),
                _ => None,
            };
        }
        assert(cols@.skip(i as int).drop_first() =~= cols@.skip(i + 1));
        i += 1;
    }
    None
}

/// Keeps, in every column, only the rows whose tick is one of `wanted`;
/// nothing changes where there is no tick column of ticks.
pub fn remove_unwanted_ticks(cols: &mut Vec<(u32, PropColumn)>, wanted: &Vec<i32>)
    ensures
        final(cols)@.len() == old(cols)@.len(),
        match tick_rows(old(cols)@) {
            None => final(cols)@ == old(cols)@,
            Some(t) => forall|i: int| 0 <= i < old(cols)@.len() ==> #[trigger] final(cols)@[i].0 == old(cols)@[i].0
                && col_model(final(cols)@[i].1) == kept_model(col_model(old(cols)@[i].1),
                    index_set(wanted_rows(t, wanted@)), wanted_rows(t, wanted@).len()),
        },
{
    let ticks = match tick_column(cols) {
        Some(t) => t,
        None => return,
    };
    let rows = find_wanted_rows(&ticks, wanted);
    let n = ticks.len();
    proof {
        assert(ticks@.len() == n);
        lemma_wanted_rows(ticks@, wanted@);
    }
    let ghost c0 = cols@;
    let mut i: usize = 0;
    while i < cols.len()
        invariant
            i <= cols@.len(),
            cols@.len() == c0.len(),
            sorted(rows@),
            forall|k: int| 0 <= k < i ==> #[trigger] cols@[k].0 == c0[k].0
                && col_model(cols@[k].1) == kept_model(col_model(c0[k].1), index_set(rows@), rows@.len()),
            forall|k: int| i <= k < c0.len() ==> #[trigger] cols@[k] == c0[k],
        decreases c0.len() - i,
    {
        let mut slot = (0u32, PropColumn::new());
        std::mem::swap(&mut slot, &mut cols[i]);
        let ghost before = c0[i as int];
        slot.1.retain(&rows);
        let ghost mid = cols@;
        cols.set(i, slot);
        proof {
            assert forall|k: int| 0 <= k < i + 1 implies #[trigger] cols@[k].0 == c0[k].0
                && col_model(cols@[k].1) == kept_model(col_model(c0[k].1), index_set(rows@), rows@.len()) by {
                if k < i {
                    assert(cols@[k] == mid[k]);
                }
            }
            assert forall|k: int| i + 1 <= k < c0.len() implies #[trigger] cols@[k] == c0[k] by {
                assert(cols@[k] == mid[k]);
            }
        }
        i += 1;
    }
}

/// A column after the rows of another are appended, as `extend_from` does
/// it: rows of another kind are not taken.
pub open spec fn ext_model(a: ColumnModel, b: ColumnModel) -> ColumnModel {
    match a.0 {
        None => match b.0 {
            None => (None, a.1 + b.1),
            Some((bk, bc)) => (Some((bk, blanks(bk, a.1) + bc)), a.1),
        },
        Some((ak, ac)) => (Some((ak, match b.0 {
            Some((bk, bc)) => if bk == ak { ac + bc } else { ac },
            None => ac + blanks(ak, b.1),
        })), a.1),
    }
}

/// The number of rows of a column.
pub open spec fn model_len(m: ColumnModel) -> nat {
    match m.0 {
        Some((_, cells)) => cells.len(),
        None => m.1,
    }
}

/// `extend_from` as a function of the models.
proof fn lemma_extended_model(a: PropColumn, b: PropColumn, after: PropColumn)
    requires
        crate::variants::extended(a, b, after),
    ensures
        col_model(after) == ext_model(col_model(a), col_model(b)),
        model_len(col_model(after)) <= model_len(col_model(a)) + model_len(col_model(b)),
{
}

/// The keys of `cols` are distinct.
pub open spec fn keys_unique(cols: Seq<(u32, PropColumn)>) -> bool {
    forall|i: int, j: int| 0 <= i < j < cols.len() ==> cols[i].0 != cols[j].0
}

/// The columns of `cols` by key.
pub open spec fn cols_map(cols: Seq<(u32, PropColumn)>) -> Map<u32, ColumnModel>
    decreases cols.len(),
{
    if cols.len() == 0 {
        Map::empty()
    } else {
        cols_map(cols.drop_last()).insert(cols.last().0, col_model(cols.last().1))
    }
}

/// The columns of `acc` with those of `part` appended, key by key; a key
/// new to `acc` takes the column of `part`.
pub open spec fn merged(acc: Map<u32, ColumnModel>, part: Seq<(u32, PropColumn)>) -> Map<u32, ColumnModel>
    decreases part.len(),
{
    if part.len() == 0 {
        acc
    } else {
        let prev = merged(acc, part.drop_last());
        let k = part.last().0;
        let c = col_model(part.last().1);
        if prev.contains_key(k) { prev.insert(k, ext_model(prev[k], c)) } else { prev.insert(k, c) }
    }
}

/// The columns of the parts `parts`, merged in order.
pub open spec fn combined(parts: Seq<Vec<(u32, PropColumn)>>) -> Map<u32, ColumnModel>
    decreases parts.len(),
{
    if parts.len() == 0 {
        Map::empty()
    } else {
        merged(combined(parts.drop_last()), parts.last()@)
    }
}

/// The number of rows of all columns of `cols`.
pub open spec fn rows_of(cols: Seq<(u32, PropColumn)>) -> nat
    decreases cols.len(),
{
    if cols.len() == 0 { 0 } else { rows_of(cols.drop_last()) + cols.last().1.spec_len() }
}

/// The number of rows of all columns of all parts.
pub open spec fn total_rows(parts: Seq<Vec<(u32, PropColumn)>>) -> nat
    decreases parts.len(),
{
    if parts.len() == 0 { 0 } else { total_rows(parts.drop_last()) + rows_of(parts.last()@) }
}

/// The position of key `k` in `cols`.
pub(crate) fn position_of_key(cols: &Vec<(u32, PropColumn)>, k: u32) -> (r: Option<usize>)
    ensures
        match r {
            Some(i) => i < cols@.len() && cols@[i as int].0 == k,
            None => forall|i: int| 0 <= i < cols@.len() ==> cols@[i].0 != k,
        },
{
    let mut i: usize = 0;
    while i < cols.len()
        invariant
            i <= cols@.len(),
            forall|j: int| 0 <= j < i ==> cols@[j].0 != k,
        decreases cols@.len() - i,
    {
        if cols[i].0 == k {
            return Some(i);
        }
        i += 1;
    }
    None
}

/// With distinct keys, the map of `cols` holds each listed column under its
/// key, and nothing else.
pub(crate) proof fn lemma_cols_map_index(cols: Seq<(u32, PropColumn)>)
    requires
        keys_unique(cols),
    ensures
        forall|i: int| 0 <= i < cols.len() ==> cols_map(cols).contains_key(#[trigger] cols[i].0)
            && cols_map(cols)[cols[i].0] == col_model(cols[i].1),
        forall|k: u32| cols_map(cols).contains_key(k) ==> exists|i: int| 0 <= i < cols.len() && #[trigger] cols[i].0 == k,
    decreases cols.len(),
{
    if cols.len() > 0 {
        let front = cols.drop_last();
        assert(keys_unique(front));
        lemma_cols_map_index(front);
        assert forall|i: int| 0 <= i < cols.len() implies cols_map(cols).contains_key(#[trigger] cols[i].0)
            && cols_map(cols)[cols[i].0] == col_model(cols[i].1) by {
            if i < cols.len() - 1 {
                assert(front[i] == cols[i]);
            }
        }
        assert forall|k: u32| cols_map(cols).contains_key(k) implies exists|i: int| 0 <= i < cols.len() && #[trigger] cols[i].0 == k by {
            if k == cols.last().0 {
                assert(cols[cols.len() - 1].0 == k);
            } else {
                assert(cols_map(front).contains_key(k));
                let i = choose|i: int| 0 <= i < front.len() && #[trigger] front[i].0 == k;
                assert(front[i] == cols[i]);
            }
        }
    }
}

/// Replacing the column at position `i` by one with the same key.
pub(crate) proof fn lemma_cols_map_update(cols: Seq<(u32, PropColumn)>, i: int, c: PropColumn)
    requires
        keys_unique(cols),
        0 <= i < cols.len(),
    ensures
        keys_unique(cols.update(i, (cols[i].0, c))),
        cols_map(cols.update(i, (cols[i].0, c))) == cols_map(cols).insert(cols[i].0, col_model(c)),
    decreases cols.len(),
{
    let u = cols.update(i, (cols[i].0, c));
    assert forall|a: int, b: int| 0 <= a < b < u.len() implies u[a].0 != u[b].0 by {
        assert(u[a].0 == cols[a].0);
        assert(u[b].0 == cols[b].0);
    }
    let front = cols.drop_last();
    if i == cols.len() - 1 {
        assert(u.drop_last() =~= front);
        lemma_cols_map_index(front);
        assert(keys_unique(front));
        assert(!cols_map(front).contains_key(cols[i].0)) by {
            if cols_map(front).contains_key(cols[i].0) {
                let j = choose|j: int| 0 <= j < front.len() && #[trigger] front[j].0 == cols[i].0;
                assert(front[j] == cols[j]);
            }
        }
        assert(cols_map(u) =~= cols_map(cols).insert(cols[i].0, col_model(c)));
    } else {
        assert(keys_unique(front));
        lemma_cols_map_update(front, i, c);
        assert(u.drop_last() =~= front.update(i, (cols[i].0, c)));
        assert(u.last() == cols.last());
        assert(cols.last().0 != cols[i].0);
        assert(cols_map(u) =~= cols_map(cols).insert(cols[i].0, col_model(c)));
    }
}

/// The rows of a prefix of `cols`, one column longer.
proof fn lemma_rows_prefix(cols: Seq<(u32, PropColumn)>, j: int)
    requires
        0 <= j < cols.len(),
    ensures
        rows_of(cols.take(j + 1)) == rows_of(cols.take(j)) + cols[j].1.spec_len(),
        rows_of(cols.take(j + 1)) <= rows_of(cols),
    decreases cols.len(),
{
    assert(cols.take(j + 1).drop_last() =~= cols.take(j));
    if j + 1 == cols.len() {
        assert(cols.take(j + 1) =~= cols);
    } else {
        lemma_rows_prefix(cols.drop_last(), j);
        assert(cols.drop_last().take(j + 1) =~= cols.take(j + 1));
        assert(cols.drop_last().take(j) =~= cols.take(j));
    }
}

/// Appends the columns of `part` to those of `acc`, key by key, as
/// `merged` says; `used` bounds the rows of each column of `acc`.
fn merge_part(acc: &mut Vec<(u32, PropColumn)>, part: Vec<(u32, PropColumn)>, Ghost(used): Ghost<nat>)
    requires
        keys_unique(old(acc)@),
        keys_unique(part@),
        forall|k: u32| #[trigger] cols_map(old(acc)@).contains_key(k) ==> model_len(cols_map(old(acc)@)[k]) <= used,
        used + rows_of(part@) <= usize::MAX,
    ensures
        keys_unique(final(acc)@),
        cols_map(final(acc)@) == merged(cols_map(old(acc)@), part@),
        forall|k: u32| #[trigger] cols_map(final(acc)@).contains_key(k) ==> model_len(cols_map(final(acc)@)[k]) <= used + rows_of(part@),
{
    let ghost orig = part@;
    let ghost m0 = cols_map(acc@);
    let mut part = part;
    let mut j: usize = 0;
    assert(orig.take(0) =~= Seq::<(u32, PropColumn)>::empty());
    while j < part.len()
        invariant
            j <= orig.len(),
            part@.len() == orig.len(),
            forall|t: int| j <= t < orig.len() ==> #[trigger] part@[t] == orig[t],
            keys_unique(orig),
            keys_unique(acc@),
            cols_map(acc@) == merged(m0, orig.take(j as int)),
            forall|k: u32| #[trigger] cols_map(acc@).contains_key(k) ==> model_len(cols_map(acc@)[k]) <= used + rows_of(orig.take(j as int)),
            used + rows_of(orig) <= usize::MAX,
        decreases orig.len() - j,
    {
        let mut slot = (0u32, PropColumn::new());
        std::mem::swap(&mut slot, &mut part[j]);
        assert(slot == orig[j as int]);
        let ghost tk = orig.take(j + 1);
        assert(tk.drop_last() =~= orig.take(j as int));
        assert(tk.last() == orig[j as int]);
        proof {
            lemma_rows_prefix(orig, j as int);
            lemma_cols_map_index(acc@);
        }
        let k = slot.0;
        match position_of_key(acc, k) {
            Some(i) => {
                let ghost a0 = acc@;
                let mut cur = (0u32, PropColumn::new());
                std::mem::swap(&mut cur, &mut acc[i]);
                assert(cur == a0[i as int]);
                let ghost c_old = cur.1;
                assert(c_old.spec_len() == model_len(col_model(c_old)));
                assert(slot.1.spec_len() == model_len(col_model(slot.1)));
                cur.1.extend_from(&mut slot.1);
                proof {
                    lemma_extended_model(c_old, orig[j as int].1, cur.1);
                }
                acc.set(i, cur);
                proof {
                    assert(acc@ =~= a0.update(i as int, (k, cur.1)));
                    lemma_cols_map_update(a0, i as int, cur.1);
                    assert(cols_map(acc@) =~= merged(m0, tk));
                    lemma_cols_map_index(acc@);
                }
            },
            None => {
                let ghost a0 = acc@;
                assert(!cols_map(a0).contains_key(k)) by {
                    if cols_map(a0).contains_key(k) {
                        let t = choose|t: int| 0 <= t < a0.len() && #[trigger] a0[t].0 == k;
                    }
                }
                assert(slot.1.spec_len() == model_len(col_model(slot.1)));
                acc.push(slot);
                proof {
                    assert(acc@.drop_last() =~= a0);
                    assert forall|x: int, y: int| 0 <= x < y < acc@.len() implies acc@[x].0 != acc@[y].0 by {
                        if y == acc@.len() - 1 {
                            assert(acc@[x] == a0[x]);
                            assert(cols_map(a0).contains_key(a0[x].0));
                        } else {
                            assert(acc@[x] == a0[x]);
                            assert(acc@[y] == a0[y]);
                        }
                    }
                    assert(cols_map(acc@) =~= merged(m0, tk));
                }
            },
        }
        j += 1;
    }
    assert(orig.take(orig.len() as int) =~= orig);
}

/// Dropping the column at position `i`.
proof fn lemma_cols_map_remove(cols: Seq<(u32, PropColumn)>, i: int)
    requires
        keys_unique(cols),
        0 <= i < cols.len(),
    ensures
        keys_unique(cols.remove(i)),
        cols_map(cols.remove(i)) == cols_map(cols).remove(cols[i].0),
    decreases cols.len(),
{
    let r = cols.remove(i);
    assert forall|a: int, b: int| 0 <= a < b < r.len() implies r[a].0 != r[b].0 by {
        let a2 = if a < i { a } else { a + 1 };
        let b2 = if b < i { b } else { b + 1 };
        assert(r[a] == cols[a2]);
        assert(r[b] == cols[b2]);
    }
    let front = cols.drop_last();
    assert(keys_unique(front));
    lemma_cols_map_index(front);
    if i == cols.len() - 1 {
        assert(r =~= front);
        assert(!cols_map(front).contains_key(cols[i].0)) by {
            if cols_map(front).contains_key(cols[i].0) {
                let j = choose|j: int| 0 <= j < front.len() && #[trigger] front[j].0 == cols[i].0;
                assert(front[j] == cols[j]);
            }
        }
        assert(cols_map(r) =~= cols_map(cols).remove(cols[i].0));
    } else {
        lemma_cols_map_remove(front, i);
        assert(r.drop_last() =~= front.remove(i));
        assert(r.last() == cols.last());
        assert(cols.last().0 != cols[i].0);
        assert(cols_map(r) =~= cols_map(cols).remove(cols[i].0));
    }
}

/// Drops the column stored under `k`, where there is one.
fn remove_key(cols: &mut Vec<(u32, PropColumn)>, k: u32)
    requires
        keys_unique(old(cols)@),
    ensures
        keys_unique(final(cols)@),
        cols_map(final(cols)@) == cols_map(old(cols)@).remove(k),
        forall|q: u32| #[trigger] cols_map(final(cols)@).contains_key(q) ==> cols_map(old(cols)@).contains_key(q),
{
    proof {
        lemma_cols_map_index(cols@);
    }
    match position_of_key(cols, k) {
        Some(i) => {
            let ghost c0 = cols@;
            let _ = cols.remove(i);
            proof {
                lemma_cols_map_remove(c0, i as int);
            }
        },
        None => {
            assert(cols_map(cols@) =~= cols_map(cols@).remove(k)) by {
                assert(!cols_map(cols@).contains_key(k)) by {
                    if cols_map(cols@).contains_key(k) {
                        let t = choose|t: int| 0 <= t < cols@.len() && #[trigger] cols@[t].0 == k;
                    }
                }
            }
        },
    }
}

/// The rows of the parts, one part longer.
proof fn lemma_total_prefix(parts: Seq<Vec<(u32, PropColumn)>>, d: int)
    requires
        0 <= d < parts.len(),
    ensures
        total_rows(parts.take(d + 1)) == total_rows(parts.take(d)) + rows_of(parts[d]@),
        total_rows(parts.take(d + 1)) <= total_rows(parts),
    decreases parts.len(),
{
    assert(parts.take(d + 1).drop_last() =~= parts.take(d));
    if d + 1 == parts.len() {
        assert(parts.take(d + 1) =~= parts);
    } else {
        lemma_total_prefix(parts.drop_last(), d);
        assert(parts.drop_last().take(d + 1) =~= parts.take(d + 1));
        assert(parts.drop_last().take(d) =~= parts.take(d));
    }
}

/// The columns of several parts of a demo merged into one, key by key, in
/// the order of the parts, as `combined` says; the name and steam id
/// columns are dropped where `remove_name_and_steamid` is set.
pub fn combine_dfs(parts: Vec<Vec<(u32, PropColumn)>>, remove_name_and_steamid: bool) -> (r: Vec<(u32, PropColumn)>)
    requires
        forall|p: int| 0 <= p < parts@.len() ==> keys_unique(#[trigger] parts@[p]@),
        total_rows(parts@) <= usize::MAX,
    ensures
        keys_unique(r@),
        cols_map(r@) == if remove_name_and_steamid {
            combined(parts@).remove(STEAMID_ID).remove(NAME_ID)
        } else {
            combined(parts@)
        },
{
    let ghost orig = parts@;
    let n = parts.len();
    let mut parts = parts;
    let mut acc: Vec<(u32, PropColumn)> = Vec::new();
    let mut d: usize = 0;
    assert(orig.take(0) =~= Seq::<Vec<(u32, PropColumn)>>::empty());
    assert(cols_map(acc@) =~= Map::<u32, ColumnModel>::empty());
    while parts.len() > 0
        invariant
            d <= orig.len(),
            orig.len() == n,
            parts@ == orig.skip(d as int),
            forall|p: int| 0 <= p < orig.len() ==> keys_unique(#[trigger] orig[p]@),
            total_rows(orig) <= usize::MAX,
            keys_unique(acc@),
            cols_map(acc@) == combined(orig.take(d as int)),
            forall|k: u32| #[trigger] cols_map(acc@).contains_key(k) ==> model_len(cols_map(acc@)[k]) <= total_rows(orig.take(d as int)),
        decreases parts@.len(),
    {
        let part = parts.remove(0);
        assert(part == orig[d as int]);
        proof {
            lemma_total_prefix(orig, d as int);
            assert(orig.take(d + 1).drop_last() =~= orig.take(d as int));
            assert(orig.take(d + 1).last() == orig[d as int]);
        }
        merge_part(&mut acc, part, Ghost(total_rows(orig.take(d as int))));
        d += 1;
        assert(parts@ =~= orig.skip(d as int));
    }
    assert(orig.take(d as int) =~= orig);
    if remove_name_and_steamid {
        remove_key(&mut acc, STEAMID_ID);
        remove_key(&mut acc, NAME_ID);
    }
    acc
}

} // verus!
