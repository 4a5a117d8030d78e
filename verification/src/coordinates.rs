use vstd::prelude::*;
use crate::variants::{PropColumn, VarVec};

verus! {

/// The last row of `rows` that holds `id`, leaving out row `except`.
pub open spec fn latest_row(rows: Seq<Option<u64>>, id: u64, except: int) -> Option<int>
    decreases rows.len(),
{
    if rows.len() == 0 {
        None
    } else if rows.last() == Some(id) && rows.len() - 1 != except {
        Some(rows.len() - 1)
    } else {
        latest_row(rows.drop_last(), id, except)
    }
}

/// The row found holds `id` and is not `except`, and no later row but
/// `except` holds `id`; where none is found, no row but `except` holds it.
pub proof fn lemma_latest_row(rows: Seq<Option<u64>>, id: u64, except: int)
    ensures
        match latest_row(rows, id, except) {
            Some(i) => 0 <= i < rows.len() && rows[i] == Some(id) && i != except
                && forall|j: int| i < j < rows.len() && j != except ==> #[trigger] rows[j] != Some(id),
            None => forall|j: int| 0 <= j < rows.len() && j != except ==> #[trigger] rows[j] != Some(id),
        },
    decreases rows.len(),
{
    if rows.len() > 0 {
        lemma_latest_row(rows.drop_last(), id, except);
        assert forall|j: int| 0 <= j < rows.len() - 1 implies #[trigger] rows[j] == rows.drop_last()[j] by {}
    }
}

/// The steamid rows of a column, where it holds steamids.
pub open spec fn steamid_rows(col: Option<PropColumn>) -> Option<Seq<Option<u64>>> {
    match col {
        Some(c) => match c.data {
            Some(VarVec::U64(v)) => Some(v@),
            _ => None,
        },
        None => None,
    }
}

/// An optional position as an optional integer.
pub open spec fn opt_int(r: Option<usize>) -> Option<int> {
    match r {
        Some(i) => Some(i as int),
        None => None,
    }
}

/// The last row of `rows` that holds `id` and is not `except`.
fn last_row_with(rows: &Vec<Option<u64>>, id: u64, except: Option<usize>) -> (r: Option<usize>)
    ensures
        opt_int(r) == latest_row(rows@, id, match except { Some(e) => e as int, None => -1 }),
{
    let ghost ex: int = match except { Some(e) => e as int, None => -1 };
    let mut n: usize = rows.len();
    assert(rows@.take(n as int) =~= rows@);
    while n > 0
        invariant
            n <= rows@.len(),
            ex == match except { Some(e) => e as int, None => -1 },
            latest_row(rows@, id, ex) == latest_row(rows@.take(n as int), id, ex),
        decreases n,
    {
        let idx = n - 1;
        assert(rows@.take(n as int).last() == rows@[idx as int]);
        assert(rows@.take(n as int).drop_last() =~= rows@.take(idx as int));
        let hit = match rows[idx] {
            Some(x) => x == id,
            None => false,
        };
        let skipped = match except {
            Some(e) => e == idx,
            None => false,
        };
        if hit && !skipped {
            return Some(idx);
        }
        n = idx;
    }
    None
}

/// The last row of the steamid column that belongs to player `wanted_steamid`.
pub fn find_most_recent_coordinate_idx(optv: Option<&PropColumn>, wanted_steamid: u64) -> (r: Option<usize>)
    ensures
        opt_int(r) == match steamid_rows(match optv { Some(c) => Some(*c), None => None }) {
            Some(rows) => latest_row(rows, wanted_steamid, -1),
            None => None,
        },
{
    match optv {
        Some(col) => match &col.data {
            Some(VarVec::U64(v)) => last_row_with(v, wanted_steamid, None),
            _ => None,
        },
        None => None,
    }
}

/// The last row of the steamid column that belongs to player
/// `wanted_steamid`, other than row `cur_idx`; nothing without `cur_idx`.
pub fn find_last_coordinate_idx(optv: Option<&PropColumn>, wanted_steamid: u64, cur_idx: Option<usize>) -> (r: Option<usize>)
    ensures
        opt_int(r) == match (steamid_rows(match optv { Some(c) => Some(*c), None => None }), cur_idx) {
            (Some(rows), Some(cur)) => latest_row(rows, wanted_steamid, cur as int),
            _ => None,
        },
{
    let cur = match cur_idx {
        Some(c) => c,
        None => return None,
    };
    match optv {
        Some(col) => match &col.data {
            Some(VarVec::U64(v)) => last_row_with(v, wanted_steamid, Some(cur)),
            _ => None,
        },
        None => None,
    }
}

/// The two rows that a player's speed is worked out from: its last row and
/// the one before, latest first; nothing where it has fewer than two rows
/// or the column holds no steamids.
pub fn find_wanted_indicies(optv: Option<&PropColumn>, wanted_steamid: u64) -> (r: Vec<usize>)
    ensures
        ({
            let col = match optv { Some(c) => Some(*c), None => None };
            match steamid_rows(col) {
                Some(rows) => {
                    let i1 = latest_row(rows, wanted_steamid, -1);
                    match i1 {
                        Some(a) => match latest_row(rows, wanted_steamid, a) {
                            Some(b) => r@.len() == 2 && r@[0] as int == a && r@[1] as int == b,
                            None => r@.len() == 0,
                        },
                        None => r@.len() == 0,
                    }
                },
                None => r@.len() == 0,
            }
        }),
        r@.len() == 0 || r@.len() == 2,
        r@.len() == 2 ==> ({
            let rows = steamid_rows(match optv { Some(c) => Some(*c), None => None })->Some_0;
            &&& r@[1] < r@[0] < rows.len()
            &&& rows[r@[0] as int] == Some(wanted_steamid)
            &&& rows[r@[1] as int] == Some(wanted_steamid)
            &&& forall|j: int| r@[1] < j < rows.len() && j != r@[0] ==> #[trigger] rows[j] != Some(wanted_steamid)
        }),
{
    let idx1 = find_most_recent_coordinate_idx(optv, wanted_steamid);
    let idx2 = find_last_coordinate_idx(optv, wanted_steamid, idx1);
    proof {
        let col = match optv { Some(c) => Some(*c), None => None };
        if let Some(rows) = steamid_rows(col) {
            lemma_latest_row(rows, wanted_steamid, -1);
            if let Some(a) = latest_row(rows, wanted_steamid, -1) {
                lemma_latest_row(rows, wanted_steamid, a);
            }
        }
    }
    match (idx1, idx2) {
        (Some(a), Some(b)) => vec![a, b],
        _ => Vec::new(),
    }
}

/// The values that a coordinate column holds at the two rows of `indicies`,
/// as float bits; nothing unless there are two rows and the column holds floats.
pub fn index_coordinates_from_propcol(propcol: &PropColumn, indicies: &[usize]) -> (r: Option<(Option<u32>, Option<u32>)>)
    requires
        indicies@.len() == 2 ==> (propcol.data matches Some(VarVec::F32(v)) ==>
            indicies@[0] < v@.len() && indicies@[1] < v@.len()),
    ensures
        match propcol.data {
            Some(VarVec::F32(v)) => if indicies@.len() == 2 {
                r == Some((v@[indicies@[0] as int], v@[indicies@[1] as int]))
            } else {
                r is None
            },
            _ => r is None,
        },
{
    if indicies.len() != 2 {
        return None;
    }
    match &propcol.data {
        Some(VarVec::F32(v)) => Some((v[indicies[0]], v[indicies[1]])),
        _ => None,
    }
}

} // verus!
