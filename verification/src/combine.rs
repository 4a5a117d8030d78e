use vstd::prelude::*;
use crate::prop_controller::{PropController, PropInfo};
use crate::strings::str_eq;
use crate::variants::PropColumn;
use crate::outputs::{ColumnModel, cols_map, keys_unique, combined, total_rows, combine_dfs};
use crate::props::{STEAMID_ID, NAME_ID};
use crate::tick_collect::{players_cols, players_valid};
use crate::game_types::{EconItem, PlayerEndMetaData, GameEvent};
use crate::projectiles::ProjectileRecord;
use crate::outputs::{remove_unwanted_ticks, tick_rows, col_model, kept_model, wanted_rows};
use crate::variants::index_set;
use crate::sales::{add_item_purchase_sell_column, remove_item_sold_events, purchases_readable, marked_event, purchase_sold, helpers_of};

verus! {

/// `order` lists every position below `n` once.
pub open spec fn is_permutation(order: Seq<usize>, n: int) -> bool {
    &&& order.len() == n
    &&& forall|k: int| 0 <= k < order.len() ==> #[trigger] order[k] < n
    &&& forall|a: int, b: int| 0 <= a < b < order.len() ==> order[a] != order[b]
}

/// `order` lists positions by ascending key, positions of equal keys in
/// their own order.
pub open spec fn stably_sorted(order: Seq<usize>, keys: Seq<usize>) -> bool {
    forall|a: int, b: int| 0 <= a < b < order.len() ==>
        keys[order[a] as int] < keys[order[b] as int]
        || (keys[order[a] as int] == keys[order[b] as int] && order[a] < order[b])
}

/// The positions of `keys` in ascending order of key, a stable sort: equal
/// keys keep their order.
pub fn stable_order(keys: &Vec<usize>) -> (order: Vec<usize>)
    ensures
        is_permutation(order@, keys@.len() as int),
        stably_sorted(order@, keys@),
{
    let mut order: Vec<usize> = Vec::new();
    let mut i: usize = 0;
    while i < keys.len()
        invariant
            i <= keys@.len(),
            order@.len() == i,
            forall|k: int| 0 <= k < order@.len() ==> #[trigger] order@[k] < i,
            forall|a: int, b: int| 0 <= a < b < order@.len() ==> order@[a] != order@[b],
            stably_sorted(order@, keys@),
        decreases keys@.len() - i,
    {
        let key = keys[i];
        let mut p: usize = 0;
        while p < order.len() && keys[order[p]] <= key
            invariant
                p <= order@.len(),
                order@.len() == i,
                i < keys@.len(),
                key == keys@[i as int],
                forall|k: int| 0 <= k < order@.len() ==> #[trigger] order@[k] < i,
                forall|k: int| 0 <= k < p ==> keys@[#[trigger] order@[k] as int] <= key,
            decreases order@.len() - p,
        {
            p += 1;
        }
        let ghost before = order@;
        order.insert(p, i);
        proof {
            assert(order@ == before.insert(p as int, i));
            assert forall|k: int| p < k < before.len() + 1 implies keys@[#[trigger] order@[k] as int] > key by {
                let j = k - 1;
                assert(order@[k] == before[j]);
                if p < before.len() {
                    assert(keys@[before[p as int] as int] > key);
                    if j > p {
                        assert(stably_sorted(before, keys@));
                        assert(keys@[before[p as int] as int] <= keys@[before[j] as int]);
                    }
                }
            }
            assert forall|a: int, b: int| 0 <= a < b < order@.len() implies
                keys@[order@[a] as int] < keys@[order@[b] as int]
                || (keys@[order@[a] as int] == keys@[order@[b] as int] && order@[a] < order@[b]) by {
                if a < p && b < p {
                    assert(order@[a] == before[a] && order@[b] == before[b]);
                } else if a < p && b == p {
                    assert(order@[a] == before[a]);
                    assert(before[a] < i);
                } else if a < p && b > p {
                    assert(order@[a] == before[a] && order@[b] == before[b - 1]);
                } else if a == p {
                    assert(order@[b] == before[b - 1]);
                } else {
                    assert(order@[a] == before[a - 1] && order@[b] == before[b - 1]);
                }
            }
            assert forall|a: int, b: int| 0 <= a < b < order@.len() implies order@[a] != order@[b] by {
                if a < p && b < p {
                    assert(order@[a] == before[a] && order@[b] == before[b]);
                } else if a < p && b == p {
                    assert(order@[a] == before[a]);
                } else if a < p && b > p {
                    assert(order@[a] == before[a] && order@[b] == before[b - 1]);
                } else if a == p {
                    assert(order@[b] == before[b - 1]);
                } else {
                    assert(order@[a] == before[a - 1] && order@[b] == before[b - 1]);
                }
            }
            assert forall|k: int| 0 <= k < order@.len() implies #[trigger] order@[k] < i + 1 by {
                if k < p {
                    assert(order@[k] == before[k]);
                } else if k > p {
                    assert(order@[k] == before[k - 1]);
                }
            }
        }
        i += 1;
    }
    order
}


/// The texts of some strings.
pub open spec fn texts(v: Seq<String>) -> Seq<Seq<char>> {
    v.map_values(|s: String| s@)
}

/// Whether text `x` is one of `v`.
fn in_texts(v: &Vec<String>, x: &str) -> (r: bool)
    ensures
        r == texts(v@).contains(x@),
{
    let mut i: usize = 0;
    while i < v.len()
        invariant
            i <= v@.len(),
            forall|j: int| 0 <= j < i ==> texts(v@)[j] != x@,
        decreases v@.len() - i,
    {
        if str_eq(v[i].as_str(), x) {
            assert(texts(v@)[i as int] == x@);
            return true;
        }
        i += 1;
    }
    false
}

/// The elements of `v`, in order, as popped from the end of the reverse.
fn reverse_of<T>(v: Vec<T>) -> (r: Vec<T>)
    ensures
        r@.len() == v@.len(),
        forall|i: int| 0 <= i < v@.len() ==> #[trigger] r@[i] == v@[v@.len() - 1 - i],
{
    let ghost orig = v@;
    let n = v.len();
    let mut rest = v;
    let mut rev: Vec<T> = Vec::new();
    while rest.len() > 0
        invariant
            n == orig.len(),
            rest@ == orig.take(rest@.len() as int),
            rev@.len() == n - rest@.len(),
            forall|i: int| 0 <= i < rev@.len() ==> #[trigger] rev@[i] == orig[n - 1 - i],
        decreases rest@.len(),
    {
        let x = rest.pop().unwrap();
        assert(rest@ =~= orig.take(rest@.len() as int));
        rev.push(x);
    }
    rev
}

/// The wanted names other than the temporary ones, in order.
fn drop_temp_names(names: Vec<String>, temps: &Vec<String>) -> (r: Vec<String>)
    ensures
        texts(r@) == texts(names@).filter(|x: Seq<char>| !texts(temps@).contains(x)),
{
    let ghost orig = names@;
    let n = names.len();
    let mut rev = reverse_of(names);
    let mut out: Vec<String> = Vec::new();
    let mut p: usize = 0;
    let ghost pred = |x: Seq<char>| !texts(temps@).contains(x);
    assert(texts(orig).take(0).filter(pred) =~= Seq::<Seq<char>>::empty());
    while rev.len() > 0
        invariant
            n == orig.len(),
            rev@.len() == n - p,
            p <= n,
            pred == (|x: Seq<char>| !texts(temps@).contains(x)),
            forall|i: int| 0 <= i < rev@.len() ==> #[trigger] rev@[i] == orig[n - 1 - i],
            texts(out@) == texts(orig).take(p as int).filter(pred),
        decreases rev@.len(),
    {
        let x = rev.pop().unwrap();
        assert(x == orig[p as int]);
        let ghost t = texts(orig);
        assert(t.take(p + 1).drop_last() =~= t.take(p as int));
        proof {
            t.take(p as int).lemma_filter_push(t[p as int], pred);
            assert(t.take(p as int).push(t[p as int]) =~= t.take(p + 1));
        }
        if !in_texts(temps, x.as_str()) {
            let ghost o = out@;
            out.push(x);
            assert(texts(out@) =~= texts(o).push(t[p as int]));
        }
        p += 1;
    }
    assert(texts(orig).take(n as int) =~= texts(orig));
    out
}

/// The properties whose name is not a temporary one, in order.
fn drop_temp_infos(infos: Vec<PropInfo>, temps: &Vec<String>) -> (r: Vec<PropInfo>)
    ensures
        r@ == infos@.filter(|i: PropInfo| !texts(temps@).contains(i.prop_name@)),
{
    let ghost orig = infos@;
    let n = infos.len();
    let mut rev = reverse_of(infos);
    let mut out: Vec<PropInfo> = Vec::new();
    let mut p: usize = 0;
    let ghost pred = |i: PropInfo| !texts(temps@).contains(i.prop_name@);
    assert(orig.take(0).filter(pred) =~= Seq::<PropInfo>::empty());
    while rev.len() > 0
        invariant
            n == orig.len(),
            rev@.len() == n - p,
            p <= n,
            pred == (|i: PropInfo| !texts(temps@).contains(i.prop_name@)),
            forall|i: int| 0 <= i < rev@.len() ==> #[trigger] rev@[i] == orig[n - 1 - i],
            out@ == orig.take(p as int).filter(pred),
        decreases rev@.len(),
    {
        let x = rev.pop().unwrap();
        assert(x == orig[p as int]);
        assert(orig.take(p + 1).drop_last() =~= orig.take(p as int));
        proof {
            orig.take(p as int).lemma_filter_push(orig[p as int], pred);
            assert(orig.take(p as int).push(orig[p as int]) =~= orig.take(p + 1));
        }
        if !in_texts(temps, x.prop_name.as_str()) {
            out.push(x);
        }
        p += 1;
    }
    assert(orig.take(n as int) =~= orig);
    out
}

/// Takes the properties that were only added for the parse out of the
/// controller: out of the wanted player properties and the collected
/// properties, each keeping its order.
pub fn remove_temp_props(pc: &mut PropController, temps: &Vec<String>)
    ensures
        texts(final(pc).wanted_player_props@) == texts(old(pc).wanted_player_props@).filter(|x: Seq<char>| !texts(temps@).contains(x)),
        final(pc).prop_infos@ == old(pc).prop_infos@.filter(|i: PropInfo| !texts(temps@).contains(i.prop_name@)),
{
    let mut names: Vec<String> = Vec::new();
    std::mem::swap(&mut names, &mut pc.wanted_player_props);
    pc.wanted_player_props = drop_temp_names(names, temps);
    let mut infos: Vec<PropInfo> = Vec::new();
    std::mem::swap(&mut infos, &mut pc.prop_infos);
    pc.prop_infos = drop_temp_infos(infos, temps);
}


/// The position of the first entry of player `sid`.
pub open spec fn entry_of(entries: Seq<(u64, Vec<(u32, PropColumn)>)>, sid: u64) -> Option<int>
    decreases entries.len(),
{
    if entries.len() == 0 {
        None
    } else {
        match entry_of(entries.drop_last(), sid) {
            Some(j) => Some(j),
            None => if entries.last().0 == sid { Some(entries.len() - 1) } else { None },
        }
    }
}

/// The first entry of player `sid` is one of it, and none before it is.
proof fn lemma_entry_of(entries: Seq<(u64, Vec<(u32, PropColumn)>)>, sid: u64)
    ensures
        match entry_of(entries, sid) {
            Some(j) => 0 <= j < entries.len() && entries[j].0 == sid
                && forall|t: int| 0 <= t < j ==> #[trigger] entries[t].0 != sid,
            None => forall|t: int| 0 <= t < entries.len() ==> #[trigger] entries[t].0 != sid,
        },
    decreases entries.len(),
{
    if entries.len() > 0 {
        lemma_entry_of(entries.drop_last(), sid);
        assert forall|t: int| 0 <= t < entries.len() - 1 implies #[trigger] entries[t] == entries.drop_last()[t] by {}
    }
}

/// The columns player `sid` has in each output, in order, where it has any.
pub open spec fn parts_of(outs: Seq<Vec<(u64, Vec<(u32, PropColumn)>)>>, sid: u64) -> Seq<Vec<(u32, PropColumn)>>
    decreases outs.len(),
{
    if outs.len() == 0 {
        Seq::empty()
    } else {
        parts_of(outs.drop_last(), sid) + match entry_of(outs.last()@, sid) {
            Some(j) => seq![outs.last()@[j].1],
            None => Seq::empty(),
        }
    }
}

/// Some output has columns of player `sid`.
pub open spec fn has_player(outs: Seq<Vec<(u64, Vec<(u32, PropColumn)>)>>, sid: u64) -> bool {
    exists|o: int, j: int| 0 <= o < outs.len() && 0 <= j < outs[o]@.len() && #[trigger] outs[o]@[j].0 == sid
}

/// Each player's columns over all outputs, each merged in order without
/// the steam-id and name columns.
pub open spec fn players_combined(outs: Seq<Vec<(u64, Vec<(u32, PropColumn)>)>>) -> Map<u64, Map<u32, ColumnModel>> {
    Map::new(|sid: u64| has_player(outs, sid), |sid: u64| combined(parts_of(outs, sid)).remove(STEAMID_ID).remove(NAME_ID))
}

/// Every output has distinct players with distinct column keys, and no
/// player has more rows over all outputs than can be counted.
pub open spec fn per_player_valid(outs: Seq<Vec<(u64, Vec<(u32, PropColumn)>)>>) -> bool {
    &&& forall|o: int| 0 <= o < outs.len() ==> players_valid(#[trigger] outs[o]@)
    &&& forall|sid: u64| #[trigger] total_rows(parts_of(outs, sid)) <= usize::MAX
}


/// Whether `x` is in `v`.
fn has_sid(v: &Vec<u64>, x: u64) -> (r: bool)
    ensures
        r == v@.contains(x),
{
    let mut i: usize = 0;
    while i < v.len()
        invariant
            i <= v@.len(),
            forall|j: int| 0 <= j < i ==> v@[j] != x,
        decreases v@.len() - i,
    {
        if v[i] == x {
            assert(v@[i as int] == x);
            return true;
        }
        i += 1;
    }
    false
}

/// The players of all outputs, each once, in the order they first appear.
fn all_players(per: &Vec<Vec<(u64, Vec<(u32, PropColumn)>)>>) -> (r: Vec<u64>)
    ensures
        forall|a: int, b: int| 0 <= a < b < r@.len() ==> r@[a] != r@[b],
        forall|sid: u64| r@.contains(sid) <==> has_player(per@, sid),
{
    let mut out: Vec<u64> = Vec::new();
    let mut o: usize = 0;
    while o < per.len()
        invariant
            o <= per@.len(),
            forall|a: int, b: int| 0 <= a < b < out@.len() ==> out@[a] != out@[b],
            forall|sid: u64| out@.contains(sid) <==> has_player(per@.take(o as int), sid),
        decreases per@.len() - o,
    {
        let entries = &per[o];
        let mut j: usize = 0;
        while j < entries.len()
            invariant
                o < per@.len(),
                *entries == per@[o as int],
                j <= entries@.len(),
                forall|a: int, b: int| 0 <= a < b < out@.len() ==> out@[a] != out@[b],
                forall|sid: u64| out@.contains(sid) <==> (has_player(per@.take(o as int), sid)
                    || exists|t: int| 0 <= t < j && #[trigger] entries@[t].0 == sid),
            decreases entries@.len() - j,
        {
            let sid = entries[j].0;
            let ghost before = out@;
            assert(forall|x: u64| before.contains(x) <==> (has_player(per@.take(o as int), x)
                || exists|t: int| 0 <= t < j && #[trigger] entries@[t].0 == x));
            let already = has_sid(&out, sid);
            if !already {
                out.push(sid);
                assert forall|x: u64| out@.contains(x) <==> before.contains(x) || x == sid by {
                    if out@.contains(x) && x != sid {
                        let w = choose|w: int| 0 <= w < out@.len() && out@[w] == x;
                        assert(before[w] == x);
                    }
                    if before.contains(x) {
                        let w = choose|w: int| 0 <= w < before.len() && before[w] == x;
                        assert(out@[w] == x);
                    }
                    if x == sid {
                        assert(out@[before.len() as int] == x);
                    }
                }
            }
            assert(already ==> out@ == before);
            assert(out@.contains(sid));
            assert(forall|x: u64| before.contains(x) ==> out@.contains(x));
            assert(forall|x: u64| out@.contains(x) ==> before.contains(x) || x == sid);
            assert forall|x: u64| out@.contains(x) <==> (has_player(per@.take(o as int), x)
                || exists|t: int| 0 <= t < j + 1 && #[trigger] entries@[t].0 == x) by {
                if x == sid {
                    assert(entries@[j as int].0 == x);
                }
                if out@.contains(x) && x != sid {
                    assert(before.contains(x));
                    if !has_player(per@.take(o as int), x) {
                        let t = choose|t: int| 0 <= t < j && #[trigger] entries@[t].0 == x;
                        assert(0 <= t < j + 1 && entries@[t].0 == x);
                    }
                }
                if has_player(per@.take(o as int), x) {
                    assert(before.contains(x));
                }
                if exists|t: int| 0 <= t < j + 1 && #[trigger] entries@[t].0 == x {
                    let t = choose|t: int| 0 <= t < j + 1 && #[trigger] entries@[t].0 == x;
                    if t < j {
                        assert(exists|t2: int| 0 <= t2 < j && #[trigger] entries@[t2].0 == x);
                        assert(before.contains(x));
                    } else {
                        assert(x == sid);
                    }
                }
            }
            j += 1;
        }
        proof {
            let tk = per@.take(o + 1);
            assert forall|x: u64| has_player(tk, x) <==> (has_player(per@.take(o as int), x)
                || exists|t: int| 0 <= t < entries@.len() && #[trigger] entries@[t].0 == x) by {
                if has_player(tk, x) {
                    let (a, b) = choose|a: int, b: int| 0 <= a < tk.len() && 0 <= b < tk[a]@.len() && #[trigger] tk[a]@[b].0 == x;
                    if a < o {
                        assert(per@.take(o as int)[a] == tk[a]);
                    } else {
                        assert(entries@[b].0 == x);
                    }
                }
                if has_player(per@.take(o as int), x) {
                    let (a, b) = choose|a: int, b: int| 0 <= a < o && 0 <= b < per@.take(o as int)[a]@.len()
                        && #[trigger] per@.take(o as int)[a]@[b].0 == x;
                    assert(tk[a] == per@.take(o as int)[a]);
                    assert(tk[a]@[b].0 == x);
                }
                if exists|t: int| 0 <= t < entries@.len() && #[trigger] entries@[t].0 == x {
                    let t = choose|t: int| 0 <= t < entries@.len() && #[trigger] entries@[t].0 == x;
                    assert(tk[o as int]@[t].0 == x);
                }
            }
        }
        o += 1;
    }
    assert(per@.take(o as int) =~= per@);
    out
}


/// `cur` has the players of `orig` in the same places, and the columns of
/// every player not in `done` unchanged.
pub open spec fn same_layout(cur: Seq<Vec<(u64, Vec<(u32, PropColumn)>)>>, orig: Seq<Vec<(u64, Vec<(u32, PropColumn)>)>>,
    done: Seq<u64>) -> bool {
    &&& cur.len() == orig.len()
    &&& forall|o: int| 0 <= o < cur.len() ==> (#[trigger] cur[o])@.len() == orig[o]@.len()
    &&& forall|o: int, j: int| 0 <= o < cur.len() && 0 <= j < cur[o]@.len() ==> (#[trigger] cur[o]@[j]).0 == orig[o]@[j].0
    &&& forall|o: int, j: int| 0 <= o < cur.len() && 0 <= j < cur[o]@.len() && !done.contains(orig[o]@[j].0)
        ==> (#[trigger] cur[o]@[j]).1 == orig[o]@[j].1
}

/// The position of player `sid`'s first entry.
fn position_of_sid(entries: &Vec<(u64, Vec<(u32, PropColumn)>)>, sid: u64) -> (r: Option<usize>)
    ensures
        match r {
            Some(j) => j < entries@.len() && entries@[j as int].0 == sid
                && forall|t: int| 0 <= t < j ==> #[trigger] entries@[t].0 != sid,
            None => forall|t: int| 0 <= t < entries@.len() ==> #[trigger] entries@[t].0 != sid,
        },
{
    let mut j: usize = 0;
    while j < entries.len()
        invariant
            j <= entries@.len(),
            forall|t: int| 0 <= t < j ==> #[trigger] entries@[t].0 != sid,
        decreases entries@.len() - j,
    {
        if entries[j].0 == sid {
            return Some(j);
        }
        j += 1;
    }
    None
}

/// Takes the columns of player `sid` out of every output, in order.
fn take_parts(per: &mut Vec<Vec<(u64, Vec<(u32, PropColumn)>)>>, sid: u64, Ghost(orig): Ghost<Seq<Vec<(u64, Vec<(u32, PropColumn)>)>>>,
    Ghost(done): Ghost<Seq<u64>>) -> (r: Vec<Vec<(u32, PropColumn)>>)
    requires
        same_layout(old(per)@, orig, done),
        !done.contains(sid),
    ensures
        same_layout(final(per)@, orig, done.push(sid)),
        r@ == parts_of(orig, sid),
{
    let mut parts: Vec<Vec<(u32, PropColumn)>> = Vec::new();
    let mut o: usize = 0;
    let ghost d2 = done.push(sid);
    assert(orig.take(0) =~= Seq::<Vec<(u64, Vec<(u32, PropColumn)>)>>::empty());
    assert forall|x: u64| done.contains(x) implies #[trigger] d2.contains(x) by {
        let w = choose|w: int| 0 <= w < done.len() && done[w] == x;
        assert(d2[w] == x);
    }
    while o < per.len()
        invariant
            o <= per@.len(),
            !done.contains(sid),
            d2 == done.push(sid),
            per@.len() == orig.len(),
            forall|q: int| 0 <= q < per@.len() ==> (#[trigger] per@[q])@.len() == orig[q]@.len(),
            forall|q: int, j: int| 0 <= q < per@.len() && 0 <= j < per@[q]@.len() ==> (#[trigger] per@[q]@[j]).0 == orig[q]@[j].0,
            forall|q: int, j: int| 0 <= q < per@.len() && 0 <= j < per@[q]@.len() && !d2.contains(orig[q]@[j].0)
                ==> (#[trigger] per@[q]@[j]).1 == orig[q]@[j].1,
            forall|q: int, j: int| o <= q < per@.len() && 0 <= j < per@[q]@.len() && !done.contains(orig[q]@[j].0)
                ==> (#[trigger] per@[q]@[j]).1 == orig[q]@[j].1,
            parts@ == parts_of(orig.take(o as int), sid),
        decreases per@.len() - o,
    {
        let ghost tk = orig.take(o + 1);
        assert(tk.drop_last() =~= orig.take(o as int));
        assert(tk.last() == orig[o as int]);
        proof {
            lemma_entry_of(orig[o as int]@, sid);
        }
        match position_of_sid(&per[o], sid) {
            Some(j) => {
                proof {
                    if let Some(j2) = entry_of(orig[o as int]@, sid) {
                        assert(per@[o as int]@[j2].0 == orig[o as int]@[j2].0);
                    }
                    assert(per@[o as int]@[j as int].0 == orig[o as int]@[j as int].0);
                    assert(entry_of(orig[o as int]@, sid) == Some(j as int));
                    assert(per@[o as int]@[j as int].1 == orig[o as int]@[j as int].1);
                }
                let mut entries: Vec<(u64, Vec<(u32, PropColumn)>)> = Vec::new();
                std::mem::swap(&mut entries, &mut per[o]);
                let ghost e0 = entries@;
                let mut entry: (u64, Vec<(u32, PropColumn)>) = (0u64, Vec::new());
                std::mem::swap(&mut entry, &mut entries[j]);
                let df = entry.1;
                entries.set(j, (sid, Vec::new()));
                per.set(o, entries);
                proof {
                    assert(df == orig[o as int]@[j as int].1);
                    assert forall|q: int, t: int| 0 <= q < per@.len() && 0 <= t < per@[q]@.len() implies
                        (#[trigger] per@[q]@[t]).0 == orig[q]@[t].0 by {
                        if q == o && t != j {
                            assert(per@[q]@[t] == e0[t]);
                        }
                    }
                    assert forall|q: int, t: int| 0 <= q < per@.len() && 0 <= t < per@[q]@.len() && !d2.contains(orig[q]@[t].0)
                        implies (#[trigger] per@[q]@[t]).1 == orig[q]@[t].1 by {
                        if q == o && t != j {
                            assert(per@[q]@[t] == e0[t]);
                        }
                        if q == o && t == j {
                            assert(d2[d2.len() - 1] == sid);
                        }
                    }
                }
                parts.push(df);
            },
            None => {
                proof {
                    if let Some(j2) = entry_of(orig[o as int]@, sid) {
                        assert(per@[o as int]@[j2].0 == orig[o as int]@[j2].0);
                    }
                    assert(entry_of(orig[o as int]@, sid) is None);
                }
            },
        }
        o += 1;
    }
    assert(orig.take(o as int) =~= orig);
    parts
}


/// Every part of a player's columns comes from some output, so its keys
/// are distinct.
proof fn lemma_parts_valid(outs: Seq<Vec<(u64, Vec<(u32, PropColumn)>)>>, sid: u64)
    requires
        forall|o: int| 0 <= o < outs.len() ==> players_valid(#[trigger] outs[o]@),
    ensures
        forall|p: int| 0 <= p < parts_of(outs, sid).len() ==> keys_unique(#[trigger] parts_of(outs, sid)[p]@),
    decreases outs.len(),
{
    if outs.len() > 0 {
        let front = outs.drop_last();
        assert forall|o: int| 0 <= o < front.len() implies players_valid(#[trigger] front[o]@) by {
            assert(front[o] == outs[o]);
        }
        lemma_parts_valid(front, sid);
        lemma_entry_of(outs.last()@, sid);
        assert(players_valid(outs[outs.len() - 1]@));
        let ps = parts_of(outs, sid);
        assert forall|p: int| 0 <= p < ps.len() implies keys_unique(#[trigger] ps[p]@) by {
            if p < parts_of(front, sid).len() {
                assert(ps[p] == parts_of(front, sid)[p]);
            }
        }
    }
}

/// Each player's columns over all outputs, merged in order of the outputs
/// and without the steam-id and name columns, as `players_combined` says.
pub fn combine_per_player(per: Vec<Vec<(u64, Vec<(u32, PropColumn)>)>>) -> (r: Vec<(u64, Vec<(u32, PropColumn)>)>)
    requires
        per_player_valid(per@),
    ensures
        players_valid(r@),
        players_cols(r@) == players_combined(per@),
{
    let ghost orig = per@;
    let sids = all_players(&per);
    let mut per = per;
    let mut out: Vec<(u64, Vec<(u32, PropColumn)>)> = Vec::new();
    let mut i: usize = 0;
    assert(sids@.take(0) =~= Seq::<u64>::empty());
    assert(players_cols(out@) =~= Map::new(|s: u64| sids@.take(0).contains(s),
        |s: u64| combined(parts_of(orig, s)).remove(STEAMID_ID).remove(NAME_ID)));
    while i < sids.len()
        invariant
            i <= sids@.len(),
            per_player_valid(orig),
            forall|a: int, b: int| 0 <= a < b < sids@.len() ==> sids@[a] != sids@[b],
            forall|sid: u64| sids@.contains(sid) <==> has_player(orig, sid),
            same_layout(per@, orig, sids@.take(i as int)),
            out@.len() == i,
            forall|k: int| 0 <= k < i ==> (#[trigger] out@[k]).0 == sids@[k],
            players_valid(out@),
            players_cols(out@) == Map::new(|s: u64| sids@.take(i as int).contains(s),
                |s: u64| combined(parts_of(orig, s)).remove(STEAMID_ID).remove(NAME_ID)),
        decreases sids@.len() - i,
    {
        let sid = sids[i];
        let ghost done = sids@.take(i as int);
        assert(!done.contains(sid)) by {
            if done.contains(sid) {
                let w = choose|w: int| 0 <= w < done.len() && done[w] == sid;
                assert(sids@[w] == sids@[i as int]);
            }
        }
        let parts = take_parts(&mut per, sid, Ghost(orig), Ghost(done));
        assert(done.push(sid) =~= sids@.take(i + 1));
        proof {
            lemma_parts_valid(orig, sid);
        }
        let c = combine_dfs(parts, true);
        let ghost o0 = out@;
        out.push((sid, c));
        proof {
            assert(out@.drop_last() =~= o0);
            assert forall|a: int, b: int| 0 <= a < b < out@.len() implies out@[a].0 != out@[b].0 by {
                assert(out@[a].0 == sids@[a]);
                assert(out@[b].0 == sids@[b]);
            }
            assert forall|a: int| 0 <= a < out@.len() implies keys_unique(#[trigger] out@[a].1@) by {
                if a < o0.len() {
                    assert(out@[a] == o0[a]);
                }
            }
            assert forall|k: int| 0 <= k < i + 1 implies (#[trigger] out@[k]).0 == sids@[k] by {
                if k < i {
                    assert(out@[k] == o0[k]);
                }
            }
            assert(players_cols(out@) =~= Map::new(|s: u64| sids@.take(i + 1).contains(s),
                |s: u64| combined(parts_of(orig, s)).remove(STEAMID_ID).remove(NAME_ID))) by {
                assert forall|s: u64| sids@.take(i + 1).contains(s) <==> (sids@.take(i as int).contains(s) || s == sid) by {
                    if sids@.take(i + 1).contains(s) && s != sid {
                        let w = choose|w: int| 0 <= w < sids@.take(i + 1).len() && #[trigger] sids@.take(i + 1)[w] == s;
                        assert(sids@.take(i as int)[w] == s);
                    }
                    if sids@.take(i as int).contains(s) {
                        let w = choose|w: int| 0 <= w < sids@.take(i as int).len() && #[trigger] sids@.take(i as int)[w] == s;
                        assert(sids@.take(i + 1)[w] == s);
                    }
                    if s == sid {
                        assert(sids@.take(i + 1)[i as int] == s);
                    }
                }
            }
        }
        i += 1;
    }
    assert(sids@.take(i as int) =~= sids@);
    assert(players_cols(out@) =~= players_combined(orig));
    out
}


/// What one part of the demo gives: where it starts, its columns, and its
/// item drops, end-of-match players, events, skins, event names seen,
/// grenade records and voice messages (as their encoded bytes).
#[derive(Debug)]
pub struct SecondPassOutput {
    pub ptr: usize,
    pub prop_data: Vec<(u32, PropColumn)>,
    pub prop_data_per_player: Vec<(u64, Vec<(u32, PropColumn)>)>,
    pub item_drops: Vec<EconItem>,
    pub player_md: Vec<PlayerEndMetaData>,
    pub game_events: Vec<GameEvent>,
    pub skins: Vec<EconItem>,
    pub game_events_counter: Vec<String>,
    pub projectiles: Vec<ProjectileRecord>,
    pub voice_data: Vec<Vec<u8>>,
}

/// What the first pass hands on to the combination: the property
/// controller, the header, the wanted ticks and the properties added only
/// for the parse.
#[derive(Debug)]
pub struct FirstPassSummary {
    pub prop_controller: PropController,
    pub header: Vec<(String, String)>,
    pub wanted_ticks: Vec<i32>,
    pub added_temp_props: Vec<String>,
}

/// Everything a demo gives, combined over its parts.
#[derive(Debug)]
pub struct DemoOutput {
    pub prop_controller: PropController,
    pub item_drops: Vec<EconItem>,
    pub player_md: Vec<PlayerEndMetaData>,
    pub game_events: Vec<GameEvent>,
    pub skins: Vec<EconItem>,
    pub df: Vec<(u32, PropColumn)>,
    pub header: Option<Vec<(String, String)>>,
    pub game_events_counter: Vec<String>,
    pub projectiles: Vec<ProjectileRecord>,
    pub voice_data: Vec<Vec<u8>>,
    pub df_per_player: Vec<(u64, Vec<(u32, PropColumn)>)>,
}

/// The outputs taken in the order `order` gives.
pub open spec fn in_order(outs: Seq<SecondPassOutput>, order: Seq<usize>) -> Seq<SecondPassOutput> {
    order.map_values(|k: usize| outs[k as int])
}

/// The starts of the outputs.
pub open spec fn ptrs_of(outs: Seq<SecondPassOutput>) -> Seq<usize> {
    outs.map_values(|o: SecondPassOutput| o.ptr)
}

/// `order` is the order of the outputs by start, a stable sort.
pub open spec fn by_start(order: Seq<usize>, outs: Seq<SecondPassOutput>) -> bool {
    is_permutation(order, outs.len() as int) && stably_sorted(order, ptrs_of(outs))
}

/// One list of each output, one after another.
pub open spec fn flat_by<T>(s: Seq<SecondPassOutput>, f: spec_fn(SecondPassOutput) -> Seq<T>) -> Seq<T>
    decreases s.len(),
{
    if s.len() == 0 { Seq::empty() } else { flat_by(s.drop_last(), f) + f(s.last()) }
}

/// The item drops of all outputs, in order.
pub open spec fn all_drops(s: Seq<SecondPassOutput>) -> Seq<EconItem> {
    flat_by(s, |o: SecondPassOutput| o.item_drops@)
}

/// The end-of-match players of all outputs, in order.
pub open spec fn all_player_md(s: Seq<SecondPassOutput>) -> Seq<PlayerEndMetaData> {
    flat_by(s, |o: SecondPassOutput| o.player_md@)
}

/// The events of all outputs, in order.
pub open spec fn all_events(s: Seq<SecondPassOutput>) -> Seq<GameEvent> {
    flat_by(s, |o: SecondPassOutput| o.game_events@)
}

/// The skins of all outputs, in order.
pub open spec fn all_skins(s: Seq<SecondPassOutput>) -> Seq<EconItem> {
    flat_by(s, |o: SecondPassOutput| o.skins@)
}

/// The event names seen in all outputs, in order.
pub open spec fn all_counted(s: Seq<SecondPassOutput>) -> Seq<Seq<char>> {
    flat_by(s, |o: SecondPassOutput| texts(o.game_events_counter@))
}

/// The grenade records of all outputs, in order.
pub open spec fn all_projectiles(s: Seq<SecondPassOutput>) -> Seq<ProjectileRecord> {
    flat_by(s, |o: SecondPassOutput| o.projectiles@)
}

/// The voice messages of all outputs, in order.
pub open spec fn all_voice(s: Seq<SecondPassOutput>) -> Seq<Vec<u8>> {
    flat_by(s, |o: SecondPassOutput| o.voice_data@)
}

/// The columns of each output.
pub open spec fn dfs_of(s: Seq<SecondPassOutput>) -> Seq<Vec<(u32, PropColumn)>> {
    s.map_values(|o: SecondPassOutput| o.prop_data)
}

/// The per-player columns of each output.
pub open spec fn pers_of(s: Seq<SecondPassOutput>) -> Seq<Vec<(u64, Vec<(u32, PropColumn)>)>> {
    s.map_values(|o: SecondPassOutput| o.prop_data_per_player)
}

/// `df` is the combined columns `m` with only the rows of the wanted ticks
/// kept, where some ticks are wanted.
pub open spec fn df_done(df: Seq<(u32, PropColumn)>, m: Map<u32, ColumnModel>, wanted: Seq<i32>) -> bool {
    &&& keys_unique(df)
    &&& if wanted.len() == 0 {
        cols_map(df) == m
    } else {
        exists|mid: Seq<(u32, PropColumn)>| #[trigger] keys_unique(mid) && cols_map(mid) == m && df.len() == mid.len()
            && match tick_rows(mid) {
                None => df == mid,
                Some(t) => forall|i: int| 0 <= i < mid.len() ==> #[trigger] df[i].0 == mid[i].0
                    && col_model(df[i].1) == kept_model(col_model(mid[i].1), index_set(wanted_rows(t, wanted)),
                        wanted_rows(t, wanted).len()),
            }
    }
}

/// `after` is `events` with each purchase marked with whether it was sold
/// back, and the sell-back events left out.
pub open spec fn events_done(events: Seq<GameEvent>, after: Seq<GameEvent>) -> bool {
    exists|marked: Seq<GameEvent>| #[trigger] marked.len() == events.len()
        && (forall|j: int| 0 <= j < events.len() ==> #[trigger] marked_event(events[j], marked[j],
            purchase_sold(events[j], helpers_of(events, "item_sold"@), helpers_of(events, "item_purchase"@))))
        && after == marked.filter(|e: GameEvent| e.name@ != "item_sold"@)
}

/// `r` combines the outputs `s`, taken in this order, with the first pass
/// `first`.
pub open spec fn combined_output(r: DemoOutput, s: Seq<SecondPassOutput>, first: FirstPassSummary) -> bool {
    &&& texts(r.prop_controller.wanted_player_props@) == texts(first.prop_controller.wanted_player_props@)
        .filter(|x: Seq<char>| !texts(first.added_temp_props@).contains(x))
    &&& r.prop_controller.prop_infos@ == first.prop_controller.prop_infos@
        .filter(|i: PropInfo| !texts(first.added_temp_props@).contains(i.prop_name@))
    &&& r.item_drops@ == all_drops(s)
    &&& r.player_md@ == all_player_md(s)
    &&& events_done(all_events(s), r.game_events@)
    &&& r.skins@ == all_skins(s)
    &&& df_done(r.df@, combined(dfs_of(s)), first.wanted_ticks@)
    &&& r.header == Some(first.header)
    &&& (forall|a: int, b: int| 0 <= a < b < r.game_events_counter@.len() ==>
        r.game_events_counter@[a]@ != r.game_events_counter@[b]@)
    &&& texts(r.game_events_counter@).to_set() == all_counted(s).to_set()
    &&& r.projectiles@ == all_projectiles(s)
    &&& r.voice_data@ == all_voice(s)
    &&& players_valid(r.df_per_player@)
    &&& players_cols(r.df_per_player@) == players_combined(pers_of(s))
}

/// What the combination needs of the outputs: distinct column keys, the
/// purchases readable, and, in start order, rows that can be counted.
pub open spec fn outputs_combinable(outs: Seq<SecondPassOutput>) -> bool {
    &&& forall|o: int| 0 <= o < outs.len() ==> keys_unique(#[trigger] outs[o].prop_data@)
    &&& forall|o: int| 0 <= o < outs.len() ==> players_valid(#[trigger] outs[o].prop_data_per_player@)
    &&& forall|o: int| 0 <= o < outs.len() ==> purchases_readable(#[trigger] outs[o].game_events@)
    &&& forall|order: Seq<usize>| #[trigger] by_start(order, outs) ==>
        total_rows(dfs_of(in_order(outs, order))) <= usize::MAX
        && forall|sid: u64| #[trigger] total_rows(parts_of(pers_of(in_order(outs, order)), sid)) <= usize::MAX
}


/// An output with nothing in it.
fn empty_output() -> (r: SecondPassOutput)
    ensures
        r.ptr == 0,
        r.prop_data@.len() == 0,
        r.prop_data_per_player@.len() == 0,
        r.item_drops@.len() == 0,
        r.player_md@.len() == 0,
        r.game_events@.len() == 0,
        r.skins@.len() == 0,
        r.game_events_counter@.len() == 0,
        r.projectiles@.len() == 0,
        r.voice_data@.len() == 0,
{
    SecondPassOutput {
        ptr: 0,
        prop_data: Vec::new(),
        prop_data_per_player: Vec::new(),
        item_drops: Vec::new(),
        player_md: Vec::new(),
        game_events: Vec::new(),
        skins: Vec::new(),
        game_events_counter: Vec::new(),
        projectiles: Vec::new(),
        voice_data: Vec::new(),
    }
}

/// Purchases readable in every output are readable in all of them together.
proof fn lemma_flat_readable(s: Seq<SecondPassOutput>)
    requires
        forall|o: int| 0 <= o < s.len() ==> purchases_readable(#[trigger] s[o].game_events@),
    ensures
        purchases_readable(all_events(s)),
    decreases s.len(),
{
    if s.len() > 0 {
        let front = s.drop_last();
        assert forall|o: int| 0 <= o < front.len() implies purchases_readable(#[trigger] front[o].game_events@) by {
            assert(front[o] == s[o]);
        }
        lemma_flat_readable(front);
        let a = all_events(front);
        let b = s.last().game_events@;
        assert(purchases_readable(s[s.len() - 1].game_events@));
        let all = all_events(s);
        assert(all == a + b);
        assert forall|j: int| 0 <= j < all.len() && #[trigger] all[j].name@ == "item_purchase"@ implies
            crate::sales::sell_back_of(all[j]) is Some by {
            if j < a.len() {
                assert(all[j] == a[j]);
            } else {
                assert(all[j] == b[j - a.len()]);
            }
        }
    }
}

/// Moves the outputs into the order `order` gives.
fn put_in_order(outputs: Vec<SecondPassOutput>, order: &Vec<usize>) -> (r: Vec<SecondPassOutput>)
    requires
        is_permutation(order@, outputs@.len() as int),
    ensures
        r@ == in_order(outputs@, order@),
{
    let ghost orig = outputs@;
    let mut outs = outputs;
    let mut sorted: Vec<SecondPassOutput> = Vec::new();
    let mut k: usize = 0;
    while k < order.len()
        invariant
            k <= order@.len(),
            is_permutation(order@, orig.len() as int),
            outs@.len() == orig.len(),
            sorted@.len() == k,
            forall|t: int| 0 <= t < k ==> #[trigger] sorted@[t] == orig[order@[t] as int],
            forall|p: int| 0 <= p < orig.len() && (forall|t: int| 0 <= t < k ==> order@[t] != p)
                ==> #[trigger] outs@[p] == orig[p],
        decreases order@.len() - k,
    {
        let idx = order[k];
        assert(forall|t: int| 0 <= t < k ==> order@[t] != idx);
        let mut slot = empty_output();
        std::mem::swap(&mut slot, &mut outs[idx]);
        sorted.push(slot);
        proof {
            assert forall|p: int| 0 <= p < orig.len() && (forall|t: int| 0 <= t < k + 1 ==> order@[t] != p)
                implies #[trigger] outs@[p] == orig[p] by {
                assert(order@[k as int] != p);
            }
        }
        k += 1;
    }
    assert(sorted@ =~= in_order(orig, order@));
    sorted
}

/// Appends the names of `names` that `out` does not have yet.
fn add_new_names(out: &mut Vec<String>, names: Vec<String>)
    requires
        forall|a: int, b: int| 0 <= a < b < old(out)@.len() ==> old(out)@[a]@ != old(out)@[b]@,
    ensures
        forall|a: int, b: int| 0 <= a < b < final(out)@.len() ==> final(out)@[a]@ != final(out)@[b]@,
        texts(final(out)@).to_set() == texts(old(out)@).to_set() + texts(names@).to_set(),
{
    let ghost start = texts(out@).to_set();
    let ghost orig = names@;
    let n = names.len();
    let mut rev = reverse_of(names);
    let mut p: usize = 0;
    assert(texts(orig).take(0).to_set() =~= Set::<Seq<char>>::empty());
    while rev.len() > 0
        invariant
            n == orig.len(),
            rev@.len() == n - p,
            p <= n,
            forall|i: int| 0 <= i < rev@.len() ==> #[trigger] rev@[i] == orig[n - 1 - i],
            forall|a: int, b: int| 0 <= a < b < out@.len() ==> out@[a]@ != out@[b]@,
            texts(out@).to_set() == start + texts(orig).take(p as int).to_set(),
        decreases rev@.len(),
    {
        let x = rev.pop().unwrap();
        assert(x == orig[p as int]);
        let ghost before = out@;
        assert(texts(orig).take(p + 1) =~= texts(orig).take(p as int).push(x@));
        proof {
            texts(orig).take(p as int).lemma_push_to_set_commute(x@);
        }
        assert(texts(orig).take(p + 1).to_set() =~= texts(orig).take(p as int).to_set().insert(x@));
        if !in_texts(out, x.as_str()) {
            out.push(x);
            assert(texts(out@) =~= texts(before).push(orig[p as int]@));
            proof {
                texts(before).lemma_push_to_set_commute(orig[p as int]@);
            }
            assert(texts(out@).to_set() =~= texts(before).to_set().insert(orig[p as int]@));
            assert forall|a: int, b: int| 0 <= a < b < out@.len() implies out@[a]@ != out@[b]@ by {
                if b == out@.len() - 1 {
                    assert(texts(before)[a] == out@[a]@);
                }
            }
        } else {
            assert(texts(out@).contains(x@));
            assert(texts(out@).to_set().contains(x@));
            assert(texts(out@).to_set() =~= texts(out@).to_set().insert(x@));
        }
        p += 1;
    }
    assert(texts(orig).take(n as int) =~= texts(orig));
}


/// One more output adds its lists at the end.
proof fn lemma_flat_step(s: Seq<SecondPassOutput>, k: int)
    requires
        0 <= k < s.len(),
    ensures
        all_drops(s.take(k + 1)) == all_drops(s.take(k)) + s[k].item_drops@,
        all_player_md(s.take(k + 1)) == all_player_md(s.take(k)) + s[k].player_md@,
        all_events(s.take(k + 1)) == all_events(s.take(k)) + s[k].game_events@,
        all_skins(s.take(k + 1)) == all_skins(s.take(k)) + s[k].skins@,
        all_counted(s.take(k + 1)) == all_counted(s.take(k)) + texts(s[k].game_events_counter@),
        all_projectiles(s.take(k + 1)) == all_projectiles(s.take(k)) + s[k].projectiles@,
        all_voice(s.take(k + 1)) == all_voice(s.take(k)) + s[k].voice_data@,
        dfs_of(s.take(k + 1)) == dfs_of(s.take(k)).push(s[k].prop_data),
        pers_of(s.take(k + 1)) == pers_of(s.take(k)).push(s[k].prop_data_per_player),
{
    assert(s.take(k + 1).drop_last() =~= s.take(k));
    assert(s.take(k + 1).last() == s[k]);
    assert(dfs_of(s.take(k + 1)) =~= dfs_of(s.take(k)).push(s[k].prop_data));
    assert(pers_of(s.take(k + 1)) =~= pers_of(s.take(k)).push(s[k].prop_data_per_player));
}

/// Combines the outputs of the parts of a demo, taken in order of where
/// they start (a stable sort): the properties added only for the parse
/// are taken out of the controller; the columns of all parts are merged,
/// keeping only the rows of the wanted ticks where some are wanted, and so
/// are each player's columns (without steam id and name); the lists are
/// joined in order; purchases are marked with whether they were sold back,
/// and the sell-backs left out; the event names seen are kept once each.
pub fn combine_outputs(outputs: Vec<SecondPassOutput>, first: FirstPassSummary) -> (r: DemoOutput)
    requires
        outputs_combinable(outputs@),
    ensures
        exists|order: Seq<usize>| #[trigger] by_start(order, outputs@)
            && combined_output(r, in_order(outputs@, order), first),
{
    let ghost orig = outputs@;
    let mut ptrs: Vec<usize> = Vec::new();
    let mut i: usize = 0;
    while i < outputs.len()
        invariant
            i <= outputs@.len(),
            ptrs@.len() == i,
            forall|t: int| 0 <= t < i ==> #[trigger] ptrs@[t] == outputs@[t].ptr,
        decreases outputs@.len() - i,
    {
        ptrs.push(outputs[i].ptr);
        i += 1;
    }
    assert(ptrs@ =~= ptrs_of(orig));
    let order = stable_order(&ptrs);
    let ghost ord = order@;
    assert(by_start(ord, orig));
    let sorted = put_in_order(outputs, &order);
    let ghost s = sorted@;
    proof {
        assert forall|k: int| 0 <= k < s.len() implies purchases_readable(#[trigger] s[k].game_events@) by {
            assert(s[k] == orig[ord[k] as int]);
        }
        assert forall|k: int| 0 <= k < s.len() implies keys_unique(#[trigger] s[k].prop_data@) by {
            assert(s[k] == orig[ord[k] as int]);
        }
        assert forall|k: int| 0 <= k < s.len() implies players_valid(#[trigger] s[k].prop_data_per_player@) by {
            assert(s[k] == orig[ord[k] as int]);
        }
    }
    let n = sorted.len();
    let mut rev = reverse_of(sorted);
    let mut item_drops: Vec<EconItem> = Vec::new();
    let mut player_md: Vec<PlayerEndMetaData> = Vec::new();
    let mut game_events: Vec<GameEvent> = Vec::new();
    let mut skins: Vec<EconItem> = Vec::new();
    let mut counter: Vec<String> = Vec::new();
    let mut projectiles: Vec<ProjectileRecord> = Vec::new();
    let mut voice_data: Vec<Vec<u8>> = Vec::new();
    let mut dfs: Vec<Vec<(u32, PropColumn)>> = Vec::new();
    let mut pers: Vec<Vec<(u64, Vec<(u32, PropColumn)>)>> = Vec::new();
    let mut k: usize = 0;
    assert(s.take(0) =~= Seq::<SecondPassOutput>::empty());
    assert(dfs_of(s.take(0)) =~= Seq::<Vec<(u32, PropColumn)>>::empty());
    assert(pers_of(s.take(0)) =~= Seq::<Vec<(u64, Vec<(u32, PropColumn)>)>>::empty());
    assert(texts(counter@).to_set() =~= all_counted(s.take(0)).to_set());
    while rev.len() > 0
        invariant
            n == s.len(),
            rev@.len() == n - k,
            k <= n,
            forall|t: int| 0 <= t < rev@.len() ==> #[trigger] rev@[t] == s[n - 1 - t],
            item_drops@ == all_drops(s.take(k as int)),
            player_md@ == all_player_md(s.take(k as int)),
            game_events@ == all_events(s.take(k as int)),
            skins@ == all_skins(s.take(k as int)),
            projectiles@ == all_projectiles(s.take(k as int)),
            voice_data@ == all_voice(s.take(k as int)),
            dfs@ == dfs_of(s.take(k as int)),
            pers@ == pers_of(s.take(k as int)),
            forall|a: int, b: int| 0 <= a < b < counter@.len() ==> counter@[a]@ != counter@[b]@,
            texts(counter@).to_set() == all_counted(s.take(k as int)).to_set(),
        decreases rev@.len(),
    {
        let mut o = rev.pop().unwrap();
        assert(o == s[k as int]);
        proof {
            lemma_flat_step(s, k as int);
            vstd::seq_lib::seq_to_set_distributes_over_add(all_counted(s.take(k as int)), texts(s[k as int].game_events_counter@));
        }
        item_drops.append(&mut o.item_drops);
        player_md.append(&mut o.player_md);
        game_events.append(&mut o.game_events);
        skins.append(&mut o.skins);
        projectiles.append(&mut o.projectiles);
        voice_data.append(&mut o.voice_data);
        let names = o.game_events_counter;
        let ghost c0 = texts(counter@).to_set();
        add_new_names(&mut counter, names);
        proof {
            assert((all_counted(s.take(k as int)) + texts(s[k as int].game_events_counter@)).to_set()
                =~= all_counted(s.take(k as int)).to_set() + texts(s[k as int].game_events_counter@).to_set());
        }
        dfs.push(o.prop_data);
        pers.push(o.prop_data_per_player);
        k += 1;
    }
    assert(s.take(n as int) =~= s);
    proof {
        assert(by_start(ord, orig));
        assert(in_order(orig, ord) == s);
        lemma_flat_readable(s);
    }
    let mut df = combine_dfs(dfs, false);
    let ghost mid = df@;
    if first.wanted_ticks.len() > 0 {
        remove_unwanted_ticks(&mut df, &first.wanted_ticks);
        proof {
            assert(keys_unique(df@)) by {
                assert forall|a: int, b: int| 0 <= a < b < df@.len() implies df@[a].0 != df@[b].0 by {
                    if tick_rows(mid) is Some {
                        assert(df@[a].0 == mid[a].0);
                        assert(df@[b].0 == mid[b].0);
                    }
                }
            }
        }
    }
    let df_per_player = combine_per_player(pers);
    let ghost events0 = game_events@;
    add_item_purchase_sell_column(&mut game_events);
    let ghost marked = game_events@;
    remove_item_sold_events(&mut game_events);
    let FirstPassSummary { prop_controller, header, wanted_ticks, added_temp_props } = first;
    let mut pc = prop_controller;
    remove_temp_props(&mut pc, &added_temp_props);
    let r = DemoOutput {
        prop_controller: pc,
        item_drops,
        player_md,
        game_events,
        skins,
        df,
        header: Some(header),
        game_events_counter: counter,
        projectiles,
        voice_data,
        df_per_player,
    };
    proof {
        assert(marked.len() == events0.len());
        assert(events_done(events0, r.game_events@));
        if wanted_ticks@.len() > 0 {
            assert(keys_unique(mid) && cols_map(mid) == combined(dfs_of(s)) && r.df@.len() == mid.len());
        }
        assert(combined_output(r, s, first));
    }
    r
}

} // verus!
