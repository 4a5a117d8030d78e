use vstd::prelude::*;
use std::collections::HashMap;
use crate::player_info::{UserInfo, spec_user_info, user_view};
use crate::stringtables::{StringTableStore, players_map, baselines_map};
use crate::strings::{chars_of, str_eq};

verus! {

broadcast use vstd::std_specs::hash::group_hash_axioms;

/// One entry of a table in a full packet: its key and its data, either of
/// which may be missing.
#[derive(Debug)]
pub struct TableItem {
    pub str: Option<String>,
    pub data: Option<Vec<u8>>,
}

/// A string table as a full packet holds it.
#[derive(Debug)]
pub struct FullPacketTable {
    pub table_name: Option<String>,
    pub items: Vec<TableItem>,
}

/// The packet a full packet carries: its message bytes, if any.
#[derive(Debug)]
pub struct PacketMsg {
    pub data: Option<Vec<u8>>,
}

/// A full packet: a snapshot of the string tables and the packet of the tick.
#[derive(Debug)]
pub struct FullPacketMsg {
    pub string_table: Option<Vec<FullPacketTable>>,
    pub packet: Option<PacketMsg>,
}

/// The value of a decimal digit.
pub open spec fn digit_value(c: char) -> int {
    c as int - '0' as int
}

/// All characters are decimal digits, and there is at least one.
pub open spec fn all_digits(d: Seq<char>) -> bool {
    d.len() > 0 && forall|i: int| 0 <= i < d.len() ==> '0' <= #[trigger] d[i] <= '9'
}

/// The number that decimal digits `d` write.
pub open spec fn digits_value(d: Seq<char>) -> int
    decreases d.len(),
{
    if d.len() == 0 { 0 } else { digits_value(d.drop_last()) * 10 + digit_value(d.last()) }
}

/// What reading `s` as an unsigned 32-bit number gives: an optional `+`,
/// then decimal digits whose number fits.
pub open spec fn parsed_u32(s: Seq<char>) -> Option<u32> {
    let d = if s.len() > 0 && s[0] == '+' { s.drop_first() } else { s };
    if all_digits(d) && digits_value(d) <= u32::MAX { Some(digits_value(d) as u32) } else { None }
}

/// The key of a baseline entry: its text as a number, or the largest
/// number where it is not one.
pub open spec fn baseline_key(s: Seq<char>) -> u32 {
    match parsed_u32(s) {
        Some(k) => k,
        None => u32::MAX,
    }
}

/// A number of digits is no less than that of any of its prefixes.
proof fn lemma_digits_grow(d: Seq<char>, k: int)
    requires
        0 <= k <= d.len(),
        forall|i: int| 0 <= i < d.len() ==> '0' <= #[trigger] d[i] <= '9',
    ensures
        digits_value(d.take(k)) <= digits_value(d),
        0 <= digits_value(d),
    decreases d.len(),
{
    if d.len() > 0 {
        if k == d.len() {
            assert(d.take(k) =~= d);
            lemma_digits_grow(d.drop_last(), 0);
        } else {
            lemma_digits_grow(d.drop_last(), k);
            assert(d.drop_last().take(k) =~= d.take(k));
        }
    } else {
        assert(d.take(k) =~= d);
    }
}

/// Reads `s` as an unsigned 32-bit number, as `parsed_u32` says.
pub fn parse_u32(s: &str) -> (r: Option<u32>)
    ensures
        r == parsed_u32(s@),
{
    let cs = chars_of(s);
    let start: usize = if cs.len() > 0 && cs[0] == '+' { 1 } else { 0 };
    let ghost d = if s@.len() > 0 && s@[0] == '+' { s@.drop_first() } else { s@ };
    assert(d =~= cs@.skip(start as int));
    if start >= cs.len() {
        return None;
    }
    let mut acc: u64 = 0;
    let mut i: usize = start;
    while i < cs.len()
        invariant
            start <= i <= cs@.len(),
            start < cs@.len(),
            cs@ == s@,
            d == (if s@.len() > 0 && s@[0] == '+' { s@.drop_first() } else { s@ }),
            d == cs@.skip(start as int),
            forall|j: int| 0 <= j < i - start ==> '0' <= #[trigger] d[j] <= '9',
            acc == digits_value(d.take(i - start)),
            acc <= u32::MAX,
        decreases cs@.len() - i,
    {
        let c = cs[i];
        assert(c == d[i - start]);
        if !('0' <= c && c <= '9') {
            assert(!('0' <= d[i - start] <= '9'));
            assert(!all_digits(d));
            return None;
        }
        let v: u64 = (c as u32 - '0' as u32) as u64;
        assert(d.take(i - start + 1).drop_last() =~= d.take(i - start));
        assert(d.take(i - start + 1).last() == c);
        let next = acc * 10 + v;
        assert(v == digit_value(c));
        assert(digits_value(d.take(i - start + 1)) == next);
        if next > 4294967295u64 {
            proof {
                if all_digits(d) {
                    lemma_digits_grow(d, i - start + 1);
                    assert(digits_value(d) > u32::MAX);
                }
            }
            return None;
        }
        acc = next;
        i += 1;
    }
    assert(d.take(i - start) =~= d);
    Some(acc as u32)
}

/// The key of a table in a full packet.
pub open spec fn table_name_of(t: FullPacketTable) -> Seq<char> {
    match t.table_name {
        Some(n) => n@,
        None => Seq::empty(),
    }
}

/// The key text of an entry, empty where missing.
pub open spec fn item_key(i: TableItem) -> Seq<char> {
    match i.str {
        Some(s) => s@,
        None => Seq::empty(),
    }
}

/// The data of an entry, empty where missing.
pub open spec fn item_data(i: TableItem) -> Seq<u8> {
    match i.data {
        Some(d) => d@,
        None => Seq::empty(),
    }
}

/// The baselines that entries `items` give, in order.
pub open spec fn item_baselines(items: Seq<TableItem>) -> Seq<(u32, Seq<u8>)> {
    items.map_values(|i: TableItem| (baseline_key(item_key(i)), item_data(i)))
}

/// The players that entries `items` give, in order: those that read as a
/// player with a steam id.
pub open spec fn item_players(items: Seq<TableItem>) -> Seq<(u64, Seq<char>, i32, bool)>
    decreases items.len(),
{
    if items.len() == 0 {
        Seq::empty()
    } else {
        let rest = item_players(items.drop_last());
        match spec_user_info(item_data(items.last())) {
            Some(v) => if v.0 != 0 { rest.push(v) } else { rest },
            None => rest,
        }
    }
}

/// The baselines the tables of a full packet give, table by table: only
/// the `instancebaseline` table gives any.
pub open spec fn packet_baselines(tables: Seq<FullPacketTable>) -> Seq<(u32, Seq<u8>)>
    decreases tables.len(),
{
    if tables.len() == 0 {
        Seq::empty()
    } else {
        packet_baselines(tables.drop_last()) + if table_name_of(tables.last()) == "instancebaseline"@ {
            item_baselines(tables.last().items@)
        } else {
            Seq::empty()
        }
    }
}

/// The players the tables of a full packet give, table by table: only the
/// `userinfo` table gives any.
pub open spec fn packet_players(tables: Seq<FullPacketTable>) -> Seq<(u64, Seq<char>, i32, bool)>
    decreases tables.len(),
{
    if tables.len() == 0 {
        Seq::empty()
    } else {
        packet_players(tables.drop_last()) + if table_name_of(tables.last()) == "userinfo"@ {
            item_players(tables.last().items@)
        } else {
            Seq::empty()
        }
    }
}

/// The tables of a full packet, none where it has none.
pub open spec fn packet_tables(p: FullPacketMsg) -> Seq<FullPacketTable> {
    match p.string_table {
        Some(t) => t@,
        None => Seq::empty(),
    }
}

/// Map `m` with the players `s` put in by user id, in order.
pub open spec fn with_players(m: Map<i32, (u64, Seq<char>, i32, bool)>, s: Seq<(u64, Seq<char>, i32, bool)>)
    -> Map<i32, (u64, Seq<char>, i32, bool)>
    decreases s.len(),
{
    if s.len() == 0 { m } else { with_players(m, s.drop_last()).insert(s.last().2, s.last()) }
}

/// Map `m` with the baselines `s` put in by class id, in order.
pub open spec fn with_baselines(m: Map<u32, Seq<u8>>, s: Seq<(u32, Seq<u8>)>) -> Map<u32, Seq<u8>>
    decreases s.len(),
{
    if s.len() == 0 { m } else { with_baselines(m, s.drop_last()).insert(s.last().0, s.last().1) }
}

/// Putting in `a` and then `b` is putting in `a + b`.
proof fn lemma_with_players_concat(m: Map<i32, (u64, Seq<char>, i32, bool)>, a: Seq<(u64, Seq<char>, i32, bool)>,
    b: Seq<(u64, Seq<char>, i32, bool)>)
    ensures
        with_players(with_players(m, a), b) == with_players(m, a + b),
    decreases b.len(),
{
    if b.len() == 0 {
        assert(a + b =~= a);
    } else {
        lemma_with_players_concat(m, a, b.drop_last());
        assert((a + b).drop_last() =~= a + b.drop_last());
    }
}

/// Putting in `a` and then `b` is putting in `a + b`.
proof fn lemma_with_baselines_concat(m: Map<u32, Seq<u8>>, a: Seq<(u32, Seq<u8>)>, b: Seq<(u32, Seq<u8>)>)
    ensures
        with_baselines(with_baselines(m, a), b) == with_baselines(m, a + b),
    decreases b.len(),
{
    if b.len() == 0 {
        assert(a + b =~= a);
    } else {
        lemma_with_baselines_concat(m, a, b.drop_last());
        assert((a + b).drop_last() =~= a + b.drop_last());
    }
}

/// The bytes of an entry.
fn data_bytes(i: &TableItem) -> (r: &[u8])
    ensures
        r@ == item_data(*i),
{
    match &i.data {
        Some(d) => d.as_slice(),
        None => &[],
    }
}

/// The key text of an entry.
fn key_text(i: &TableItem) -> (r: &str)
    ensures
        r@ == item_key(*i),
{
    match &i.str {
        Some(s) => s.as_str(),
        None => {
            proof {
                reveal_strlit("");
            }
            ""
        },
    }
}

/// A copy of some bytes.
fn copy_bytes(b: &[u8]) -> (r: Vec<u8>)
    ensures
        r@ == b@,
{
    let mut v: Vec<u8> = Vec::new();
    let mut k: usize = 0;
    while k < b.len()
        invariant
            k <= b@.len(),
            v@ == b@.take(k as int),
        decreases b@.len() - k,
    {
        v.push(b[k]);
        k += 1;
        assert(v@ =~= b@.take(k as int));
    }
    assert(b@.take(k as int) =~= b@);
    v
}

impl StringTableStore {
    /// Keeps the baselines that entries `items` give.
    fn keep_baselines(&mut self, items: &Vec<TableItem>)
        ensures
            baselines_map(final(self).baselines@) == with_baselines(baselines_map(old(self).baselines@), item_baselines(items@)),
            final(self).stringtable_players@ == old(self).stringtable_players@,
            final(self).string_tables@ == old(self).string_tables@,
    {
        let ghost m0 = baselines_map(self.baselines@);
        let mut k: usize = 0;
        assert(item_baselines(items@).take(0) =~= Seq::<(u32, Seq<u8>)>::empty());
        while k < items.len()
            invariant
                k <= items@.len(),
                m0 == baselines_map(old(self).baselines@),
                baselines_map(self.baselines@) == with_baselines(m0, item_baselines(items@).take(k as int)),
                self.stringtable_players@ == old(self).stringtable_players@,
                self.string_tables@ == old(self).string_tables@,
            decreases items@.len() - k,
        {
            let item = &items[k];
            let key = match parse_u32(key_text(item)) {
                Some(x) => x,
                None => u32::MAX,
            };
            let data = copy_bytes(data_bytes(item));
            let ghost before = self.baselines@;
            self.baselines.insert(key, data);
            proof {
                let s = item_baselines(items@);
                assert(s.take(k + 1).drop_last() =~= s.take(k as int));
                assert(s.take(k + 1).last() == (key, data@));
                assert(baselines_map(self.baselines@) =~= baselines_map(before).insert(key, data@));
            }
            k += 1;
        }
        assert(item_baselines(items@).take(k as int) =~= item_baselines(items@));
    }

    /// Keeps the players that entries `items` give.
    fn keep_players(&mut self, items: &Vec<TableItem>)
        ensures
            players_map(final(self).stringtable_players@) == with_players(players_map(old(self).stringtable_players@), item_players(items@)),
            final(self).baselines@ == old(self).baselines@,
            final(self).string_tables@ == old(self).string_tables@,
    {
        let ghost m0 = players_map(self.stringtable_players@);
        let mut k: usize = 0;
        assert(items@.take(0) =~= Seq::<TableItem>::empty());
        while k < items.len()
            invariant
                k <= items@.len(),
                m0 == players_map(old(self).stringtable_players@),
                players_map(self.stringtable_players@) == with_players(m0, item_players(items@.take(k as int))),
                self.baselines@ == old(self).baselines@,
                self.string_tables@ == old(self).string_tables@,
            decreases items@.len() - k,
        {
            let item = &items[k];
            assert(items@.take(k + 1).drop_last() =~= items@.take(k as int));
            assert(items@.take(k + 1).last() == *item);
            let ghost prev = item_players(items@.take(k as int));
            let ghost next = item_players(items@.take(k + 1));
            let bytes = data_bytes(item);
            match UserInfo::from_bytes(bytes) {
                Ok(player) => {
                    if player.steamid != 0 {
                        let ghost before = self.stringtable_players@;
                        let ghost pv = user_view(player);
                        assert(next == prev.push(pv));
                        assert(next.drop_last() =~= prev);
                        self.stringtable_players.insert(player.userid, player);
                        assert(players_map(self.stringtable_players@) =~= players_map(before).insert(pv.2, pv));
                    } else {
                        assert(next == prev);
                    }
                },
                Err(_) => {
                    assert(next == prev);
                },
            }
            k += 1;
        }
        assert(items@.take(k as int) =~= items@);
    }

    /// Keeps what the string tables of a full packet give: the baselines of
    /// its `instancebaseline` table, keyed by their key read as a number
    /// (the largest number where it is not one), and the players of its
    /// `userinfo` table that have a steam id; a later entry replaces an
    /// earlier one of the same key.
    pub fn parse_full_packet_stringtables(&mut self, full_packet: &FullPacketMsg)
        ensures
            baselines_map(final(self).baselines@) == with_baselines(baselines_map(old(self).baselines@),
                packet_baselines(packet_tables(*full_packet))),
            players_map(final(self).stringtable_players@) == with_players(players_map(old(self).stringtable_players@),
                packet_players(packet_tables(*full_packet))),
            final(self).string_tables@ == old(self).string_tables@,
    {
        let tables = match &full_packet.string_table {
            Some(t) => t,
            None => return,
        };
        let ghost b0 = baselines_map(self.baselines@);
        let ghost p0 = players_map(self.stringtable_players@);
        let mut k: usize = 0;
        assert(tables@.take(0) =~= Seq::<FullPacketTable>::empty());
        while k < tables.len()
            invariant
                k <= tables@.len(),
                tables@ == packet_tables(*full_packet),
                b0 == baselines_map(old(self).baselines@),
                p0 == players_map(old(self).stringtable_players@),
                baselines_map(self.baselines@) == with_baselines(b0, packet_baselines(tables@.take(k as int))),
                players_map(self.stringtable_players@) == with_players(p0, packet_players(tables@.take(k as int))),
                self.string_tables@ == old(self).string_tables@,
            decreases tables@.len() - k,
        {
            let table = &tables[k];
            let ghost tk = tables@.take(k + 1);
            assert(tk.drop_last() =~= tables@.take(k as int));
            assert(tk.last() == *table);
            let name: &str = match &table.table_name {
                Some(n) => n.as_str(),
                None => {
                    proof {
                        reveal_strlit("");
                    }
                    ""
                },
            };
            assert(name@ == table_name_of(*table));
            let ghost pb = packet_baselines(tables@.take(k as int));
            let ghost pp = packet_players(tables@.take(k as int));
            if str_eq(name, "instancebaseline") {
                self.keep_baselines(&table.items);
                proof {
                    lemma_with_baselines_concat(b0, pb, item_baselines(table.items@));
                    reveal_strlit("userinfo");
                    reveal_strlit("instancebaseline");
                    assert("userinfo"@ != "instancebaseline"@) by {
                        assert("userinfo"@[0] != "instancebaseline"@[0]);
                    }
                    assert(packet_players(tk) =~= pp);
                }
            } else if str_eq(name, "userinfo") {
                self.keep_players(&table.items);
                proof {
                    lemma_with_players_concat(p0, pp, item_players(table.items@));
                    assert(packet_baselines(tk) =~= pb);
                }
            } else {
                proof {
                    assert(packet_baselines(tk) =~= pb);
                    assert(packet_players(tk) =~= pp);
                }
            }
            k += 1;
        }
        assert(tables@.take(k as int) =~= tables@);
    }
}

/// Reads a full packet in the first pass: the packet is kept under the
/// frame's position `starts_at`, then the string tables are kept as
/// `parse_full_packet_stringtables` says.
pub fn parse_full_packet(store: &mut StringTableStore, fullpackets: &mut HashMap<usize, Option<PacketMsg>>,
    full_packet: FullPacketMsg, starts_at: usize)
    ensures
        final(fullpackets)@ == old(fullpackets)@.insert(starts_at, full_packet.packet),
        baselines_map(final(store).baselines@) == with_baselines(baselines_map(old(store).baselines@),
            packet_baselines(packet_tables(full_packet))),
        players_map(final(store).stringtable_players@) == with_players(players_map(old(store).stringtable_players@),
            packet_players(packet_tables(full_packet))),
        final(store).string_tables@ == old(store).string_tables@,
{
    store.parse_full_packet_stringtables(&full_packet);
    let FullPacketMsg { string_table, packet } = full_packet;
    fullpackets.insert(starts_at, packet);
}

} // verus!
