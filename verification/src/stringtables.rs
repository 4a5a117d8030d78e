use vstd::prelude::*;
use vstd::utf8::{encode_utf8, decode_utf8, is_char_boundary};
use vstd::string::StringSliceAdditionalSpecFns;
use crate::error::DemoParserError;
use crate::bitreader::{
    Bitreader, spec_flag, spec_bit_varint, spec_nbits, spec_u_bit_var, spec_cstring, bytes_at, utf8_lossy,
};
use crate::compression::{snappy_len, snappy_decompress, snap_decompress_vec};
use crate::player_info::{UserInfo, spec_user_info, user_view};
use crate::numtext::{parse_u32, spec_parse_u32};
use crate::strings::{concat_str, str_eq};
use std::collections::HashMap;

verus! {

broadcast use {vstd::utf8::encode_utf8_decode_utf8, vstd::std_specs::hash::group_hash_axioms};

/// A string table: its name, how its entries hold their values, and the
/// entries read for it.
#[derive(Debug)]
pub struct StringTable {
    pub name: String,
    pub user_data_size: i32,
    pub user_data_fixed: bool,
    pub data: Vec<StringTableEntry>,
    pub flags: i32,
    pub var_bit_counts: bool,
}

/// One entry of a string table: its index, key and value.
#[derive(Debug)]
pub struct StringTableEntry {
    pub idx: i32,
    pub key: String,
    pub value: Vec<u8>,
}

/// How the entries of a table are read, and what the table is.
#[derive(Debug, Clone, Copy, PartialEq, Eq, Structural)]
pub struct TableLayout {
    pub user_data_fixed: bool,
    pub user_data_size: i32,
    pub flags: i32,
    pub variant_bit_count: bool,
    pub is_userinfo: bool,
    pub is_baseline: bool,
}

/// What reading one entry gives.
pub enum EntryStep {
    /// Reading failed; `None` is a value longer than the bytes left.
    Fail(Option<DemoParserError>),
    /// The entry has no key: only the index moves.
    NoKey { pos: int, idx: i32 },
    /// An entry with its key and value.
    Entry { pos: int, idx: i32, key: Seq<char>, value: Seq<u8> },
}

/// The index of the next entry: one more, or one more than a varint more.
pub open spec fn step_index(d: Seq<u8>, p: int, idx: i32) -> Result<(i32, int), DemoParserError> {
    match spec_flag(d, p) {
        Err(e) => Err(e),
        Ok((next, p1)) => if next {
            Ok((idx.wrapping_add(1), p1))
        } else {
            match spec_bit_varint(d, p1) {
                Err(e) => Err(e),
                Ok((x, p2)) => Ok((idx.wrapping_add(x.wrapping_add(1) as i32), p2)),
            }
        },
    }
}

/// The first `l` bytes of key `s`, where `l` is at most its length.
pub open spec fn key_prefix(s: Seq<char>, l: int) -> Seq<char> {
    decode_utf8(encode_utf8(s).take(l))
}

/// The number of bytes of history that a key takes: the length read, at
/// most the remembered key's length in bytes.
pub open spec fn prefix_len(s: Seq<char>, length: u32) -> int {
    let blen = (encode_utf8(s).len() as usize) as int;
    if (length as int) < blen { length as int } else { blen }
}

/// The size in bytes of an entry's value, and the position after it.
pub open spec fn value_size(d: Seq<u8>, p: int, lay: TableLayout) -> Result<(u32, int), DemoParserError> {
    if lay.user_data_fixed {
        Ok(((lay.user_data_size as u32) / 8, p))
    } else if lay.variant_bit_count {
        match spec_u_bit_var(d, p) {
            Err(e) => Err(e),
            Ok((x, q)) => Ok((x.wrapping_mul(8) / 8, q)),
        }
    } else {
        match spec_nbits(d, p, 17) {
            Err(e) => Err(e),
            Ok((x, q)) => Ok((x.wrapping_mul(8) / 8, q)),
        }
    }
}

/// What snap makes of a compressed value, `None` where it fails.
pub open spec fn snappy_vec(b: Seq<u8>) -> Option<Seq<u8>> {
    match snappy_len(b) {
        Err(_) => None,
        Ok(_) => match snappy_decompress(b) {
            Ok(v) => Some(v),
            Err(_) => None,
        },
    }
}

/// The value of an entry at bit `p`: a flag says whether there is one; a
/// value may be compressed (a flag, in tables whose sizes vary and whose
/// flags ask for it), and its size is fixed or read before it.
pub open spec fn entry_value(d: Seq<u8>, p: int, lay: TableLayout) -> Result<(Seq<u8>, int), Option<DemoParserError>> {
    match spec_flag(d, p) {
        Err(e) => Err(Some(e)),
        Ok((has_value, p1)) => if !has_value {
            Ok((Seq::empty(), p1))
        } else {
            let comp = if !lay.user_data_fixed && (lay.flags & 1) != 0 {
                spec_flag(d, p1)
            } else {
                Ok((false, p1))
            };
            match comp {
                Err(e) => Err(Some(e)),
                Ok((compressed, p2)) => match value_size(d, p2, lay) {
                    Err(e) => Err(Some(e)),
                    Ok((n, p3)) => if p3 + 8 * (n as usize) > 8 * d.len() {
                        Err(None)
                    } else {
                        let raw = bytes_at(d, p3, (n as usize) as nat);
                        let end = p3 + 8 * (n as usize);
                        if compressed {
                            match snappy_vec(raw) {
                                Some(v) => Ok((v, end)),
                                None => Err(Some(DemoParserError::MalformedMessage)),
                            }
                        } else {
                            Ok((raw, end))
                        }
                    },
                },
            }
        },
    }
}

/// The history of keys after `key` is read: the 32 latest.
pub open spec fn keys_after(keys: Seq<Seq<char>>, key: Seq<char>) -> Seq<Seq<char>> {
    (if keys.len() >= 32 { keys.drop_first() } else { keys }).push(key)
}

/// The key at bit `p`, given the key history: a flag says whether it
/// starts with a prefix of a remembered key, whose position and length come
/// in five bits each; then a zero-terminated string. A prefix that ends
/// inside a character makes the message malformed.
pub open spec fn spec_key(d: Seq<u8>, p: int, keys: Seq<Seq<char>>) -> Result<(Seq<char>, int), Option<DemoParserError>> {
    match spec_flag(d, p) {
        Err(e) => Err(Some(e)),
        Ok((from_history, p3)) => if from_history {
            match spec_nbits(d, p3, 5) {
                Err(e) => Err(Some(e)),
                Ok((position, p4)) => match spec_nbits(d, p4, 5) {
                    Err(e) => Err(Some(e)),
                    Ok((length, p5)) => if position as int >= keys.len() {
                        match spec_cstring(d, p5) {
                            Err(e) => Err(Some(e)),
                            Ok((kb, p6)) => Ok((utf8_lossy(kb), p6)),
                        }
                    } else {
                        let s = keys[position as int];
                        let l = prefix_len(s, length);
                        if !is_char_boundary(encode_utf8(s), l) {
                            Err(Some(DemoParserError::MalformedMessage))
                        } else {
                            match spec_cstring(d, p5) {
                                Err(e) => Err(Some(e)),
                                Ok((kb, p6)) => Ok((key_prefix(s, l) + utf8_lossy(kb), p6)),
                            }
                        }
                    },
                },
            }
        } else {
            match spec_cstring(d, p3) {
                Err(e) => Err(Some(e)),
                Ok((kb, p6)) => Ok((utf8_lossy(kb), p6)),
            }
        },
    }
}

/// Reading one entry at bit `p`, after index `idx` and with key history
/// `keys`: the index step, a flag for whether it has a key, the key, and
/// the value.
#[verifier::opaque]
pub open spec fn spec_entry(d: Seq<u8>, p: int, idx: i32, keys: Seq<Seq<char>>, lay: TableLayout) -> EntryStep {
    match step_index(d, p, idx) {
        Err(e) => EntryStep::Fail(Some(e)),
        Ok((idx1, p1)) => match spec_flag(d, p1) {
            Err(e) => EntryStep::Fail(Some(e)),
            Ok((has_key, p2)) => if !has_key {
                EntryStep::NoKey { pos: p2, idx: idx1 }
            } else {
                match spec_key(d, p2, keys) {
                    Err(e) => EntryStep::Fail(e),
                    Ok((key, p6)) => match entry_value(d, p6, lay) {
                        Err(e) => EntryStep::Fail(e),
                        Ok((value, p7)) => EntryStep::Entry { pos: p7, idx: idx1, key, value },
                    },
                }
            }
        },
    }
}

/// What reading a table's entries gives: the entries, the players and the
/// baselines found; or a failure with the players and baselines found
/// before it.
pub enum TableRun {
    Done(Seq<(i32, Seq<char>, Seq<u8>)>, Seq<(u64, Seq<char>, i32, bool)>, Seq<(u32, Seq<u8>)>),
    Failed(Option<DemoParserError>, Seq<(u64, Seq<char>, i32, bool)>, Seq<(u32, Seq<u8>)>),
}

/// The player an entry of the `userinfo` table adds: one whose value reads
/// as a player with a steam id.
pub open spec fn entry_players(value: Seq<u8>, lay: TableLayout) -> Seq<(u64, Seq<char>, i32, bool)> {
    if lay.is_userinfo {
        match spec_user_info(value) {
            Some(u) => if u.0 != 0 { seq![u] } else { Seq::empty() },
            None => Seq::empty(),
        }
    } else {
        Seq::empty()
    }
}

/// The baseline an entry of the `instancebaseline` table adds: its key is
/// the class id.
pub open spec fn entry_baselines(key: Seq<char>, value: Seq<u8>, lay: TableLayout) -> Seq<(u32, Seq<u8>)> {
    if !lay.is_userinfo && lay.is_baseline {
        match spec_parse_u32(key) {
            Some(c) => seq![(c, value)],
            None => Seq::empty(),
        }
    } else {
        Seq::empty()
    }
}

/// Puts what one entry gives in front of what the rest gives.
pub open spec fn prepend(
    es: Seq<(i32, Seq<char>, Seq<u8>)>,
    ps: Seq<(u64, Seq<char>, i32, bool)>,
    bs: Seq<(u32, Seq<u8>)>,
    run: TableRun,
) -> TableRun {
    match run {
        TableRun::Done(e, p, b) => TableRun::Done(es + e, ps + p, bs + b),
        TableRun::Failed(x, p, b) => TableRun::Failed(x, ps + p, bs + b),
    }
}

/// Reading `k` entries from bit `p`.
pub open spec fn spec_table(d: Seq<u8>, p: int, k: nat, idx: i32, keys: Seq<Seq<char>>, lay: TableLayout) -> TableRun
    decreases k,
{
    if k == 0 {
        TableRun::Done(Seq::empty(), Seq::empty(), Seq::empty())
    } else {
        match spec_entry(d, p, idx, keys, lay) {
            EntryStep::Fail(e) => TableRun::Failed(e, Seq::empty(), Seq::empty()),
            EntryStep::NoKey { pos, idx } => spec_table(d, pos, (k - 1) as nat, idx, keys, lay),
            EntryStep::Entry { pos, idx: i2, key, value } => prepend(
                seq![(i2, key, value)],
                entry_players(value, lay),
                entry_baselines(key, value, lay),
                spec_table(d, pos, (k - 1) as nat, i2, keys_after(keys, key), lay),
            ),
        }
    }
}

/// Entries as tuples of index, key and value.
pub open spec fn entries_view(s: Seq<StringTableEntry>) -> Seq<(i32, Seq<char>, Seq<u8>)> {
    s.map_values(|e: StringTableEntry| (e.idx, e.key@, e.value@))
}

/// Players as tuples.
pub open spec fn players_view(s: Seq<UserInfo>) -> Seq<(u64, Seq<char>, i32, bool)> {
    s.map_values(|u: UserInfo| user_view(u))
}

/// Baselines as class ids and bytes.
pub open spec fn baselines_view(s: Seq<(u32, Vec<u8>)>) -> Seq<(u32, Seq<u8>)> {
    s.map_values(|b: (u32, Vec<u8>)| (b.0, b.1@))
}

/// What parsing a table gave: the players and baselines found, in order,
/// and the table, or the error that stopped it.
#[derive(Debug)]
pub struct TableOutcome {
    pub players: Vec<UserInfo>,
    pub baselines: Vec<(u32, Vec<u8>)>,
    pub table: Result<StringTable, DemoParserError>,
}

/// One entry as read.
#[derive(Debug)]
pub enum EntryRead {
    /// No key: only the new index.
    NoKey(i32),
    /// Index, key and value.
    Entry(i32, String, Vec<u8>),
}

/// The texts of the remembered keys.
pub open spec fn keys_view(s: Seq<String>) -> Seq<Seq<char>> {
    s.map_values(|k: String| k@)
}

/// Reads the size of a value, as `value_size` says.
fn read_value_size(br: &mut Bitreader, lay: TableLayout) -> (r: Result<u32, DemoParserError>)
    requires
        old(br).wf(),
    ensures
        final(br).wf(),
        final(br).data() == old(br).data(),
        match value_size(old(br).data(), old(br).pos(), lay) {
            Ok((n, q)) => r == Ok::<u32, DemoParserError>(n) && final(br).pos() == q,
            Err(e) => r == Err::<u32, DemoParserError>(e),
        },
{
    if lay.user_data_fixed {
        Ok((lay.user_data_size as u32) / 8)
    } else if lay.variant_bit_count {
        let x = br.read_u_bit_var()?;
        Ok(x.wrapping_mul(8) / 8)
    } else {
        let x = br.read_bits_checked(17)?;
        Ok(x.wrapping_mul(8) / 8)
    }
}

/// Reads the value of an entry, as `entry_value` says.
fn read_entry_value(br: &mut Bitreader, lay: TableLayout) -> (r: Result<Vec<u8>, DemoParserError>)
    requires
        old(br).wf(),
    ensures
        final(br).wf(),
        final(br).data() == old(br).data(),
        match entry_value(old(br).data(), old(br).pos(), lay) {
            Ok((v, q)) => r matches Ok(x) && x@ == v && final(br).pos() == q,
            Err(Some(e)) => r == Err::<Vec<u8>, DemoParserError>(e),
            Err(None) => r matches Err(DemoParserError::FailedByteRead(_)),
        },
{
    let has_value = br.read_boolean()?;
    if !has_value {
        return Ok(Vec::new());
    }
    let compressed = if !lay.user_data_fixed && (lay.flags & 1) != 0 {
        br.read_boolean()?
    } else {
        false
    };
    let n = read_value_size(br, lay)?;
    let value = br.read_n_bytes(n as usize)?;
    if compressed {
        match snap_decompress_vec(value.as_slice()) {
            Ok(v) => Ok(v),
            Err(_) => Err(DemoParserError::MalformedMessage),
        }
    } else {
        Ok(value)
    }
}

/// Reads the index step, as `step_index` says.
fn read_index(br: &mut Bitreader, idx: i32) -> (r: Result<i32, DemoParserError>)
    requires
        old(br).wf(),
    ensures
        final(br).wf(),
        final(br).data() == old(br).data(),
        match step_index(old(br).data(), old(br).pos(), idx) {
            Ok((i, q)) => r == Ok::<i32, DemoParserError>(i) && final(br).pos() == q,
            Err(e) => r == Err::<i32, DemoParserError>(e),
        },
{
    let next = br.read_boolean()?;
    if next {
        Ok(idx.wrapping_add(1))
    } else {
        let x = br.read_varint()?;
        Ok(idx.wrapping_add(x.wrapping_add(1) as i32))
    }
}

/// Reads a key, as `spec_key` says.
fn read_key(br: &mut Bitreader, keys: &Vec<String>) -> (r: Result<String, DemoParserError>)
    requires
        old(br).wf(),
    ensures
        final(br).wf(),
        final(br).data() == old(br).data(),
        match spec_key(old(br).data(), old(br).pos(), keys_view(keys@)) {
            Ok((k, q)) => r matches Ok(x) && x@ == k && final(br).pos() == q,
            Err(Some(e)) => r == Err::<String, DemoParserError>(e),
            Err(None) => false,
        },
{
    let ghost d = br.data();
    let ghost p0 = br.pos();
    let from_history = br.read_boolean()?;
    if from_history {
        let position32 = br.read_bits_checked(5)?;
        let length32 = br.read_bits_checked(5)?;
        let position = position32 as usize;
        let length = length32 as usize;
        if position >= keys.len() {
            br.read_string()
        } else {
            let s = keys[position].as_str();
            proof {
                assert(keys_view(keys@)[position as int] == s@);
            }
            let blen = s.len();
            let l = if length < blen { length } else { blen };
            assert(l as int == prefix_len(s@, length32));
            if !s.is_char_boundary(l) {
                assert(spec_key(d, p0, keys_view(keys@)) == Err::<(Seq<char>, int), Option<DemoParserError>>(Some(DemoParserError::MalformedMessage)));
                return Err(DemoParserError::MalformedMessage);
            }
            let (pre, _) = s.split_at(l);
            let tail = br.read_string()?;
            proof {
                assert(pre@ == decode_utf8(encode_utf8(pre@)));
                assert(pre.spec_bytes() == encode_utf8(pre@));
                assert(encode_utf8(s@).take(l as int) =~= encode_utf8(s@).subrange(0, l as int));
                assert(pre@ == key_prefix(s@, l as int));
            }
            Ok(concat_str(pre, tail.as_str()))
        }
    } else {
        br.read_string()
    }
}

/// Reads one entry, as `spec_entry` says.
pub fn read_entry(br: &mut Bitreader, idx: i32, keys: &Vec<String>, lay: TableLayout) -> (r: Result<EntryRead, DemoParserError>)
    requires
        old(br).wf(),
    ensures
        final(br).wf(),
        final(br).data() == old(br).data(),
        match spec_entry(old(br).data(), old(br).pos(), idx, keys_view(keys@), lay) {
            EntryStep::Fail(Some(e)) => r == Err::<EntryRead, DemoParserError>(e),
            EntryStep::Fail(None) => r matches Err(DemoParserError::FailedByteRead(_)),
            EntryStep::NoKey { pos, idx } => r matches Ok(EntryRead::NoKey(i)) && i == idx && final(br).pos() == pos,
            EntryStep::Entry { pos, idx, key, value } => r matches Ok(EntryRead::Entry(i, k, v))
                && i == idx && k@ == key && v@ == value && final(br).pos() == pos,
        },
{
    reveal(spec_entry);
    let idx1 = read_index(br, idx)?;
    let has_key = br.read_boolean()?;
    if !has_key {
        return Ok(EntryRead::NoKey(idx1));
    }
    let key = read_key(br, keys)?;
    let value = read_entry_value(br, lay)?;
    Ok(EntryRead::Entry(idx1, key, value))
}

/// Putting two things in front is putting them together in front.
proof fn lemma_prepend_twice(
    es1: Seq<(i32, Seq<char>, Seq<u8>)>,
    ps1: Seq<(u64, Seq<char>, i32, bool)>,
    bs1: Seq<(u32, Seq<u8>)>,
    es2: Seq<(i32, Seq<char>, Seq<u8>)>,
    ps2: Seq<(u64, Seq<char>, i32, bool)>,
    bs2: Seq<(u32, Seq<u8>)>,
    run: TableRun,
)
    ensures
        prepend(es1, ps1, bs1, prepend(es2, ps2, bs2, run)) == prepend(es1 + es2, ps1 + ps2, bs1 + bs2, run),
{
    match run {
        TableRun::Done(e, p, b) => {
            assert(es1 + (es2 + e) =~= (es1 + es2) + e);
            assert(ps1 + (ps2 + p) =~= (ps1 + ps2) + p);
            assert(bs1 + (bs2 + b) =~= (bs1 + bs2) + b);
        },
        TableRun::Failed(x, p, b) => {
            assert(ps1 + (ps2 + p) =~= (ps1 + ps2) + p);
            assert(bs1 + (bs2 + b) =~= (bs1 + bs2) + b);
        },
    }
}

/// Putting nothing in front changes nothing.
proof fn lemma_prepend_nothing(run: TableRun)
    ensures
        prepend(Seq::empty(), Seq::empty(), Seq::empty(), run) == run,
{
    match run {
        TableRun::Done(e, p, b) => {
            assert(Seq::<(i32, Seq<char>, Seq<u8>)>::empty() + e =~= e);
            assert(Seq::<(u64, Seq<char>, i32, bool)>::empty() + p =~= p);
            assert(Seq::<(u32, Seq<u8>)>::empty() + b =~= b);
        },
        TableRun::Failed(x, p, b) => {
            assert(Seq::<(u64, Seq<char>, i32, bool)>::empty() + p =~= p);
            assert(Seq::<(u32, Seq<u8>)>::empty() + b =~= b);
        },
    }
}

/// The accumulated output of a table read.
pub struct TableAcc {
    pub keys: Vec<String>,
    pub items: Vec<StringTableEntry>,
    pub players: Vec<UserInfo>,
    pub baselines: Vec<(u32, Vec<u8>)>,
}

/// Takes in an entry that has a key: it is remembered, kept, and looked at
/// for a player or a baseline.
fn absorb_entry(acc: &mut TableAcc, i2: i32, key: String, value: Vec<u8>, lay: TableLayout)
    ensures
        keys_view(final(acc).keys@) == keys_after(keys_view(old(acc).keys@), key@),
        entries_view(final(acc).items@) == entries_view(old(acc).items@) + seq![(i2, key@, value@)],
        players_view(final(acc).players@) == players_view(old(acc).players@) + entry_players(value@, lay),
        baselines_view(final(acc).baselines@) == baselines_view(old(acc).baselines@) + entry_baselines(key@, value@, lay),
{
    let ghost kv = key@;
    let ghost vv = value@;
    if lay.is_userinfo {
        match UserInfo::from_bytes(value.as_slice()) {
            Ok(player) => {
                if player.steamid != 0 {
                    acc.players.push(player);
                }
            },
            Err(_) => {},
        }
    } else if lay.is_baseline {
        match parse_u32(key.as_str()) {
            Some(cls_id) => {
                let copy = crate::variants::copy_plain(&value);
                acc.baselines.push((cls_id, copy));
            },
            None => {},
        }
    }
    assert(players_view(acc.players@) =~= players_view(old(acc).players@) + entry_players(vv, lay));
    assert(baselines_view(acc.baselines@) =~= baselines_view(old(acc).baselines@) + entry_baselines(kv, vv, lay));
    if acc.keys.len() >= 32 {
        acc.keys.remove(0);
    }
    acc.keys.push(key.clone());
    assert(keys_view(acc.keys@) =~= keys_after(keys_view(old(acc).keys@), kv));
    acc.items.push(StringTableEntry { idx: i2, key, value });
    assert(entries_view(acc.items@) =~= entries_view(old(acc).items@) + seq![(i2, kv, vv)]);
}

/// The accumulated output put in front of `run`.
pub open spec fn acc_prepend(acc: TableAcc, run: TableRun) -> TableRun {
    prepend(entries_view(acc.items@), players_view(acc.players@), baselines_view(acc.baselines@), run)
}

/// A table whose next entry fails fails with nothing gathered.
proof fn lemma_table_fail(d: Seq<u8>, p: int, k: nat, idx: i32, keys: Seq<Seq<char>>, lay: TableLayout)
    requires
        k > 0,
        spec_entry(d, p, idx, keys, lay) is Fail,
    ensures
        spec_table(d, p, k, idx, keys, lay) == TableRun::Failed(spec_entry(d, p, idx, keys, lay)->Fail_0, Seq::empty(), Seq::empty()),
{
}

/// A failure after what was gathered keeps what was gathered.
proof fn lemma_prepend_failed(
    es: Seq<(i32, Seq<char>, Seq<u8>)>,
    ps: Seq<(u64, Seq<char>, i32, bool)>,
    bs: Seq<(u32, Seq<u8>)>,
    x: Option<DemoParserError>,
)
    ensures
        prepend(es, ps, bs, TableRun::Failed(x, Seq::empty(), Seq::empty())) == TableRun::Failed(x, ps, bs),
{
    assert(ps + Seq::<(u64, Seq<char>, i32, bool)>::empty() =~= ps);
    assert(bs + Seq::<(u32, Seq<u8>)>::empty() =~= bs);
}

/// How the entries of table `name` are read.
pub open spec fn layout_of(name: Seq<char>, user_data_fixed: bool, user_data_size: i32, flags: i32, variant_bit_count: bool) -> TableLayout {
    TableLayout {
        user_data_fixed,
        user_data_size,
        flags,
        variant_bit_count,
        is_userinfo: name == "userinfo"@,
        is_baseline: name == "instancebaseline"@,
    }
}

/// The number of entries `n_updates` asks for: none when it is negative.
pub open spec fn update_count(n: i32) -> nat {
    if n < 0 { 0 } else { n as nat }
}

/// Reads `n_updates` entries of table `name` from `bytes`. The players that
/// `userinfo` lists (those with a steam id) and the baselines that
/// `instancebaseline` lists (those whose key is a class id) are collected;
/// on success the table holds every entry that has a key.
pub fn parse_string_table(
    bytes: &[u8],
    n_updates: i32,
    name: String,
    user_data_fixed: bool,
    user_data_size: i32,
    flags: i32,
    variant_bit_count: bool,
) -> (out: TableOutcome)
    ensures
        match spec_table(bytes@, 0, update_count(n_updates), -1i32, Seq::empty(),
            layout_of(name@, user_data_fixed, user_data_size, flags, variant_bit_count)) {
            TableRun::Done(es, ps, bs) => {
                &&& out.table matches Ok(t) && entries_view(t.data@) == es && t.name == name
                    && t.user_data_size == user_data_size && t.user_data_fixed == user_data_fixed
                    && t.flags == flags && t.var_bit_counts == variant_bit_count
                &&& players_view(out.players@) == ps
                &&& baselines_view(out.baselines@) == bs
            },
            TableRun::Failed(e, ps, bs) => {
                &&& match e {
                    Some(x) => out.table matches Err(y) && y == x,
                    None => out.table matches Err(DemoParserError::FailedByteRead(_)),
                }
                &&& players_view(out.players@) == ps
                &&& baselines_view(out.baselines@) == bs
            },
        },
{
    let is_userinfo = crate::strings::str_eq(name.as_str(), "userinfo");
    let is_baseline = crate::strings::str_eq(name.as_str(), "instancebaseline");
    let lay = TableLayout { user_data_fixed, user_data_size, flags, variant_bit_count, is_userinfo, is_baseline };
    let ghost d = bytes@;
    let ghost total = spec_table(d, 0, update_count(n_updates), -1i32, Seq::empty(), lay);
    assert(lay == layout_of(name@, user_data_fixed, user_data_size, flags, variant_bit_count));
    let mut br = Bitreader::new(bytes);
    let mut idx: i32 = -1;
    let mut acc = TableAcc { keys: Vec::new(), items: Vec::new(), players: Vec::new(), baselines: Vec::new() };
    let mut k: i32 = 0;
    proof {
        lemma_prepend_nothing(total);
        assert(keys_view(acc.keys@) =~= Seq::<Seq<char>>::empty());
        assert(entries_view(acc.items@) =~= Seq::<(i32, Seq<char>, Seq<u8>)>::empty());
        assert(players_view(acc.players@) =~= Seq::<(u64, Seq<char>, i32, bool)>::empty());
        assert(baselines_view(acc.baselines@) =~= Seq::<(u32, Seq<u8>)>::empty());
    }
    while k < n_updates
        invariant
            br.wf(),
            br.data() == d,
            d == bytes@,
            0 <= k,
            n_updates >= 0 ==> k <= n_updates,
            n_updates < 0 ==> k == 0,
            lay == layout_of(name@, user_data_fixed, user_data_size, flags, variant_bit_count),
            total == spec_table(d, 0, update_count(n_updates), -1i32, Seq::empty(), lay),
            total == acc_prepend(acc, spec_table(d, br.pos(), (update_count(n_updates) - k) as nat, idx, keys_view(acc.keys@), lay)),
        decreases n_updates - k,
    {
        let ghost p = br.pos();
        let ghost acc0 = acc;
        let ghost kk = (update_count(n_updates) - k) as nat;
        let ghost step = spec_entry(d, p, idx, keys_view(acc.keys@), lay);
        match read_entry(&mut br, idx, &acc.keys, lay) {
            Err(e) => {
                proof {
                    assert(kk > 0);
                    assert(lay == layout_of(name@, user_data_fixed, user_data_size, flags, variant_bit_count));
                    lemma_table_fail(d, p, kk, idx, keys_view(acc0.keys@), lay);
                    lemma_prepend_failed(entries_view(acc.items@), players_view(acc.players@), baselines_view(acc.baselines@), step->Fail_0);
                    assert(total == TableRun::Failed(step->Fail_0, players_view(acc.players@), baselines_view(acc.baselines@)));
                    assert(step->Fail_0 matches Some(x) ==> e == x);
                }
                return TableOutcome { players: acc.players, baselines: acc.baselines, table: Err(e) };
            },
            Ok(EntryRead::NoKey(i2)) => {
                idx = i2;
            },
            Ok(EntryRead::Entry(i2, key, value)) => {
                idx = i2;
                let ghost kv = key@;
                let ghost vv = value@;
                absorb_entry(&mut acc, i2, key, value, lay);
                proof {
                    lemma_prepend_twice(entries_view(acc0.items@), players_view(acc0.players@), baselines_view(acc0.baselines@),
                        seq![(i2, kv, vv)], entry_players(vv, lay), entry_baselines(kv, vv, lay),
                        spec_table(d, br.pos(), (kk - 1) as nat, idx, keys_view(acc.keys@), lay));
                }
            },
        }
        k += 1;
    }
    let players = acc.players;
    let baselines = acc.baselines;
    let items = acc.items;
    proof {
        assert(entries_view(items@) + Seq::<(i32, Seq<char>, Seq<u8>)>::empty() =~= entries_view(items@));
        assert(players_view(players@) + Seq::<(u64, Seq<char>, i32, bool)>::empty() =~= players_view(players@));
        assert(baselines_view(baselines@) + Seq::<(u32, Seq<u8>)>::empty() =~= baselines_view(baselines@));
    }
    TableOutcome {
        players,
        baselines,
        table: Ok(StringTable {
            data: items,
            name,
            user_data_size,
            user_data_fixed,
            flags,
            var_bit_counts: variant_bit_count,
        }),
    }
}

/// The string tables read so far, the players they list by user id, and
/// the baselines by class id.
#[derive(Debug)]
pub struct StringTableStore {
    pub string_tables: Vec<StringTable>,
    pub stringtable_players: HashMap<i32, UserInfo>,
    pub baselines: HashMap<u32, Vec<u8>>,
}

/// A table as the create message describes it; a missing entry reads as
/// false, 0 or empty.
#[derive(Debug)]
pub struct CreateStringTableMsg {
    pub name: Option<String>,
    pub num_entries: Option<i32>,
    pub user_data_fixed_size: Option<bool>,
    pub user_data_size: Option<i32>,
    pub flags: Option<i32>,
    pub string_data: Option<Vec<u8>>,
    pub data_compressed: Option<bool>,
    pub using_varint_bitcounts: Option<bool>,
}

/// New entries of a table already created.
#[derive(Debug)]
pub struct UpdateStringTableMsg {
    pub table_id: Option<i32>,
    pub num_changed_entries: Option<i32>,
    pub string_data: Option<Vec<u8>>,
}

/// Map `m` with the players of `s` put in by user id, in order.
pub open spec fn players_inserted(m: Map<i32, UserInfo>, s: Seq<UserInfo>) -> Map<i32, UserInfo>
    decreases s.len(),
{
    if s.len() == 0 {
        m
    } else {
        players_inserted(m, s.drop_last()).insert(s.last().userid, s.last())
    }
}

/// Map `m` with the baselines of `s` put in by class id, in order.
pub open spec fn baselines_inserted(m: Map<u32, Vec<u8>>, s: Seq<(u32, Vec<u8>)>) -> Map<u32, Vec<u8>>
    decreases s.len(),
{
    if s.len() == 0 {
        m
    } else {
        baselines_inserted(m, s.drop_last()).insert(s.last().0, s.last().1)
    }
}

/// The elements of `v` in reverse order.
fn reversed<T>(v: Vec<T>) -> (r: Vec<T>)
    ensures
        r@.len() == v@.len(),
        forall|i: int| 0 <= i < v@.len() ==> #[trigger] r@[i] == v@[v@.len() - 1 - i],
{
    let ghost orig = v@;
    let ghost n = orig.len();
    let mut v = v;
    let mut rev: Vec<T> = Vec::new();
    assert(n == v.len());
    while v.len() > 0
        invariant
            n == orig.len(),
            v@ == orig.take(v@.len() as int),
            v@.len() <= n,
            rev@.len() == n - v@.len(),
            forall|i: int| 0 <= i < rev@.len() ==> #[trigger] rev@[i] == orig[n - 1 - i],
        decreases v@.len(),
    {
        let x = v.pop().unwrap();
        assert(v@ =~= orig.take(v@.len() as int));
        rev.push(x);
    }
    rev
}

impl StringTableStore {
    /// No tables, players or baselines.
    pub fn new() -> (r: StringTableStore)
        ensures
            r.string_tables@.len() == 0,
            r.stringtable_players@ == Map::<i32, UserInfo>::empty(),
            r.baselines@ == Map::<u32, Vec<u8>>::empty(),
    {
        StringTableStore { string_tables: Vec::new(), stringtable_players: HashMap::new(), baselines: HashMap::new() }
    }

    /// Keeps what a table read found: its players and baselines, in order
    /// (a later one replaces an earlier one of the same id), and the table
    /// if it was read whole; gives back how the read ended.
    pub fn absorb(&mut self, out: TableOutcome) -> (r: Result<(), DemoParserError>)
        ensures
            final(self).stringtable_players@ == players_inserted(old(self).stringtable_players@, out.players@),
            final(self).baselines@ == baselines_inserted(old(self).baselines@, out.baselines@),
            match out.table {
                Ok(t) => r is Ok && final(self).string_tables@ == old(self).string_tables@.push(t),
                Err(e) => r == Err::<(), DemoParserError>(e) && final(self).string_tables@ == old(self).string_tables@,
            },
    {
        let ghost ps = out.players@;
        let ghost bs = out.baselines@;
        let mut rev = reversed(out.players);
        let ghost n = ps.len();
        assert(n == rev.len());
        let mut k: usize = 0;
        assert(ps.take(0) =~= Seq::<UserInfo>::empty());
        while rev.len() > 0
            invariant
                n == ps.len(),
                n <= usize::MAX,
                rev@.len() == n - k,
                k <= n,
                forall|i: int| 0 <= i < rev@.len() ==> #[trigger] rev@[i] == ps[n - 1 - i],
                self.stringtable_players@ == players_inserted(old(self).stringtable_players@, ps.take(k as int)),
                self.baselines@ == old(self).baselines@,
                self.string_tables@ == old(self).string_tables@,
            decreases rev@.len(),
        {
            let p = rev.pop().unwrap();
            assert(p == ps[k as int]);
            assert(ps.take(k + 1).drop_last() =~= ps.take(k as int));
            self.stringtable_players.insert(p.userid, p);
            k += 1;
        }
        assert(ps.take(n as int) =~= ps);
        let mut revb = reversed(out.baselines);
        let ghost m = bs.len();
        assert(m == revb.len());
        let mut j: usize = 0;
        assert(bs.take(0) =~= Seq::<(u32, Vec<u8>)>::empty());
        while revb.len() > 0
            invariant
                m == bs.len(),
                m <= usize::MAX,
                revb@.len() == m - j,
                j <= m,
                forall|i: int| 0 <= i < revb@.len() ==> #[trigger] revb@[i] == bs[m - 1 - i],
                self.stringtable_players@ == players_inserted(old(self).stringtable_players@, ps),
                self.baselines@ == baselines_inserted(old(self).baselines@, bs.take(j as int)),
                self.string_tables@ == old(self).string_tables@,
            decreases revb@.len(),
        {
            let b = revb.pop().unwrap();
            assert(b == bs[j as int]);
            assert(bs.take(j + 1).drop_last() =~= bs.take(j as int));
            self.baselines.insert(b.0, b.1);
            j += 1;
        }
        assert(bs.take(m as int) =~= bs);
        match out.table {
            Ok(t) => {
                self.string_tables.push(t);
                Ok(())
            },
            Err(e) => Err(e),
        }
    }
}

/// The players of a map by user id, as tuples.
pub open spec fn players_map(m: Map<i32, UserInfo>) -> Map<i32, (u64, Seq<char>, i32, bool)> {
    m.map_values(|u: UserInfo| user_view(u))
}

/// The baselines of a map by class id, as bytes.
pub open spec fn baselines_map(m: Map<u32, Vec<u8>>) -> Map<u32, Seq<u8>> {
    m.map_values(|v: Vec<u8>| v@)
}

/// Map `m` with the players `s` put in by user id, in order.
pub open spec fn player_views_inserted(m: Map<i32, (u64, Seq<char>, i32, bool)>, s: Seq<(u64, Seq<char>, i32, bool)>) -> Map<i32, (u64, Seq<char>, i32, bool)>
    decreases s.len(),
{
    if s.len() == 0 {
        m
    } else {
        player_views_inserted(m, s.drop_last()).insert(s.last().2, s.last())
    }
}

/// Map `m` with the baselines `s` put in by class id, in order.
pub open spec fn baseline_views_inserted(m: Map<u32, Seq<u8>>, s: Seq<(u32, Seq<u8>)>) -> Map<u32, Seq<u8>>
    decreases s.len(),
{
    if s.len() == 0 {
        m
    } else {
        baseline_views_inserted(m, s.drop_last()).insert(s.last().0, s.last().1)
    }
}

/// Putting players in and then looking at them is looking at them and then
/// putting them in.
proof fn lemma_players_inserted(m: Map<i32, UserInfo>, s: Seq<UserInfo>)
    ensures
        players_map(players_inserted(m, s)) == player_views_inserted(players_map(m), players_view(s)),
    decreases s.len(),
{
    if s.len() > 0 {
        lemma_players_inserted(m, s.drop_last());
        assert(players_view(s).drop_last() =~= players_view(s.drop_last()));
        assert(players_map(players_inserted(m, s)) =~= player_views_inserted(players_map(m), players_view(s)));
    } else {
        assert(players_view(s) =~= Seq::<(u64, Seq<char>, i32, bool)>::empty());
    }
}

/// Putting baselines in and then looking at them is looking at them and
/// then putting them in.
proof fn lemma_baselines_inserted(m: Map<u32, Vec<u8>>, s: Seq<(u32, Vec<u8>)>)
    ensures
        baselines_map(baselines_inserted(m, s)) == baseline_views_inserted(baselines_map(m), baselines_view(s)),
    decreases s.len(),
{
    if s.len() > 0 {
        lemma_baselines_inserted(m, s.drop_last());
        assert(baselines_view(s).drop_last() =~= baselines_view(s.drop_last()));
        assert(baselines_map(baselines_inserted(m, s)) =~= baseline_views_inserted(baselines_map(m), baselines_view(s)));
    } else {
        assert(baselines_view(s) =~= Seq::<(u32, Seq<u8>)>::empty());
    }
}

/// `after` is store `before` once table `name` (read as `lay` says, with
/// `n` entries in `bytes`) is read and what it found kept; `r` is how the
/// read ended.
pub open spec fn table_read(before: StringTableStore, after: StringTableStore, r: Result<(), DemoParserError>,
    bytes: Seq<u8>, n: i32, name: Seq<char>, lay: TableLayout) -> bool
{
    match spec_table(bytes, 0, update_count(n), -1i32, Seq::empty(), lay) {
        TableRun::Done(es, ps, bs) => {
            &&& r is Ok
            &&& after.string_tables@.len() == before.string_tables@.len() + 1
            &&& after.string_tables@.drop_last() == before.string_tables@
            &&& entries_view(after.string_tables@.last().data@) == es
            &&& after.string_tables@.last().name@ == name
            &&& after.string_tables@.last().user_data_fixed == lay.user_data_fixed
            &&& after.string_tables@.last().user_data_size == lay.user_data_size
            &&& after.string_tables@.last().flags == lay.flags
            &&& after.string_tables@.last().var_bit_counts == lay.variant_bit_count
            &&& players_map(after.stringtable_players@) == player_views_inserted(players_map(before.stringtable_players@), ps)
            &&& baselines_map(after.baselines@) == baseline_views_inserted(baselines_map(before.baselines@), bs)
        },
        TableRun::Failed(e, ps, bs) => {
            &&& match e {
                Some(x) => r == Err::<(), DemoParserError>(x),
                None => r matches Err(DemoParserError::FailedByteRead(_)),
            }
            &&& after.string_tables@ == before.string_tables@
            &&& players_map(after.stringtable_players@) == player_views_inserted(players_map(before.stringtable_players@), ps)
            &&& baselines_map(after.baselines@) == baseline_views_inserted(baselines_map(before.baselines@), bs)
        },
    }
}

/// A text entry of a message, empty where it is missing.
pub open spec fn text_or_empty(x: Option<String>) -> Seq<char> {
    match x {
        Some(s) => s@,
        None => Seq::empty(),
    }
}

/// The entries of a create message: decompressed where it says so; `None`
/// where that fails.
pub open spec fn create_bytes(msg: CreateStringTableMsg) -> Option<Seq<u8>> {
    let raw = match msg.string_data {
        Some(v) => v@,
        None => Seq::empty(),
    };
    if msg.data_compressed == Some(true) { snappy_vec(raw) } else { Some(raw) }
}

/// How the entries of a created table are read.
pub open spec fn create_layout(msg: CreateStringTableMsg) -> TableLayout {
    layout_of(
        text_or_empty(msg.name),
        msg.user_data_fixed_size == Some(true),
        match msg.user_data_size { Some(v) => v, None => 0 },
        match msg.flags { Some(v) => v, None => 0 },
        msg.using_varint_bitcounts == Some(true),
    )
}

impl StringTableStore {
    /// Reads a created table and keeps what it finds; the entries of a
    /// compressed table that snap cannot decompress make the message
    /// malformed.
    pub fn create_table(&mut self, msg: &CreateStringTableMsg) -> (r: Result<(), DemoParserError>)
        ensures
            match create_bytes(*msg) {
                None => r == Err::<(), DemoParserError>(DemoParserError::MalformedMessage) && *final(self) == *old(self),
                Some(b) => table_read(*old(self), *final(self), r, b, match msg.num_entries { Some(v) => v, None => 0 },
                    text_or_empty(msg.name), create_layout(*msg)),
            },
    {
        let name = match &msg.name {
            Some(n) => n.clone(),
            None => String::new(),
        };
        let empty: Vec<u8> = Vec::new();
        let raw: &Vec<u8> = match &msg.string_data {
            Some(v) => v,
            None => &empty,
        };
        let compressed = match msg.data_compressed {
            Some(c) => c,
            None => false,
        };
        let bytes = if compressed {
            match snap_decompress_vec(raw.as_slice()) {
                Ok(v) => v,
                Err(_) => return Err(DemoParserError::MalformedMessage),
            }
        } else {
            crate::variants::copy_plain(raw)
        };
        let n = match msg.num_entries {
            Some(v) => v,
            None => 0,
        };
        let out = parse_string_table(
            bytes.as_slice(),
            n,
            name,
            match msg.user_data_fixed_size { Some(v) => v, None => false },
            match msg.user_data_size { Some(v) => v, None => 0 },
            match msg.flags { Some(v) => v, None => 0 },
            match msg.using_varint_bitcounts { Some(v) => v, None => false },
        );
        let ghost out_players = out.players@;
        let ghost out_baselines = out.baselines@;
        let ghost out_table = out.table;
        let ghost before = *self;
        let r = self.absorb(out);
        proof {
            lemma_players_inserted(before.stringtable_players@, out_players);
            lemma_baselines_inserted(before.baselines@, out_baselines);
            if let Ok(t) = out_table {
                assert(self.string_tables@.drop_last() =~= before.string_tables@);
                assert(self.string_tables@.last() == t);
            }
        }
        r
    }

    /// Reads a created table, as the first pass does: only the tables of
    /// players and baselines are read, others are passed over.
    pub fn parse_create_stringtable(&mut self, msg: &CreateStringTableMsg) -> (r: Result<(), DemoParserError>)
        ensures
            !(text_or_empty(msg.name) == "instancebaseline"@ || text_or_empty(msg.name) == "userinfo"@)
                ==> r is Ok && *final(self) == *old(self),
            (text_or_empty(msg.name) == "instancebaseline"@ || text_or_empty(msg.name) == "userinfo"@) ==> match create_bytes(*msg) {
                None => r == Err::<(), DemoParserError>(DemoParserError::MalformedMessage) && *final(self) == *old(self),
                Some(b) => table_read(*old(self), *final(self), r, b, match msg.num_entries { Some(v) => v, None => 0 },
                    text_or_empty(msg.name), create_layout(*msg)),
            },
    {
        let wanted = match &msg.name {
            Some(n) => str_eq(n.as_str(), "instancebaseline") || str_eq(n.as_str(), "userinfo"),
            None => {
                proof {
                    reveal_strlit("instancebaseline");
                    reveal_strlit("userinfo");
                    assert(text_or_empty(msg.name).len() == 0);
                }
                false
            },
        };
        if !wanted {
            return Ok(());
        }
        self.create_table(msg)
    }

    /// Reads new entries of table `table_id` and keeps what they add. A
    /// table that was never created is `StringTableNotFound` when `strict`,
    /// and passed over otherwise.
    pub fn update_string_table(&mut self, msg: &UpdateStringTableMsg, strict: bool) -> (r: Result<(), DemoParserError>)
        ensures
            ({
                let id = match msg.table_id { Some(v) => v, None => 0 };
                if (id as usize) < old(self).string_tables@.len() {
                    let st = old(self).string_tables@[(id as usize) as int];
                    table_read(*old(self), *final(self), r, match msg.string_data { Some(v) => v@, None => Seq::empty() },
                        match msg.num_changed_entries { Some(v) => v, None => 0 }, st.name@,
                        layout_of(st.name@, st.user_data_fixed, st.user_data_size, st.flags, st.var_bit_counts))
                } else {
                    *final(self) == *old(self) && if strict {
                        r == Err::<(), DemoParserError>(DemoParserError::StringTableNotFound)
                    } else {
                        r is Ok
                    }
                }
            }),
    {
        let id = match msg.table_id {
            Some(v) => v,
            None => 0,
        };
        let i = id as usize;
        if i >= self.string_tables.len() {
            if strict {
                return Err(DemoParserError::StringTableNotFound);
            }
            return Ok(());
        }
        let st = &self.string_tables[i];
        let name = st.name.clone();
        let fixed = st.user_data_fixed;
        let size = st.user_data_size;
        let flags = st.flags;
        let varbits = st.var_bit_counts;
        let empty: Vec<u8> = Vec::new();
        let data: &Vec<u8> = match &msg.string_data {
            Some(v) => v,
            None => &empty,
        };
        let n = match msg.num_changed_entries {
            Some(v) => v,
            None => 0,
        };
        let out = parse_string_table(data.as_slice(), n, name, fixed, size, flags, varbits);
        let ghost out_players = out.players@;
        let ghost out_baselines = out.baselines@;
        let ghost out_table = out.table;
        let ghost before = *self;
        let r = self.absorb(out);
        proof {
            lemma_players_inserted(before.stringtable_players@, out_players);
            lemma_baselines_inserted(before.baselines@, out_baselines);
            if let Ok(t) = out_table {
                assert(self.string_tables@.drop_last() =~= before.string_tables@);
                assert(self.string_tables@.last() == t);
            }
        }
        r
    }
}

} // verus!
