use vstd::prelude::*;
use vstd::utf8::{valid_utf8, decode_utf8};
use crate::error::DemoParserError;

verus! {

/// A player as the `userinfo` string table lists it.
#[derive(Debug)]
pub struct UserInfo {
    pub steamid: u64,
    pub name: String,
    pub userid: i32,
    pub is_hltv: bool,
}

/// A protobuf varint at byte `p`: at most ten bytes, the tenth no more than
/// 1; the value and the position after it.
pub open spec fn pb_varint(b: Seq<u8>, p: int) -> Option<(u64, int)> {
    pb_varint_from(b, p, 0, 0)
}

/// The rest of a varint whose first `i` bytes gave `acc`.
pub open spec fn pb_varint_from(b: Seq<u8>, p: int, i: nat, acc: u64) -> Option<(u64, int)>
    decreases 10 - i,
{
    if i >= 10 || p + i >= b.len() || p < 0 {
        None
    } else {
        let byte = b[p + i];
        let v = acc | (((byte & 0x7f) as u64) << (7 * i) as u64);
        if byte < 0x80 {
            if i == 9 && byte > 1 { None } else { Some((v, p + i + 1)) }
        } else {
            pb_varint_from(b, p, i + 1, v)
        }
    }
}

/// A varint ends after where it starts, within the bytes.
pub proof fn lemma_pb_varint_from(b: Seq<u8>, p: int, i: nat, acc: u64)
    ensures
        pb_varint_from(b, p, i, acc) matches Some((v, q)) ==> p + i < q <= b.len(),
    decreases 10 - i,
{
    if !(i >= 10 || p + i >= b.len() || p < 0) {
        let byte = b[p + i];
        let v = acc | (((byte & 0x7f) as u64) << (7 * i) as u64);
        if byte >= 0x80 {
            lemma_pb_varint_from(b, p, i + 1, v);
        }
    }
}

/// A varint ends after where it starts, within the bytes.
pub proof fn lemma_pb_varint(b: Seq<u8>, p: int)
    ensures
        pb_varint(b, p) matches Some((v, q)) ==> p < q <= b.len(),
{
    lemma_pb_varint_from(b, p, 0, 0);
}

/// A little-endian 64-bit number at byte `p`.
pub open spec fn le64(b: Seq<u8>, p: int) -> u64 {
    (b[p] as u64) | ((b[p + 1] as u64) << 8) | ((b[p + 2] as u64) << 16) | ((b[p + 3] as u64) << 24)
        | ((b[p + 4] as u64) << 32) | ((b[p + 5] as u64) << 40) | ((b[p + 6] as u64) << 48)
        | ((b[p + 7] as u64) << 56)
}

/// Skipping the value of a field with number `tag` and wire type `wt` at
/// byte `q`, with `count` levels of nesting left: a varint, eight or four
/// bytes, a length and that many bytes, or a group up to its end; the
/// position after it. A group end has no value of its own, and with no
/// levels left nothing is skipped.
pub open spec fn pb_skip_field(b: Seq<u8>, q: int, tag: u64, wt: u64, count: nat) -> Option<int>
    decreases b.len() - q, 1int,
{
    if q < 0 || q > b.len() || count == 0 {
        None
    } else if wt == 0 {
        match pb_varint(b, q) {
            Some((v, r)) => Some(r),
            None => None,
        }
    } else if wt == 1 {
        if q + 8 > b.len() { None } else { Some(q + 8) }
    } else if wt == 2 {
        match pb_varint(b, q) {
            Some((len, r)) => if len > b.len() - r { None } else { Some(r + len) },
            None => None,
        }
    } else if wt == 5 {
        if q + 4 > b.len() { None } else { Some(q + 4) }
    } else if wt == 3 {
        pb_skip_group(b, q, tag, count)
    } else {
        None
    }
}

/// The fields of a group with number `tag` from byte `p` on, each skipped
/// one level deeper, up to the group end with the same number; the position
/// after that end.
pub open spec fn pb_skip_group(b: Seq<u8>, p: int, tag: u64, count: nat) -> Option<int>
    decreases b.len() - p, 0int,
{
    if p < 0 || p >= b.len() {
        None
    } else {
        proof {
            lemma_pb_varint(b, p);
        }
        match pb_varint(b, p) {
            None => None,
            Some((key, q)) => {
                let wt = key & 7;
                let t = key >> 3;
                if key > u32::MAX || wt > 5 || t == 0 {
                    None
                } else if wt == 4 {
                    if t == tag { Some(q) } else { None }
                } else {
                    match pb_skip_field(b, q, t, wt, (count - 1) as nat) {
                        None => None,
                        Some(r) => if r <= p || r > b.len() { None } else { pb_skip_group(b, r, tag, count) },
                    }
                }
            },
        }
    }
}

/// The levels of nesting a message may have below it.
pub open spec fn nesting_limit() -> nat {
    100
}

/// What is read of a player so far: the bytes of the name, the steam id,
/// the user id and whether it is the broadcaster.
pub struct PlayerFields {
    pub name: Seq<u8>,
    pub xuid: u64,
    pub userid: i32,
    pub ishltv: bool,
}

/// The player message from byte `p` on, with `acc` read before it: each
/// field is a key (number and wire type) and a value. Name (1) is a
/// length-delimited string, xuid (2) and steamid (4) are fixed 64-bit,
/// userid (3), fakeplayer (5) and ishltv (6) are varints; a later value
/// replaces an earlier one, other fields are skipped by their wire type,
/// groups among them.
/// `None` is a malformed message.
pub open spec fn pb_player_from(b: Seq<u8>, p: int, acc: PlayerFields) -> Option<PlayerFields>
    decreases b.len() - p,
{
    if p >= b.len() || p < 0 {
        Some(acc)
    } else {
        proof {
            lemma_pb_varint(b, p);
            if let Some((k, q)) = pb_varint(b, p) {
                lemma_pb_varint(b, q);
            }
        }
        match pb_varint(b, p) {
            None => None,
            Some((key, q)) => {
                let wt = key & 7;
                let tag = key >> 3;
                if key > u32::MAX || wt > 5 || tag == 0 || wt == 4 {
                    None
                } else if wt == 3 {
                    if tag <= 6 {
                        None
                    } else {
                        match pb_skip_field(b, q, tag, wt, nesting_limit()) {
                            None => None,
                            Some(r) => if r <= p || r > b.len() { None } else { pb_player_from(b, r, acc) },
                        }
                    }
                } else if wt == 0 {
                    match pb_varint(b, q) {
                        None => None,
                        Some((v, r)) => {
                            if tag == 1 || tag == 2 || tag == 4 {
                                None
                            } else if tag == 3 {
                                pb_player_from(b, r, PlayerFields { userid: v as i32, ..acc })
                            } else if tag == 6 {
                                pb_player_from(b, r, PlayerFields { ishltv: v != 0, ..acc })
                            } else {
                                pb_player_from(b, r, acc)
                            }
                        },
                    }
                } else if wt == 1 {
                    if q + 8 > b.len() {
                        None
                    } else if tag == 1 || tag == 3 || tag == 5 || tag == 6 {
                        None
                    } else if tag == 2 {
                        pb_player_from(b, q + 8, PlayerFields { xuid: le64(b, q), ..acc })
                    } else {
                        pb_player_from(b, q + 8, acc)
                    }
                } else if wt == 2 {
                    match pb_varint(b, q) {
                        None => None,
                        Some((len, r)) => {
                            if len > b.len() - r {
                                None
                            } else if tag == 2 || tag == 3 || tag == 4 || tag == 5 || tag == 6 {
                                None
                            } else if tag == 1 {
                                pb_player_from(b, r + len, PlayerFields { name: b.subrange(r, r + len), ..acc })
                            } else {
                                pb_player_from(b, r + len, acc)
                            }
                        },
                    }
                } else {
                    if q + 4 > b.len() || tag <= 6 {
                        None
                    } else {
                        pb_player_from(b, q + 4, acc)
                    }
                }
            },
        }
    }
}

/// The player a message describes, with the defaults of fields it lacks;
/// `None` where it is malformed or its name is not UTF-8.
pub open spec fn spec_user_info(b: Seq<u8>) -> Option<(u64, Seq<char>, i32, bool)> {
    match pb_player_from(b, 0, PlayerFields { name: Seq::empty(), xuid: 0, userid: 0, ishltv: false }) {
        None => None,
        Some(f) => if valid_utf8(f.name) { Some((f.xuid, decode_utf8(f.name), f.userid, f.ishltv)) } else { None },
    }
}

/// A player as a tuple: steam id, name, user id, broadcaster.
pub open spec fn user_view(u: UserInfo) -> (u64, Seq<char>, i32, bool) {
    (u.steamid, u.name@, u.userid, u.is_hltv)
}

/// Runs `String::from_utf8`: std documents that it fails exactly on bytes
/// that are not UTF-8, and otherwise keeps them as the string's bytes.
#[verifier::external_body]
fn string_from_utf8(bytes: Vec<u8>) -> (r: Option<String>)
    ensures
        match r {
            Some(s) => valid_utf8(bytes@) && s@ == decode_utf8(bytes@),
            None => !valid_utf8(bytes@),
        },
{
    String::from_utf8(bytes).ok()
}

/// Reads a protobuf varint at byte `p`.
fn read_pb_varint(b: &[u8], p: usize) -> (r: Option<(u64, usize)>)
    ensures
        match pb_varint(b@, p as int) {
            Some((v, q)) => r matches Some((w, s)) && w == v && s as int == q,
            None => r is None,
        },
{
    let mut acc: u64 = 0;
    let mut i: usize = 0;
    while i < 10
        invariant
            i <= 10,
            pb_varint(b@, p as int) == pb_varint_from(b@, p as int, i as nat, acc),
        decreases 10 - i,
    {
        if p >= b.len() || i >= b.len() - p {
            return None;
        }
        let byte = b[p + i];
        let v = acc | (((byte & 0x7f) as u64) << (7 * i) as u64);
        if byte < 0x80 {
            if i == 9 && byte > 1 {
                return None;
            }
            return Some((v, p + i + 1));
        }
        acc = v;
        i += 1;
    }
    None
}

/// Skips the value of a field with number `tag` and wire type `wt` at byte
/// `q`, with `count` levels of nesting left.
fn skip_field(b: &[u8], q: usize, tag: u64, wt: u64, count: u64) -> (r: Option<usize>)
    ensures
        match pb_skip_field(b@, q as int, tag, wt, count as nat) {
            Some(x) => 0 <= x <= b@.len() && r == Some(x as usize),
            None => r is None,
        },
    decreases b@.len() - q, 1int,
{
    if q > b.len() || count == 0 {
        return None;
    }
    proof {
        lemma_pb_varint(b@, q as int);
    }
    if wt == 0 {
        match read_pb_varint(b, q) {
            Some((v, r)) => Some(r),
            None => None,
        }
    } else if wt == 1 {
        if b.len() - q < 8 { None } else { Some(q + 8) }
    } else if wt == 2 {
        match read_pb_varint(b, q) {
            Some((len, r)) => if len > (b.len() - r) as u64 { None } else { Some(r + len as usize) },
            None => None,
        }
    } else if wt == 5 {
        if b.len() - q < 4 { None } else { Some(q + 4) }
    } else if wt == 3 {
        skip_group(b, q, tag, count)
    } else {
        None
    }
}

/// Skips the fields of a group with number `tag` from byte `p` on, up to
/// its end.
fn skip_group(b: &[u8], p: usize, tag: u64, count: u64) -> (r: Option<usize>)
    requires
        count >= 1,
    ensures
        match pb_skip_group(b@, p as int, tag, count as nat) {
            Some(x) => 0 <= x <= b@.len() && r == Some(x as usize),
            None => r is None,
        },
    decreases b@.len() - p, 0int,
{
    if p >= b.len() {
        return None;
    }
    proof {
        lemma_pb_varint(b@, p as int);
    }
    let (key, q) = match read_pb_varint(b, p) {
        Some(x) => x,
        None => return None,
    };
    let wt = key & 7;
    let t = key >> 3;
    if key > 0xffff_ffff || wt > 5 || t == 0 {
        None
    } else if wt == 4 {
        if t == tag { Some(q) } else { None }
    } else {
        match skip_field(b, q, t, wt, count - 1) {
            None => None,
            Some(r) => if r <= p || r > b.len() { None } else { skip_group(b, r, tag, count) },
        }
    }
}

/// Reads the player message from byte `p` on.
fn read_player_fields(b: &[u8], p: usize, name: Vec<u8>, xuid: u64, userid: i32, ishltv: bool) -> (r: Option<(Vec<u8>, u64, i32, bool)>)
    requires
        p <= b@.len(),
    ensures
        match pb_player_from(b@, p as int, PlayerFields { name: name@, xuid, userid, ishltv }) {
            Some(f) => r matches Some((n, x, u, h)) && n@ == f.name && x == f.xuid && u == f.userid && h == f.ishltv,
            None => r is None,
        },
    decreases b@.len() - p,
{
    if p >= b.len() {
        return Some((name, xuid, userid, ishltv));
    }
    proof {
        lemma_pb_varint(b@, p as int);
        if let Some((k, q)) = pb_varint(b@, p as int) {
            lemma_pb_varint(b@, q);
        }
    }
    let (key, q) = match read_pb_varint(b, p) {
        Some(x) => x,
        None => return None,
    };
    let wt = key & 7;
    let tag = key >> 3;
    if key > 0xffff_ffff || wt > 5 || tag == 0 || wt == 4 {
        return None;
    }
    if wt == 3 {
        if tag <= 6 {
            return None;
        }
        return match skip_field(b, q, tag, wt, 100) {
            None => None,
            Some(r) => if r <= p || r > b.len() { None } else { read_player_fields(b, r, name, xuid, userid, ishltv) },
        };
    }
    if wt == 0 {
        let (v, r) = match read_pb_varint(b, q) {
            Some(x) => x,
            None => return None,
        };
        if tag == 1 || tag == 2 || tag == 4 {
            None
        } else if tag == 3 {
            read_player_fields(b, r, name, xuid, v as i32, ishltv)
        } else if tag == 6 {
            read_player_fields(b, r, name, xuid, userid, v != 0)
        } else {
            read_player_fields(b, r, name, xuid, userid, ishltv)
        }
    } else if wt == 1 {
        if q > b.len() || b.len() - q < 8 {
            None
        } else if tag == 1 || tag == 3 || tag == 5 || tag == 6 {
            None
        } else if tag == 2 {
            let x = (b[q] as u64) | ((b[q + 1] as u64) << 8) | ((b[q + 2] as u64) << 16) | ((b[q + 3] as u64) << 24)
                | ((b[q + 4] as u64) << 32) | ((b[q + 5] as u64) << 40) | ((b[q + 6] as u64) << 48)
                | ((b[q + 7] as u64) << 56);
            read_player_fields(b, q + 8, name, x, userid, ishltv)
        } else {
            read_player_fields(b, q + 8, name, xuid, userid, ishltv)
        }
    } else if wt == 2 {
        let (len, r) = match read_pb_varint(b, q) {
            Some(x) => x,
            None => return None,
        };
        if r > b.len() || len > (b.len() - r) as u64 {
            None
        } else if tag == 2 || tag == 3 || tag == 4 || tag == 5 || tag == 6 {
            None
        } else if tag == 1 {
            let n = len as usize;
            let mut s: Vec<u8> = Vec::new();
            let mut k: usize = 0;
            assert(b@.len() == b.len());
            while k < n
                invariant
                    k <= n,
                    r + n <= b@.len(),
                    b@.len() <= usize::MAX,
                    s@ == b@.subrange(r as int, r + k),
                decreases n - k,
            {
                s.push(b[r + k]);
                k += 1;
                assert(s@ =~= b@.subrange(r as int, r + k));
            }
            read_player_fields(b, r + n, s, xuid, userid, ishltv)
        } else {
            read_player_fields(b, r + len as usize, name, xuid, userid, ishltv)
        }
    } else {
        if q > b.len() || b.len() - q < 4 || tag <= 6 {
            None
        } else {
            read_player_fields(b, q + 4, name, xuid, userid, ishltv)
        }
    }
}

impl UserInfo {
    /// The player a `userinfo` entry describes; a message that is malformed
    /// or whose name is not UTF-8 is a malformed message.
    pub fn from_bytes(bytes: &[u8]) -> (r: Result<UserInfo, DemoParserError>)
        ensures
            match spec_user_info(bytes@) {
                Some(v) => r matches Ok(u) && user_view(u) == v,
                None => r == Err::<UserInfo, DemoParserError>(DemoParserError::MalformedMessage),
            },
    {
        let (name, xuid, userid, ishltv) = match read_player_fields(bytes, 0, Vec::new(), 0, 0, false) {
            Some(x) => x,
            None => return Err(DemoParserError::MalformedMessage),
        };
        let name = match string_from_utf8(name) {
            Some(s) => s,
            None => return Err(DemoParserError::MalformedMessage),
        };
        Ok(UserInfo { is_hltv: ishltv, steamid: xuid, name, userid })
    }
}

} // verus!
