use vstd::prelude::*;
use crate::error::DemoParserError;
use crate::variants::{Variant, VarKind, Cell, variant_view};
use crate::game_types::{EntityType, PlayerMetaData, Teams};
use crate::props::{ENTITY_HANDLE_MISSING, SPECTATOR_TEAM_NUM};

verus! {

/// The values of an entity's properties that its bookkeeping reads, each
/// where the entity has it: the team number of a team entity, and the team,
/// name, steam id and pawn handle of a player controller.
#[derive(Debug)]
pub struct ExtraProps {
    pub team_team_num: Option<Variant>,
    pub team_num: Option<Variant>,
    pub player_name: Option<Variant>,
    pub steamid: Option<Variant>,
    pub player_pawn: Option<Variant>,
}

/// What is known of a player, as a tuple of values.
pub open spec fn meta_view(m: PlayerMetaData) -> (Option<i32>, Option<u64>, Option<i32>, Option<Seq<char>>, Option<u32>) {
    (m.player_entity_id, m.steamid, m.controller_entid, match m.name { Some(n) => Some(n@), None => None }, m.team_num)
}

/// The players by pawn entity id, in ascending order of id, each id once.
pub open spec fn sorted_keys(players: Seq<(i32, PlayerMetaData)>) -> bool {
    forall|i: int, j: int| 0 <= i < j < players.len() ==> players[i].0 < players[j].0
}

/// The players as a map from pawn entity id to what is known of them.
pub open spec fn players_view(players: Seq<(i32, PlayerMetaData)>) -> Map<i32, (Option<i32>, Option<u64>, Option<i32>, Option<Seq<char>>, Option<u32>)>
    decreases players.len(),
{
    if players.len() == 0 {
        Map::empty()
    } else {
        players_view(players.drop_last()).insert(players.last().0, meta_view(players.last().1))
    }
}

/// The first player, in order of pawn id, with steam id `steamid`.
pub open spec fn first_with_steamid(players: Seq<(i32, PlayerMetaData)>, steamid: Option<u64>) -> Option<int>
    decreases players.len(),
{
    if players.len() == 0 {
        None
    } else if players[0].1.steamid == steamid {
        Some(0)
    } else {
        match first_with_steamid(players.drop_first(), steamid) {
            Some(i) => Some(i + 1),
            None => None,
        }
    }
}

/// Where the team entity is recorded: teams 1, 2 and 3 have a slot each.
pub open spec fn team_slot(entity_type: EntityType, is_baseline: bool, t: Option<Variant>) -> Option<u32> {
    if entity_type == EntityType::Team && !is_baseline {
        match t {
            Some(Variant::U32(n)) => if 1 <= n <= 3 { Some(n) } else { None },
            _ => None,
        }
    } else {
        None
    }
}

/// The teams after team entity `entity_id` is recorded in `slot`.
pub open spec fn teams_after(teams: Teams, slot: Option<u32>, entity_id: i32) -> Teams {
    match slot {
        Some(1) => Teams { team1_entid: Some(entity_id), ..teams },
        Some(2) => Teams { team2_entid: Some(entity_id), ..teams },
        Some(3) => Teams { team3_entid: Some(entity_id), ..teams },
        _ => teams,
    }
}

/// The properties read are of the kinds expected: a team number, a name, a
/// steam id and a handle, each where present.
pub open spec fn props_well_typed(p: ExtraProps) -> bool {
    &&& (p.team_num matches Some(v) ==> v is U32)
    &&& (p.player_name matches Some(v) ==> v is String)
    &&& (p.steamid matches Some(v) ==> v is U64)
    &&& (p.player_pawn matches Some(v) ==> v is U32)
}

/// The pawn entity id a player controller points at.
pub open spec fn pawn_of(p: ExtraProps) -> Option<i32> {
    match p.player_pawn {
        Some(Variant::U32(h)) => Some((h & 0x7ffu32) as i32),
        _ => None,
    }
}

/// The steam id a player controller has.
pub open spec fn steamid_of(p: ExtraProps) -> Option<u64> {
    match p.steamid {
        Some(Variant::U64(s)) => Some(s),
        _ => None,
    }
}

/// The team number a player controller has.
pub open spec fn team_num_of(p: ExtraProps) -> Option<u32> {
    match p.team_num {
        Some(Variant::U32(t)) => Some(t),
        _ => None,
    }
}

/// The name a player controller has.
pub open spec fn name_of(p: ExtraProps) -> Option<Seq<char>> {
    match p.player_name {
        Some(Variant::String(s)) => Some(s@),
        _ => None,
    }
}

/// A controller names a real player: it has a pawn, which is not missing,
/// a steam id that is not 0, and is not a spectator.
pub open spec fn is_real_player(p: ExtraProps) -> bool {
    &&& pawn_of(p) matches Some(e)
    &&& e != ENTITY_HANDLE_MISSING
    &&& steamid_of(p) != Some(0u64)
    &&& team_num_of(p) != Some(SPECTATOR_TEAM_NUM)
}

/// The players after controller `entity_id` with properties `p` is
/// recorded: the player with its steam id, if any, is dropped, and the
/// player is put in under its pawn id.
pub open spec fn players_after(players: Seq<(i32, PlayerMetaData)>, p: ExtraProps, entity_id: i32) -> Map<i32, (Option<i32>, Option<u64>, Option<i32>, Option<Seq<char>>, Option<u32>)> {
    let base = match first_with_steamid(players, steamid_of(p)) {
        Some(i) => players_view(players).remove(players[i].0),
        None => players_view(players),
    };
    base.insert(pawn_of(p)->Some_0, (pawn_of(p), steamid_of(p), Some(entity_id), name_of(p), team_num_of(p)))
}

/// A copy of a name.
fn copy_name(s: &String) -> (r: String)
    ensures
        r@ == s@,
{
    s.clone()
}

/// The players without position `i`.
proof fn lemma_view_remove(players: Seq<(i32, PlayerMetaData)>, i: int)
    requires
        sorted_keys(players),
        0 <= i < players.len(),
    ensures
        sorted_keys(players.remove(i)),
        players_view(players.remove(i)) == players_view(players).remove(players[i].0),
    decreases players.len(),
{
    lemma_view_keys(players);
    if i == players.len() - 1 {
        assert(players.remove(i) =~= players.drop_last());
        lemma_view_keys(players.drop_last());
        assert(!players_view(players.drop_last()).contains_key(players[i].0)) by {
            if players_view(players.drop_last()).contains_key(players[i].0) {
                let j = choose|j: int| 0 <= j < players.drop_last().len() && players.drop_last()[j].0 == players[i].0;
                assert(players[j].0 < players[i].0);
            }
        }
        assert(players_view(players.remove(i)) =~= players_view(players).remove(players[i].0));
    } else {
        lemma_view_remove(players.drop_last(), i);
        assert(players.remove(i).drop_last() =~= players.drop_last().remove(i));
        assert(players.remove(i).last() == players.last());
        assert(players_view(players.remove(i)) =~= players_view(players).remove(players[i].0));
    }
}

/// The ids in the map are the ids listed.
proof fn lemma_view_keys(players: Seq<(i32, PlayerMetaData)>)
    ensures
        forall|k: i32| players_view(players).contains_key(k) <==> exists|j: int| 0 <= j < players.len() && players[j].0 == k,
    decreases players.len(),
{
    if players.len() > 0 {
        let front = players.drop_last();
        lemma_view_keys(front);
        assert forall|k: i32| players_view(players).contains_key(k) implies exists|j: int| 0 <= j < players.len() && players[j].0 == k by {
            if k == players.last().0 {
                assert(players[players.len() - 1].0 == k);
            } else {
                assert(players_view(front).contains_key(k));
                let j = choose|j: int| 0 <= j < front.len() && front[j].0 == k;
                assert(front[j] == players[j]);
            }
        }
        assert forall|k: i32| (exists|j: int| 0 <= j < players.len() && players[j].0 == k) implies players_view(players).contains_key(k) by {
            let j = choose|j: int| 0 <= j < players.len() && players[j].0 == k;
            if j < players.len() - 1 {
                assert(front[j] == players[j]);
                assert(players_view(front).contains_key(k));
            }
        }
    }
}

/// Replacing the player at position `pos` by one with the same pawn id.
proof fn lemma_view_update(players: Seq<(i32, PlayerMetaData)>, pos: int, e: (i32, PlayerMetaData))
    requires
        sorted_keys(players),
        0 <= pos < players.len(),
        players[pos].0 == e.0,
    ensures
        sorted_keys(players.update(pos, e)),
        players_view(players.update(pos, e)) == players_view(players).insert(e.0, meta_view(e.1)),
    decreases players.len(),
{
    let r = players.update(pos, e);
    let front = players.drop_last();
    assert forall|i: int| 0 <= i < r.len() implies #[trigger] r[i].0 == players[i].0 by {}
    if pos == players.len() - 1 {
        assert(r.drop_last() =~= front);
        lemma_view_keys(front);
        assert(!players_view(front).contains_key(e.0)) by {
            if players_view(front).contains_key(e.0) {
                let j = choose|j: int| 0 <= j < front.len() && front[j].0 == e.0;
                assert(front[j] == players[j]);
            }
        }
        assert(players_view(r) =~= players_view(players).insert(e.0, meta_view(e.1)));
    } else {
        lemma_view_update(front, pos, e);
        assert(r.drop_last() =~= front.update(pos, e));
        assert(r.last() == players.last());
        assert(players[pos].0 < players.last().0);
        assert(players_view(r) =~= players_view(players).insert(e.0, meta_view(e.1)));
    }
}

/// Inserting a player with a new pawn id at its place in id order.
proof fn lemma_view_insert(players: Seq<(i32, PlayerMetaData)>, pos: int, e: (i32, PlayerMetaData))
    requires
        sorted_keys(players),
        0 <= pos <= players.len(),
        forall|j: int| 0 <= j < pos ==> #[trigger] players[j].0 < e.0,
        forall|j: int| pos <= j < players.len() ==> e.0 < #[trigger] players[j].0,
    ensures
        sorted_keys(players.insert(pos, e)),
        players_view(players.insert(pos, e)) == players_view(players).insert(e.0, meta_view(e.1)),
    decreases players.len(),
{
    let r = players.insert(pos, e);
    assert forall|i: int, j: int| 0 <= i < j < r.len() implies r[i].0 < r[j].0 by {
        if j < pos {
        } else if j == pos {
        } else if i < pos {
            assert(r[j] == players[j - 1]);
        } else if i == pos {
            assert(r[j] == players[j - 1]);
        } else {
            assert(r[i] == players[i - 1]);
            assert(r[j] == players[j - 1]);
        }
    }
    if pos == players.len() {
        assert(r.drop_last() =~= players);
        assert(r.last() == e);
    } else {
        let front = players.drop_last();
        assert forall|j: int| 0 <= j < pos implies #[trigger] front[j].0 < e.0 by {
            assert(front[j] == players[j]);
        }
        assert forall|j: int| pos <= j < front.len() implies e.0 < #[trigger] front[j].0 by {
            assert(front[j] == players[j]);
        }
        lemma_view_insert(front, pos, e);
        assert(r.drop_last() =~= front.insert(pos, e));
        assert(r.last() == players.last());
        assert(e.0 < players[players.len() - 1].0);
        assert(players_view(r) =~= players_view(players).insert(e.0, meta_view(e.1)));
    }
}

/// Where the first player with steam id `steamid` stands, if any.
fn position_of_steamid(players: &Vec<(i32, PlayerMetaData)>, steamid: Option<u64>) -> (r: Option<usize>)
    ensures
        r matches Some(k) ==> k < players@.len() && first_with_steamid(players@, steamid) == Some(k as int),
        r is None ==> first_with_steamid(players@, steamid) is None,
{
    let ghost p0 = players@;
    let mut i: usize = 0;
    assert(p0.skip(0) =~= p0);
    while i < players.len()
        invariant
            i <= p0.len(),
            players@ == p0,
            first_with_steamid(p0, steamid) == match first_with_steamid(p0.skip(i as int), steamid) {
                Some(k) => Some(k + i),
                None => None,
            },
        decreases p0.len() - i,
    {
        assert(p0.skip(i as int)[0] == p0[i as int]);
        if players[i].1.steamid == steamid {
            return Some(i);
        }
        assert(p0.skip(i as int).drop_first() =~= p0.skip(i + 1));
        i += 1;
    }
    assert(p0.skip(i as int).len() == 0);
    None
}

/// Puts player `meta` in under pawn id `e`, at its place in id order.
fn put_player(players: &mut Vec<(i32, PlayerMetaData)>, e: i32, meta: PlayerMetaData)
    requires
        sorted_keys(old(players)@),
    ensures
        sorted_keys(final(players)@),
        players_view(final(players)@) == players_view(old(players)@).insert(e, meta_view(meta)),
{
    let ghost p1 = players@;
    let mut pos: usize = 0;
    while pos < players.len() && players[pos].0 < e
        invariant
            pos <= players@.len(),
            players@ == p1,
            forall|j: int| 0 <= j < pos ==> #[trigger] p1[j].0 < e,
        decreases players@.len() - pos,
    {
        pos += 1;
    }
    let replace = pos < players.len() && players[pos].0 == e;
    proof {
        if !replace && pos < p1.len() {
            assert forall|j: int| pos <= j < p1.len() implies e < #[trigger] p1[j].0 by {
                assert(p1[pos as int].0 <= p1[j].0);
            }
        }
        if replace {
            lemma_view_update(p1, pos as int, (e, meta));
        } else {
            lemma_view_insert(p1, pos as int, (e, meta));
        }
    }
    if replace {
        players.set(pos, (e, meta));
    } else {
        players.insert(pos, (e, meta));
    }
}

/// What recording an entity's properties does: nothing but for team
/// entities and player controllers; for those, a team is placed, then a
/// property of an unexpected kind is `IncorrectMetaDataProp` and leaves the
/// players; otherwise a real player is put in.
pub open spec fn gathered(
    teams0: Teams,
    players0: Seq<(i32, PlayerMetaData)>,
    entity_id: i32,
    entity_type: EntityType,
    is_baseline: bool,
    props: ExtraProps,
    teams1: Teams,
    players1: Seq<(i32, PlayerMetaData)>,
    r: Result<(), DemoParserError>,
) -> bool {
    if !(entity_type == EntityType::PlayerController || entity_type == EntityType::Team) {
        r is Ok && teams1 == teams0 && players1 == players0
    } else {
        &&& teams1 == teams_after(teams0, team_slot(entity_type, is_baseline, props.team_team_num), entity_id)
        &&& !props_well_typed(props) ==> r == Err::<(), DemoParserError>(DemoParserError::IncorrectMetaDataProp)
            && players1 == players0
        &&& props_well_typed(props) ==> r is Ok && if is_real_player(props) {
            players_view(players1) == players_after(players0, props, entity_id)
        } else {
            players1 == players0
        }
    }
}

/// No two players in the table share a steam id (an absent one counts as a value).
pub open spec fn distinct_steamids(m: Map<i32, (Option<i32>, Option<u64>, Option<i32>, Option<Seq<char>>, Option<u32>)>) -> bool {
    forall|a: i32, b: i32| m.contains_key(a) && m.contains_key(b) && a != b ==> #[trigger] m[a].1 != #[trigger] m[b].1
}

/// Each listed player is what the map holds under its id.
proof fn lemma_view_at(players: Seq<(i32, PlayerMetaData)>)
    requires
        sorted_keys(players),
    ensures
        forall|j: int| 0 <= j < players.len() ==> players_view(players).contains_key(#[trigger] players[j].0)
            && players_view(players)[players[j].0] == meta_view(players[j].1),
    decreases players.len(),
{
    if players.len() > 0 {
        let front = players.drop_last();
        lemma_view_at(front);
        assert forall|j: int| 0 <= j < players.len() implies players_view(players).contains_key(#[trigger] players[j].0)
            && players_view(players)[players[j].0] == meta_view(players[j].1) by {
            if j < players.len() - 1 {
                assert(front[j] == players[j]);
                assert(players[j].0 < players.last().0);
            }
        }
    }
}

/// What the search for a steam id finds.
proof fn lemma_first_with_steamid(players: Seq<(i32, PlayerMetaData)>, steamid: Option<u64>)
    ensures
        first_with_steamid(players, steamid) matches Some(i) ==> 0 <= i < players.len() && players[i].1.steamid == steamid,
        first_with_steamid(players, steamid) is None ==> forall|j: int| 0 <= j < players.len() ==> #[trigger] players[j].1.steamid != steamid,
    decreases players.len(),
{
    if players.len() > 0 {
        lemma_first_with_steamid(players.drop_first(), steamid);
        assert forall|j: int| 0 < j < players.len() implies #[trigger] players[j] == players.drop_first()[j - 1] by {}
    }
}

/// Recording an entity keeps the players' steam ids distinct: a controller's
/// steam id replaces the one player that had it, and its pawn id's entry.
pub proof fn law_gather_keeps_steamids_distinct(
    teams0: Teams,
    players0: Seq<(i32, PlayerMetaData)>,
    entity_id: i32,
    entity_type: EntityType,
    is_baseline: bool,
    props: ExtraProps,
    teams1: Teams,
    players1: Seq<(i32, PlayerMetaData)>,
    r: Result<(), DemoParserError>,
)
    requires
        sorted_keys(players0),
        distinct_steamids(players_view(players0)),
        gathered(teams0, players0, entity_id, entity_type, is_baseline, props, teams1, players1, r),
    ensures
        distinct_steamids(players_view(players1)),
{
    if (entity_type == EntityType::PlayerController || entity_type == EntityType::Team) && props_well_typed(props)
        && is_real_player(props) {
        let m0 = players_view(players0);
        let s = steamid_of(props);
        lemma_view_at(players0);
        lemma_view_keys(players0);
        lemma_first_with_steamid(players0, s);
        let base = match first_with_steamid(players0, s) {
            Some(i) => m0.remove(players0[i].0),
            None => m0,
        };
        assert forall|k: i32| base.contains_key(k) implies #[trigger] base[k].1 != s by {
            let j = choose|j: int| 0 <= j < players0.len() && players0[j].0 == k;
            assert(m0[k] == meta_view(players0[j].1));
            match first_with_steamid(players0, s) {
                Some(i) => {
                    assert(m0.contains_key(players0[i].0));
                    assert(m0[players0[i].0].1 == s);
                },
                None => {},
            }
        }
        let m1 = players_view(players1);
        assert(m1 == base.insert(pawn_of(props)->Some_0, (pawn_of(props), s, Some(entity_id), name_of(props), team_num_of(props))));
        assert forall|a: i32, b: i32| m1.contains_key(a) && m1.contains_key(b) && a != b implies #[trigger] m1[a].1 != #[trigger] m1[b].1 by {
            if a != pawn_of(props)->Some_0 && b != pawn_of(props)->Some_0 {
                assert(base.contains_key(a) && base.contains_key(b));
                assert(m0[a].1 != m0[b].1);
            } else if a == pawn_of(props)->Some_0 {
                assert(base.contains_key(b));
            } else {
                assert(base.contains_key(a));
            }
        }
    }
}

/// An optional value as a mathematical value.
pub open spec fn option_view(o: Option<Variant>) -> Option<(VarKind, Cell, bool, bool)> {
    match o {
        Some(v) => Some(variant_view(v)),
        None => None,
    }
}

/// Two sets of properties hold the same values.
pub open spec fn props_agree(a: ExtraProps, b: ExtraProps) -> bool {
    &&& option_view(a.team_team_num) == option_view(b.team_team_num)
    &&& option_view(a.team_num) == option_view(b.team_num)
    &&& option_view(a.player_name) == option_view(b.player_name)
    &&& option_view(a.steamid) == option_view(b.steamid)
    &&& option_view(a.player_pawn) == option_view(b.player_pawn)
}

/// Properties with the same values are recorded alike.
pub proof fn lemma_gathered_agree(
    teams0: Teams,
    players0: Seq<(i32, PlayerMetaData)>,
    entity_id: i32,
    entity_type: EntityType,
    is_baseline: bool,
    a: ExtraProps,
    b: ExtraProps,
    teams1: Teams,
    players1: Seq<(i32, PlayerMetaData)>,
    r: Result<(), DemoParserError>,
)
    requires
        props_agree(a, b),
    ensures
        gathered(teams0, players0, entity_id, entity_type, is_baseline, a, teams1, players1, r)
            == gathered(teams0, players0, entity_id, entity_type, is_baseline, b, teams1, players1, r),
{
    assert(team_slot(entity_type, is_baseline, a.team_team_num) == team_slot(entity_type, is_baseline, b.team_team_num));
    assert(props_well_typed(a) == props_well_typed(b));
    assert(pawn_of(a) == pawn_of(b));
    assert(steamid_of(a) == steamid_of(b));
    assert(team_num_of(a) == team_num_of(b));
    assert(name_of(a) == name_of(b));
    assert(is_real_player(a) == is_real_player(b));
    assert(players_after(players0, a, entity_id) == players_after(players0, b, entity_id));
}

/// Records what an entity's properties say: a team entity's number places
/// it among the teams (outside baselines); a player controller's team,
/// name, steam id and pawn describe a player, put in under its pawn id in
/// place of any player with the same steam id. A property of an unexpected
/// kind is `IncorrectMetaDataProp`, after the team is placed.
pub fn gather_extra_info(
    teams: &mut Teams,
    players: &mut Vec<(i32, PlayerMetaData)>,
    entity_id: i32,
    entity_type: EntityType,
    is_baseline: bool,
    props: &ExtraProps,
) -> (r: Result<(), DemoParserError>)
    requires
        sorted_keys(old(players)@),
    ensures
        sorted_keys(final(players)@),
        gathered(*old(teams), old(players)@, entity_id, entity_type, is_baseline, *props, *final(teams), final(players)@, r),
{
    if !(entity_type == EntityType::PlayerController || entity_type == EntityType::Team) {
        return Ok(());
    }
    if entity_type == EntityType::Team && !is_baseline {
        match &props.team_team_num {
            Some(Variant::U32(t)) => {
                if *t == 1 {
                    teams.team1_entid = Some(entity_id);
                } else if *t == 2 {
                    teams.team2_entid = Some(entity_id);
                } else if *t == 3 {
                    teams.team3_entid = Some(entity_id);
                }
            },
            _ => {},
        }
    }
    let team_num = match &props.team_num {
        Some(Variant::U32(t)) => Some(*t),
        Some(_) => return Err(DemoParserError::IncorrectMetaDataProp),
        None => None,
    };
    let name = match &props.player_name {
        Some(Variant::String(s)) => Some(copy_name(s)),
        Some(_) => return Err(DemoParserError::IncorrectMetaDataProp),
        None => None,
    };
    let steamid = match &props.steamid {
        Some(Variant::U64(s)) => Some(*s),
        Some(_) => return Err(DemoParserError::IncorrectMetaDataProp),
        None => None,
    };
    let player_entity_id = match &props.player_pawn {
        Some(Variant::U32(h)) => {
            let m: u32 = *h & 0x7ffu32;
            assert(m <= 0x7ff) by (bit_vector)
                requires
                    m == *h & 0x7ffu32,
            ;
            Some(m as i32)
        },
        Some(_) => return Err(DemoParserError::IncorrectMetaDataProp),
        None => None,
    };
    let e = match player_entity_id {
        Some(e) => e,
        None => return Ok(()),
    };
    let is_zero_steamid = match steamid {
        Some(id) => id == 0,
        None => false,
    };
    let is_spectator = match team_num {
        Some(t) => t == SPECTATOR_TEAM_NUM,
        None => false,
    };
    if e == ENTITY_HANDLE_MISSING || is_zero_steamid || is_spectator {
        return Ok(());
    }
    let found = position_of_steamid(players, steamid);
    let meta = PlayerMetaData { name, team_num, player_entity_id, steamid, controller_entid: Some(entity_id) };
    proof {
        match found {
            Some(k) => lemma_view_remove(old(players)@, k as int),
            None => {},
        }
    }
    match found {
        Some(k) => {
            players.remove(k);
        },
        None => {},
    }
    put_player(players, e, meta);
    Ok(())
}

} // verus!
