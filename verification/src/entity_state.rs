use vstd::prelude::*;
use std::collections::HashMap;
use crate::error::DemoParserError;
use crate::variants::{Variant, variant_view, clone_variant};
use crate::game_types::{EntityType, PlayerMetaData, Teams, PropCollectionError, name_for, lookup_name};
use crate::prop_controller::SpecialIDs;
use crate::props::WEAPON_SKIN_ID;
use crate::player_meta::{ExtraProps, meta_view, players_view, sorted_keys, gather_extra_info, gathered, props_agree, lemma_gathered_agree,
    distinct_steamids, law_gather_keeps_steamids_distinct};

verus! {

broadcast use vstd::std_specs::hash::group_hash_axioms;

/// An entity: its class, id, properties by id, and kind.
#[derive(Debug)]
pub struct Entity {
    pub cls_id: u32,
    pub entity_id: i32,
    pub props: HashMap<u32, Variant>,
    pub entity_type: EntityType,
}

/// The entities of a demo at the current tick, and what is known of its
/// players, teams and special entities.
#[derive(Debug)]
pub struct EntityState {
    pub entities: Vec<Option<Entity>>,
    pub players: Vec<(i32, PlayerMetaData)>,
    pub teams: Teams,
    pub special_ids: SpecialIDs,
    pub rules_entity_id: Option<i32>,
    pub c4_entity_id: Option<i32>,
    pub tick: i32,
}

/// The entity with id `id`, if there is one: ids index the entities.
pub open spec fn entity_at(entities: Seq<Option<Entity>>, id: i32) -> Option<Entity> {
    let i = (id as usize) as int;
    if i < entities.len() { entities[i] } else { None }
}

/// Property `prop_id` of entity `id`.
pub open spec fn prop_at(entities: Seq<Option<Entity>>, prop_id: u32, id: i32) -> Result<Variant, PropCollectionError> {
    match entity_at(entities, id) {
        None => Err(PropCollectionError::GetPropFromEntEntityNotFound),
        Some(e) => if e.props@.contains_key(prop_id) {
            Ok(e.props@[prop_id])
        } else {
            Err(PropCollectionError::GetPropFromEntPropNotFound)
        },
    }
}

/// Two outcomes agree: the same value, or the same error.
pub open spec fn same_outcome(r: Result<Variant, PropCollectionError>, s: Result<Variant, PropCollectionError>) -> bool {
    match (r, s) {
        (Ok(a), Ok(b)) => variant_view(a) == variant_view(b),
        (Err(a), Err(b)) => a == b,
        _ => false,
    }
}

/// Two optional values agree.
pub open spec fn same_option(r: Option<Variant>, s: Option<Variant>) -> bool {
    match (r, s) {
        (Some(a), Some(b)) => variant_view(a) == variant_view(b),
        (None, None) => true,
        _ => false,
    }
}

/// The value of an outcome, if it is one.
pub open spec fn ok_of(r: Result<Variant, PropCollectionError>) -> Option<Variant> {
    match r {
        Ok(v) => Some(v),
        Err(_) => None,
    }
}

/// The property ids of sticker slot `i` of a weapon: its id, wear and x and
/// y offsets, four ids after the skin's own and each slot after the last.
pub open spec fn sticker_slot(i: int) -> (u32, u32, u32, u32) {
    let base = WEAPON_SKIN_ID + 4 * (i + 1);
    (base as u32, (base + 1) as u32, (base + 2) as u32, (base + 3) as u32)
}

/// The property ids of the six sticker slots of a weapon, in order.
pub fn sticker_slot_ids() -> (r: Vec<(u32, u32, u32, u32)>)
    ensures
        r@.len() == 6,
        forall|i: int| 0 <= i < 6 ==> #[trigger] r@[i] == sticker_slot(i),
{
    let mut r: Vec<(u32, u32, u32, u32)> = Vec::new();
    let mut idx: u32 = 4;
    while idx <= 24
        invariant
            4 <= idx <= 28,
            idx % 4 == 0,
            r@.len() == idx / 4 - 1,
            forall|i: int| 0 <= i < r@.len() ==> #[trigger] r@[i] == sticker_slot(i),
        decreases 28 - idx,
    {
        let base: u32 = WEAPON_SKIN_ID + idx;
        r.push((base, base + 1, base + 2, base + 3));
        idx = idx + 4;
    }
    r
}

/// The entity id a handle points at: its low eleven bits.
pub open spec fn handle_entity(h: u32) -> i32 {
    (h & 0x7ff) as i32
}

/// The entity id a handle points at.
pub fn entity_of_handle(h: u32) -> (r: i32)
    ensures
        r == handle_entity(h),
        0 <= r <= 0x7ff,
{
    let m: u32 = h & 0x7ffu32;
    assert(m <= 0x7ff) by (bit_vector)
        requires
            m == h & 0x7ffu32,
    ;
    m as i32
}

/// The position of the last player listed under pawn id `id`.
pub open spec fn last_with_id(players: Seq<(i32, PlayerMetaData)>, id: i32) -> Option<int>
    decreases players.len(),
{
    if players.len() == 0 {
        None
    } else if players.last().0 == id {
        Some(players.len() - 1)
    } else {
        last_with_id(players.drop_last(), id)
    }
}

/// The player map knows `id` exactly where some entry has it, with the
/// last such entry's data.
proof fn lemma_last_with_id(players: Seq<(i32, PlayerMetaData)>, id: i32)
    ensures
        match last_with_id(players, id) {
            Some(j) => 0 <= j < players.len() && players[j].0 == id && players_view(players).contains_key(id)
                && players_view(players)[id] == meta_view(players[j].1),
            None => !players_view(players).contains_key(id),
        },
    decreases players.len(),
{
    if players.len() > 0 {
        lemma_last_with_id(players.drop_last(), id);
        if players.last().0 != id {
            match last_with_id(players.drop_last(), id) {
                Some(j) => {
                    assert(players.drop_last()[j] == players[j]);
                },
                None => {},
            }
        }
    }
}

/// The first player, in list order, whose controller is entity `id`.
pub open spec fn first_with_controller(players: Seq<(i32, PlayerMetaData)>, id: i32) -> Option<int>
    decreases players.len(),
{
    if players.len() == 0 {
        None
    } else if players[0].1.controller_entid == Some(id) {
        Some(0)
    } else {
        match first_with_controller(players.drop_first(), id) {
            Some(j) => Some(j + 1),
            None => None,
        }
    }
}

/// The steam ids of the players whose controllers are the entities
/// `1..=n` set in `mask`, in order; a player without one counts as 0.
pub open spec fn mask_steamids(players: Seq<(i32, PlayerMetaData)>, mask: u32, n: nat) -> Seq<u64>
    decreases n,
{
    if n == 0 {
        Seq::empty()
    } else {
        let i = (n - 1) as nat;
        let rest = mask_steamids(players, mask, i);
        if mask & (1u32 << (i as u32)) != 0 {
            match first_with_controller(players, (i + 1) as i32) {
                Some(j) => rest.push(match players[j].1.steamid { Some(s) => s, None => 0 }),
                None => rest,
            }
        } else {
            rest
        }
    }
}

/// The team entity the team number `n` names.
pub open spec fn team_entity(teams: Teams, n: u32) -> Result<Option<i32>, PropCollectionError> {
    if n == 1 {
        Ok(teams.team1_entid)
    } else if n == 2 {
        Ok(teams.team2_entid)
    } else if n == 3 {
        Ok(teams.team3_entid)
    } else {
        Err(PropCollectionError::IllegalTeamValue)
    }
}

/// An error of the weapon entity, as a weapon property reports it.
pub open spec fn weapon_error(e: PropCollectionError) -> PropCollectionError {
    match e {
        PropCollectionError::GetPropFromEntEntityNotFound => PropCollectionError::WeaponEntityNotFound,
        PropCollectionError::GetPropFromEntPropNotFound => PropCollectionError::WeaponEntityWantedPropNotFound,
        _ => e,
    }
}

impl EntityState {
    /// Property `prop_id` of entity `entity_id`.
    pub open spec fn prop(self, prop_id: u32, entity_id: i32) -> Result<Variant, PropCollectionError> {
        prop_at(self.entities@, prop_id, entity_id)
    }

    /// Property `prop_id` of entity `entity_id`, where the id is known and
    /// the property is there.
    pub open spec fn prop_opt(self, prop_id: Option<u32>, entity_id: i32) -> Option<Variant> {
        match prop_id {
            Some(id) => ok_of(self.prop(id, entity_id)),
            None => None,
        }
    }

    /// Property `prop` of the weapon entity `entity_id` holds.
    pub open spec fn weapon_prop(self, prop: u32, entity_id: i32) -> Result<Variant, PropCollectionError> {
        match self.special_ids.active_weapon {
            None => Err(PropCollectionError::SpecialidsActiveWeaponNotSet),
            Some(w) => match self.prop(w, entity_id) {
                Err(e) => Err(e),
                Ok(Variant::U32(h)) => match self.prop(prop, handle_entity(h)) {
                    Ok(v) => Ok(v),
                    Err(e) => Err(weapon_error(e)),
                },
                Ok(_) => Err(PropCollectionError::WeaponHandleIncorrectVariant),
            },
        }
    }

    /// The weapon entity that entity `entity_id` holds, from its active
    /// weapon handle.
    pub open spec fn active_weapon(self, entity_id: i32) -> Result<i32, PropCollectionError> {
        match self.special_ids.active_weapon {
            None => Err(PropCollectionError::SpecialidsActiveWeaponNotSet),
            Some(w) => match self.prop(w, entity_id) {
                Err(e) => Err(e),
                Ok(Variant::U32(h)) => Ok(handle_entity(h)),
                Ok(_) => Err(PropCollectionError::WeaponHandleIncorrectVariant),
            },
        }
    }

    /// Property `prop` of the team of entity `entity_id`.
    pub open spec fn team_prop(self, prop: u32, entity_id: i32) -> Result<Variant, PropCollectionError> {
        match self.special_ids.player_team_pointer {
            None => Err(PropCollectionError::SpecialidsPlayerTeamPointerNotSet),
            Some(t) => match self.prop(t, entity_id) {
                Err(e) => Err(e),
                Ok(Variant::U32(n)) => match team_entity(self.teams, n) {
                    Err(e) => Err(e),
                    Ok(None) => Err(PropCollectionError::TeamEntityIdNotSet),
                    Ok(Some(eid)) => self.prop(prop, eid),
                },
                Ok(_) => Err(PropCollectionError::TeamNumIncorrectVariant),
            },
        }
    }

    /// The entity that owns grenade `entity_id`.
    pub open spec fn owner_of(self, entity_id: i32) -> Result<u32, PropCollectionError> {
        match self.special_ids.grenade_owner_id {
            None => Err(PropCollectionError::GrenadeOwnerIdNotSet),
            Some(o) => match self.prop(o, entity_id) {
                Err(e) => Err(e),
                Ok(Variant::U32(p)) => Ok(p & 0x7ff),
                Ok(_) => Err(PropCollectionError::GrenadeOwnerIdPropIncorrectVariant),
            },
        }
    }

    /// The entity that carries the bomb, from the bomb's owner handle.
    pub open spec fn c4_owner(self) -> Option<i32> {
        match (self.c4_entity_id, self.special_ids.h_owner_entity) {
            (Some(c4), Some(o)) => match self.prop(o, c4) {
                Ok(Variant::U32(u)) => Some(handle_entity(u)),
                _ => None,
            },
            _ => None,
        }
    }

    /// Whether entity `entity_id` is alive: its life state is 0.
    pub open spec fn is_alive(self, entity_id: i32) -> bool {
        match self.special_ids.life_state {
            Some(l) => self.prop(l, entity_id) matches Ok(Variant::U32(v)) && v == 0,
            None => false,
        }
    }

    /// The round being played, as the game rules entity counts them.
    pub open spec fn current_round(self) -> Option<Variant> {
        match (self.special_ids.total_rounds_played, self.rules_entity_id) {
            (Some(p), Some(e)) => match self.prop(p, e) {
                Ok(Variant::I32(v)) => Some(Variant::I32(v.wrapping_add(1))),
                _ => None,
            },
            _ => None,
        }
    }

    /// Whether a player is listed under pawn id `id`.
    pub open spec fn player_known(self, id: i32) -> bool {
        players_view(self.players@).contains_key(id)
    }

    /// Property `prop_id` of entity `entity_id`; an unknown entity or
    /// property is an error of its own.
    pub fn get_prop_from_ent(&self, prop_id: u32, entity_id: i32) -> (r: Result<Variant, PropCollectionError>)
        ensures
            same_outcome(r, self.prop(prop_id, entity_id)),
    {
        let i = entity_id as usize;
        if i >= self.entities.len() {
            return Err(PropCollectionError::GetPropFromEntEntityNotFound);
        }
        match &self.entities[i] {
            None => Err(PropCollectionError::GetPropFromEntEntityNotFound),
            Some(e) => match e.props.get(&prop_id) {
                Some(v) => Ok(clone_variant(v)),
                None => Err(PropCollectionError::GetPropFromEntPropNotFound),
            },
        }
    }

    /// Property `prop_id` of entity `entity_id`, where the id is known and
    /// the property is there.
    pub fn get_prop_variant(&self, prop_id: Option<u32>, entity_id: i32) -> (r: Option<Variant>)
        ensures
            same_option(r, self.prop_opt(prop_id, entity_id)),
    {
        match prop_id {
            Some(id) => match self.get_prop_from_ent(id, entity_id) {
                Ok(v) => Some(v),
                Err(_) => None,
            },
            None => None,
        }
    }

    /// The player listed under pawn id `entity_id`.
    pub fn find_player_metadata(&self, entity_id: i32) -> (r: Result<&PlayerMetaData, PropCollectionError>)
        ensures
            self.player_known(entity_id) ==> (r matches Ok(m) && meta_view(*m) == players_view(self.players@)[entity_id]
                && *m == self.players@[last_with_id(self.players@, entity_id)->Some_0].1),
            !self.player_known(entity_id) ==> r == Err::<&PlayerMetaData, PropCollectionError>(PropCollectionError::PlayerNotFound),
    {
        proof {
            lemma_last_with_id(self.players@, entity_id);
        }
        let ghost p = self.players@;
        let mut i: usize = self.players.len();
        assert(p.take(p.len() as int) =~= p);
        while i > 0
            invariant
                i <= p.len(),
                p == self.players@,
                last_with_id(p, entity_id) == last_with_id(p.take(i as int), entity_id),
            decreases i,
        {
            assert(p.take(i as int).last() == p[i - 1]);
            if self.players[i - 1].0 == entity_id {
                assert(last_with_id(p, entity_id) == Some(i - 1));
                proof {
                    lemma_last_with_id(p, entity_id);
                }
                return Ok(&self.players[i - 1].1);
            }
            assert(p.take(i as int).drop_last() =~= p.take(i - 1));
            i -= 1;
        }
        assert(p.take(0) =~= Seq::<(i32, PlayerMetaData)>::empty());
        Err(PropCollectionError::PlayerNotFound)
    }

    /// The player whose controller is entity `controller_id`: the first
    /// such in order of pawn id.
    pub fn find_user_by_controller_id(&self, controller_id: i32) -> (r: Option<&PlayerMetaData>)
        ensures
            match first_with_controller(self.players@, controller_id) {
                Some(j) => r == Some(&self.players@[j].1),
                None => r is None,
            },
    {
        let ghost p = self.players@;
        let mut i: usize = 0;
        assert(p.skip(0) =~= p);
        while i < self.players.len()
            invariant
                i <= p.len(),
                p == self.players@,
                first_with_controller(p, controller_id) == match first_with_controller(p.skip(i as int), controller_id) {
                    Some(k) => Some(k + i),
                    None => None,
                },
            decreases p.len() - i,
        {
            assert(p.skip(i as int)[0] == p[i as int]);
            if self.players[i].1.controller_entid == Some(controller_id) {
                return Some(&self.players[i].1);
            }
            assert(p.skip(i as int).drop_first() =~= p.skip(i + 1));
            i += 1;
        }
        assert(p.skip(i as int).len() == 0);
        None
    }

    /// The steam ids of the players whose controllers are the entities
    /// `1..=16` that `mask` has bits for; 0 for a player without one.
    pub fn steamids_from_mask(&self, mask: u32) -> (r: Vec<u64>)
        ensures
            r@ == mask_steamids(self.players@, mask, 16),
    {
        let mut out: Vec<u64> = Vec::new();
        let mut i: u32 = 0;
        while i < 16
            invariant
                i <= 16,
                out@ == mask_steamids(self.players@, mask, i as nat),
            decreases 16 - i,
        {
            if mask & (1u32 << i) != 0 {
                match self.find_user_by_controller_id((i + 1) as i32) {
                    Some(user) => {
                        let s = match user.steamid {
                            Some(s) => s,
                            None => 0,
                        };
                        out.push(s);
                    },
                    None => {},
                }
            }
            i += 1;
        }
        out
    }

    /// The players property `prop_id` of entity `entity_id` marks as
    /// spotted, by steam id.
    pub fn find_spotted(&self, entity_id: i32, prop_id: u32) -> (r: Result<Variant, PropCollectionError>)
        ensures
            match self.prop(prop_id, entity_id) {
                Err(e) => r == Err::<Variant, PropCollectionError>(e),
                Ok(Variant::U32(mask)) => r matches Ok(Variant::U64Vec(v)) && v@ == mask_steamids(self.players@, mask, 16),
                Ok(_) => r == Err::<Variant, PropCollectionError>(PropCollectionError::SpottedIncorrectVariant),
            },
    {
        match self.get_prop_from_ent(prop_id, entity_id) {
            Err(e) => Err(e),
            Ok(Variant::U32(mask)) => Ok(Variant::U64Vec(self.steamids_from_mask(mask))),
            Ok(_) => Err(PropCollectionError::SpottedIncorrectVariant),
        }
    }

    /// A player's steam id as a value; 0 where it is not known.
    pub fn create_steamid(&self, player: &PlayerMetaData) -> (r: Result<Variant, PropCollectionError>)
        ensures
            r == Ok::<Variant, PropCollectionError>(Variant::U64(match player.steamid { Some(s) => s, None => 0 })),
    {
        match player.steamid {
            Some(s) => Ok(Variant::U64(s)),
            None => Ok(Variant::U64(0)),
        }
    }

    /// A player's name as a value; `PlayerMetaDataNameNone` where it is not
    /// known.
    pub fn create_name(&self, player: &PlayerMetaData) -> (r: Result<Variant, PropCollectionError>)
        ensures
            match player.name {
                Some(n) => r matches Ok(Variant::String(s)) && s@ == n@,
                None => r == Err::<Variant, PropCollectionError>(PropCollectionError::PlayerMetaDataNameNone),
            },
    {
        match &player.name {
            Some(n) => Ok(Variant::String(n.clone())),
            None => Err(PropCollectionError::PlayerMetaDataNameNone),
        }
    }

    /// Property `prop_id` of a player's controller.
    pub fn get_controller_prop(&self, prop_id: u32, player: &PlayerMetaData) -> (r: Result<Variant, PropCollectionError>)
        ensures
            match player.controller_entid {
                None => r == Err::<Variant, PropCollectionError>(PropCollectionError::ControllerEntityIdNotSet),
                Some(c) => same_outcome(r, self.prop(prop_id, c)),
            },
    {
        match player.controller_entid {
            None => Err(PropCollectionError::ControllerEntityIdNotSet),
            Some(c) => self.get_prop_from_ent(prop_id, c),
        }
    }

    /// Property `prop_id` of the game rules entity.
    pub fn get_rules_prop(&self, prop_id: u32) -> (r: Result<Variant, PropCollectionError>)
        ensures
            match self.rules_entity_id {
                None => r == Err::<Variant, PropCollectionError>(PropCollectionError::RulesEntityIdNotSet),
                Some(e) => same_outcome(r, self.prop(prop_id, e)),
            },
    {
        match self.rules_entity_id {
            None => Err(PropCollectionError::RulesEntityIdNotSet),
            Some(e) => self.get_prop_from_ent(prop_id, e),
        }
    }

    /// The entity that owns grenade `entity_id`, from its owner handle.
    pub fn find_owner_entid(&self, entity_id: i32) -> (r: Result<u32, PropCollectionError>)
        ensures
            r == self.owner_of(entity_id),
    {
        let o = match self.special_ids.grenade_owner_id {
            Some(o) => o,
            None => return Err(PropCollectionError::GrenadeOwnerIdNotSet),
        };
        match self.get_prop_from_ent(o, entity_id) {
            Err(e) => Err(e),
            Ok(Variant::U32(p)) => Ok(p & 0x7ffu32),
            Ok(_) => Err(PropCollectionError::GrenadeOwnerIdPropIncorrectVariant),
        }
    }

    /// The steam id of the player who threw grenade `entity_id`; 0 where
    /// the player has none.
    pub fn find_thrower_steamid(&self, entity_id: i32) -> (r: Result<u64, PropCollectionError>)
        ensures
            match self.owner_of(entity_id) {
                Err(e) => r == Err::<u64, PropCollectionError>(e),
                Ok(o) => if self.player_known(o as i32) {
                    r == Ok::<u64, PropCollectionError>(match players_view(self.players@)[o as i32].1 {
                        Some(s) => s,
                        None => 0,
                    })
                } else {
                    r == Err::<u64, PropCollectionError>(PropCollectionError::PlayerNotFound)
                },
            },
    {
        let o = self.find_owner_entid(entity_id)?;
        let m = self.find_player_metadata(o as i32)?;
        match m.steamid {
            Some(s) => Ok(s),
            None => Ok(0),
        }
    }

    /// The name of the player who threw grenade `entity_id`.
    pub fn find_thrower_name(&self, entity_id: i32) -> (r: Result<String, PropCollectionError>)
        ensures
            match self.owner_of(entity_id) {
                Err(e) => r == Err::<String, PropCollectionError>(e),
                Ok(o) => if self.player_known(o as i32) {
                    match players_view(self.players@)[o as i32].3 {
                        Some(n) => r matches Ok(s) && s@ == n,
                        None => r == Err::<String, PropCollectionError>(PropCollectionError::PlayerMetaDataNameNone),
                    }
                } else {
                    r == Err::<String, PropCollectionError>(PropCollectionError::PlayerNotFound)
                },
            },
    {
        let o = self.find_owner_entid(entity_id)?;
        let m = self.find_player_metadata(o as i32)?;
        match &m.name {
            Some(n) => Ok(n.clone()),
            None => Err(PropCollectionError::PlayerMetaDataNameNone),
        }
    }

    /// Property `prop` of the weapon that entity `entity_id` holds; a
    /// missing weapon entity or property is an error of its own.
    pub fn find_weapon_prop(&self, prop: u32, entity_id: i32) -> (r: Result<Variant, PropCollectionError>)
        ensures
            same_outcome(r, self.weapon_prop(prop, entity_id)),
    {
        let w = match self.special_ids.active_weapon {
            Some(w) => w,
            None => return Err(PropCollectionError::SpecialidsActiveWeaponNotSet),
        };
        match self.get_prop_from_ent(w, entity_id) {
            Err(e) => Err(e),
            Ok(Variant::U32(h)) => {
                let weapon = entity_of_handle(h);
                match self.get_prop_from_ent(prop, weapon) {
                    Ok(v) => Ok(v),
                    Err(PropCollectionError::GetPropFromEntEntityNotFound) => Err(PropCollectionError::WeaponEntityNotFound),
                    Err(PropCollectionError::GetPropFromEntPropNotFound) => Err(PropCollectionError::WeaponEntityWantedPropNotFound),
                    Err(e) => Err(e),
                }
            },
            Ok(_) => Err(PropCollectionError::WeaponHandleIncorrectVariant),
        }
    }

    /// The weapon entity that entity `entity_id` holds.
    pub fn find_active_weapon(&self, entity_id: i32) -> (r: Result<i32, PropCollectionError>)
        ensures
            r == self.active_weapon(entity_id),
    {
        let w = match self.special_ids.active_weapon {
            Some(w) => w,
            None => return Err(PropCollectionError::SpecialidsActiveWeaponNotSet),
        };
        match self.get_prop_from_ent(w, entity_id) {
            Err(e) => Err(e),
            Ok(Variant::U32(h)) => Ok(entity_of_handle(h)),
            Ok(_) => Err(PropCollectionError::WeaponHandleIncorrectVariant),
        }
    }

    /// Property `prop` of the team entity of entity `entity_id`'s team.
    pub fn find_team_prop(&self, prop: u32, entity_id: i32) -> (r: Result<Variant, PropCollectionError>)
        ensures
            same_outcome(r, self.team_prop(prop, entity_id)),
    {
        let t = match self.special_ids.player_team_pointer {
            Some(t) => t,
            None => return Err(PropCollectionError::SpecialidsPlayerTeamPointerNotSet),
        };
        match self.get_prop_from_ent(t, entity_id) {
            Err(e) => Err(e),
            Ok(Variant::U32(n)) => {
                let team = if n == 1 {
                    self.teams.team1_entid
                } else if n == 2 {
                    self.teams.team2_entid
                } else if n == 3 {
                    self.teams.team3_entid
                } else {
                    return Err(PropCollectionError::IllegalTeamValue);
                };
                match team {
                    None => Err(PropCollectionError::TeamEntityIdNotSet),
                    Some(eid) => self.get_prop_from_ent(prop, eid),
                }
            },
            Ok(_) => Err(PropCollectionError::TeamNumIncorrectVariant),
        }
    }

    /// The name of the weapon entity `entity_id` holds, from its
    /// definition index by table `weapon_names`.
    pub fn find_weapon_name(&self, entity_id: i32, weapon_names: &Vec<(u32, String)>) -> (r: Result<Variant, PropCollectionError>)
        ensures
            match self.special_ids.item_def {
                None => r == Err::<Variant, PropCollectionError>(PropCollectionError::SpecialidsItemDefNotSet),
                Some(d) => match self.weapon_prop(d, entity_id) {
                    Err(e) => r == Err::<Variant, PropCollectionError>(e),
                    Ok(Variant::U32(k)) => match name_for(weapon_names@, k) {
                        Some(n) => r matches Ok(Variant::String(s)) && s@ == n,
                        None => r == Err::<Variant, PropCollectionError>(PropCollectionError::WeaponIdxMappingNotFound),
                    },
                    Ok(_) => r == Err::<Variant, PropCollectionError>(PropCollectionError::WeaponDefVariantWrongType),
                },
            },
    {
        let d = match self.special_ids.item_def {
            Some(d) => d,
            None => return Err(PropCollectionError::SpecialidsItemDefNotSet),
        };
        match self.find_weapon_prop(d, entity_id) {
            Err(e) => Err(e),
            Ok(Variant::U32(k)) => match lookup_name(weapon_names, k) {
                Some(n) => Ok(Variant::String(n)),
                None => Err(PropCollectionError::WeaponIdxMappingNotFound),
            },
            Ok(_) => Err(PropCollectionError::WeaponDefVariantWrongType),
        }
    }

    /// The entity that owns the bomb, from the bomb's owner handle.
    pub fn find_c4_owner(&self) -> (r: Option<i32>)
        ensures
            r == self.c4_owner(),
    {
        let c4 = match self.c4_entity_id {
            Some(c) => c,
            None => return None,
        };
        let o = match self.special_ids.h_owner_entity {
            Some(o) => o,
            None => return None,
        };
        match self.get_prop_from_ent(o, c4) {
            Ok(Variant::U32(u)) => Some(entity_of_handle(u)),
            _ => None,
        }
    }

    /// An entity is alive exactly when the life-state id is known and the
    /// entity is there with that property holding `U32(0)`; any other
    /// life state, a missing property, a value of another kind, an unknown
    /// entity or an unknown id is not alive.
    pub proof fn law_alive_iff_life_state_zero(&self, entity_id: i32)
        ensures
            self.is_alive(entity_id) <==> (self.special_ids.life_state matches Some(l)
                && entity_at(self.entities@, entity_id) matches Some(e)
                && e.props@.contains_key(l)
                && e.props@[l] == Variant::U32(0)),
    {
    }

    /// The team entity of a player is the one its team number names: team
    /// 1, 2 or 3 of the known teams, whose property is read; another number
    /// is an illegal team value.
    pub proof fn law_team_prop_reads_the_numbered_team(&self, prop: u32, entity_id: i32, t: u32, n: u32)
        requires
            self.special_ids.player_team_pointer == Some(t),
            self.prop(t, entity_id) == Ok::<Variant, PropCollectionError>(Variant::U32(n)),
        ensures
            (n == 1 && self.teams.team1_entid is Some)
                ==> self.team_prop(prop, entity_id) == self.prop(prop, self.teams.team1_entid->Some_0),
            (n == 2 && self.teams.team2_entid is Some)
                ==> self.team_prop(prop, entity_id) == self.prop(prop, self.teams.team2_entid->Some_0),
            (n == 3 && self.teams.team3_entid is Some)
                ==> self.team_prop(prop, entity_id) == self.prop(prop, self.teams.team3_entid->Some_0),
            (n == 1 && self.teams.team1_entid is None) || (n == 2 && self.teams.team2_entid is None)
                || (n == 3 && self.teams.team3_entid is None)
                ==> self.team_prop(prop, entity_id) == Err::<Variant, PropCollectionError>(PropCollectionError::TeamEntityIdNotSet),
            (n < 1 || n > 3) ==> self.team_prop(prop, entity_id)
                == Err::<Variant, PropCollectionError>(PropCollectionError::IllegalTeamValue),
    {
    }

    /// The round being played is one more than the rounds the rules entity
    /// counts as played.
    pub proof fn law_current_round_follows_rounds_played(&self, p: u32, r: i32, v: i32)
        requires
            self.special_ids.total_rounds_played == Some(p),
            self.rules_entity_id == Some(r),
            self.prop(p, r) == Ok::<Variant, PropCollectionError>(Variant::I32(v)),
            v < i32::MAX,
        ensures
            self.current_round() == Some(Variant::I32((v + 1) as i32)),
    {
    }

    /// Without the count of rounds played or the rules entity there is no
    /// current round.
    pub proof fn law_no_round_without_rules(&self)
        ensures
            self.special_ids.total_rounds_played is None || self.rules_entity_id is None ==> self.current_round() is None,
    {
    }

    /// A grenade's owner is the entity its owner handle points at: the
    /// handle's value modulo 2048.
    pub proof fn law_owner_is_handle_low_bits(&self, entity_id: i32, o: u32, p: u32)
        requires
            self.special_ids.grenade_owner_id == Some(o),
            self.prop(o, entity_id) == Ok::<Variant, PropCollectionError>(Variant::U32(p)),
        ensures
            self.owner_of(entity_id) == Ok::<u32, PropCollectionError>(p % 2048),
    {
        assert(p & 0x7ff == p % 2048) by (bit_vector);
    }

    /// The bomb's carrier is the entity the bomb's owner handle points at:
    /// the handle's value modulo 2048.
    pub proof fn law_c4_owner_is_handle_low_bits(&self, c4: i32, o: u32, u: u32)
        requires
            self.c4_entity_id == Some(c4),
            self.special_ids.h_owner_entity == Some(o),
            self.prop(o, c4) == Ok::<Variant, PropCollectionError>(Variant::U32(u)),
        ensures
            self.c4_owner() == Some((u % 2048) as i32),
    {
        assert(u & 0x7ff == u % 2048) by (bit_vector);
    }

    /// A weapon property is read from the entity that the holder's active
    /// weapon handle points at, the handle's value modulo 2048.
    pub proof fn law_weapon_prop_reads_the_held_weapon(&self, prop: u32, entity_id: i32, w: u32, h: u32)
        requires
            self.special_ids.active_weapon == Some(w),
            self.prop(w, entity_id) == Ok::<Variant, PropCollectionError>(Variant::U32(h)),
        ensures
            self.active_weapon(entity_id) == Ok::<i32, PropCollectionError>((h % 2048) as i32),
            self.prop(prop, (h % 2048) as i32) matches Ok(v) ==> self.weapon_prop(prop, entity_id) == Ok::<Variant, PropCollectionError>(v),
    {
        assert(h & 0x7ff == h % 2048) by (bit_vector);
    }

    /// Whether entity `entity_id` is alive: its life state is 0.
    pub fn find_is_alive(&self, entity_id: i32) -> (r: bool)
        ensures
            r == self.is_alive(entity_id),
    {
        match self.special_ids.life_state {
            Some(l) => match self.get_prop_from_ent(l, entity_id) {
                Ok(Variant::U32(v)) => v == 0,
                _ => false,
            },
            None => false,
        }
    }

    /// The round being played: one more than the rounds played so far, as
    /// the game rules entity counts them.
    pub fn find_current_round(&self) -> (r: Option<Variant>)
        ensures
            r == self.current_round(),
    {
        let p = match self.special_ids.total_rounds_played {
            Some(p) => p,
            None => return None,
        };
        let e = match self.rules_entity_id {
            Some(e) => e,
            None => return None,
        };
        match self.get_prop_from_ent(p, e) {
            Ok(Variant::I32(v)) => Some(Variant::I32(v.wrapping_add(1))),
            _ => None,
        }
    }
    /// The properties of entity `entity_id` that its bookkeeping reads.
    pub open spec fn extra_props(self, entity_id: i32) -> ExtraProps {
        ExtraProps {
            team_team_num: self.prop_opt(self.special_ids.team_team_num, entity_id),
            team_num: self.prop_opt(self.special_ids.teamnum, entity_id),
            player_name: self.prop_opt(self.special_ids.player_name, entity_id),
            steamid: self.prop_opt(self.special_ids.steamid, entity_id),
            player_pawn: self.prop_opt(self.special_ids.player_pawn, entity_id),
        }
    }

    /// Records what entity `entity_id`'s properties say of the teams and
    /// players, as `gathered` says; an unknown entity is `EntityNotFound`.
    pub fn gather_extra_info(&mut self, entity_id: i32, is_baseline: bool) -> (r: Result<(), DemoParserError>)
        requires
            sorted_keys(old(self).players@),
        ensures
            sorted_keys(final(self).players@),
            final(self).entities@ == old(self).entities@,
            final(self).special_ids == old(self).special_ids,
            final(self).rules_entity_id == old(self).rules_entity_id,
            final(self).c4_entity_id == old(self).c4_entity_id,
            final(self).tick == old(self).tick,
            match entity_at(old(self).entities@, entity_id) {
                None => r == Err::<(), DemoParserError>(DemoParserError::EntityNotFound)
                    && final(self).teams == old(self).teams && final(self).players@ == old(self).players@,
                Some(e) => gathered(old(self).teams, old(self).players@, entity_id, e.entity_type, is_baseline,
                    old(self).extra_props(entity_id), final(self).teams, final(self).players@, r),
            },
            distinct_steamids(players_view(old(self).players@)) ==> distinct_steamids(players_view(final(self).players@)),
    {
        let i = entity_id as usize;
        if i >= self.entities.len() {
            return Err(DemoParserError::EntityNotFound);
        }
        let entity_type = match &self.entities[i] {
            Some(e) => e.entity_type,
            None => return Err(DemoParserError::EntityNotFound),
        };
        let props = ExtraProps {
            team_team_num: self.get_prop_variant(self.special_ids.team_team_num, entity_id),
            team_num: self.get_prop_variant(self.special_ids.teamnum, entity_id),
            player_name: self.get_prop_variant(self.special_ids.player_name, entity_id),
            steamid: self.get_prop_variant(self.special_ids.steamid, entity_id),
            player_pawn: self.get_prop_variant(self.special_ids.player_pawn, entity_id),
        };
        let ghost s0 = *self;
        proof {
            assert(props_agree(props, s0.extra_props(entity_id)));
        }
        let r = gather_extra_info(&mut self.teams, &mut self.players, entity_id, entity_type, is_baseline, &props);
        proof {
            lemma_gathered_agree(s0.teams, s0.players@, entity_id, entity_type, is_baseline, props,
                s0.extra_props(entity_id), self.teams, self.players@, r);
            if distinct_steamids(players_view(s0.players@)) {
                law_gather_keeps_steamids_distinct(s0.teams, s0.players@, entity_id, entity_type, is_baseline,
                    s0.extra_props(entity_id), self.teams, self.players@, r);
            }
        }
        r
    }
}

} // verus!
