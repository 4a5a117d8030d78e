use vstd::prelude::*;
use crate::variants::{Variant, variant_view};
use crate::game_types::{CoordinateAxis, PropCollectionError};
use crate::prop_controller::{SpecialIDs, special_after, law_special_names_set_their_ids};
use crate::sendtables::Serializer;
use crate::lookup::{first_value, find_index, lemma_first_index};
use crate::strings::str_eq;
use crate::entity_state::{EntityState, entity_at};
use crate::player_meta::players_view;

verus! {

/// Where a grenade was at one tick: its thrower, position (as `f32` bit
/// patterns), tick, kind and entity.
#[derive(Debug)]
pub struct ProjectileRecord {
    pub steamid: Option<u64>,
    pub name: Option<String>,
    pub x: Option<u32>,
    pub y: Option<u32>,
    pub z: Option<u32>,
    pub tick: Option<i32>,
    pub grenade_type: Option<String>,
    pub entity_id: Option<i32>,
}

/// What a position is worked out from: the cell and the offset into it.
/// Both must be there, the cell a `U32` and the offset an `F32`.
pub open spec fn coord_parts(cell: Result<Variant, PropCollectionError>, offset: Result<Variant, PropCollectionError>)
    -> Result<(u32, u32), PropCollectionError> {
    match (offset, cell) {
        (Ok(Variant::F32(o)), Ok(Variant::U32(c))) => Ok((c, o)),
        (Err(_), Err(_)) => Err(PropCollectionError::CoordinateBothNone),
        (Ok(Variant::F32(_)), Err(_)) => Err(PropCollectionError::CoordinateCellNone),
        (Err(_), Ok(Variant::U32(_))) => Err(PropCollectionError::CoordinateOffsetNone),
        _ => Err(PropCollectionError::CoordinateIncorrectTypes),
    }
}

/// Two outcomes that agree give the same parts.
proof fn lemma_parts_agree(a: Result<Variant, PropCollectionError>, b: Result<Variant, PropCollectionError>,
    c: Result<Variant, PropCollectionError>, d: Result<Variant, PropCollectionError>)
    requires
        a is Err <==> c is Err,
        b is Err <==> d is Err,
        a is Ok ==> variant_view(a->Ok_0) == variant_view(c->Ok_0),
        b is Ok ==> variant_view(b->Ok_0) == variant_view(d->Ok_0),
    ensures
        coord_parts(a, b) == coord_parts(c, d),
{
}

/// The position along one axis from a cell and an offset: the floating-point
/// step, from cell number and offset bits to position bits, is `place`.
pub fn coord_from_cell<F: Fn(u32, u32) -> u32>(cell: Result<Variant, PropCollectionError>,
    offset: Result<Variant, PropCollectionError>, place: &F) -> (r: Result<u32, PropCollectionError>)
    requires
        forall|c: u32, o: u32| place.requires((c, o)),
    ensures
        match coord_parts(cell, offset) {
            Ok((c, o)) => r matches Ok(b) && place.ensures((c, o), b),
            Err(e) => r == Err::<u32, PropCollectionError>(e),
        },
{
    match (offset, cell) {
        (Ok(Variant::F32(o)), Ok(Variant::U32(c))) => Ok(place(c, o)),
        (Err(_), Err(_)) => Err(PropCollectionError::CoordinateBothNone),
        (Ok(Variant::F32(_)), Err(_)) => Err(PropCollectionError::CoordinateCellNone),
        (Err(_), Ok(Variant::U32(_))) => Err(PropCollectionError::CoordinateOffsetNone),
        _ => Err(PropCollectionError::CoordinateIncorrectTypes),
    }
}

/// The ids of the cell and offset properties of a grenade's position along
/// `axis`, or the error for the one that is not known.
pub open spec fn grenade_cell_ids(ids: SpecialIDs, axis: CoordinateAxis) -> Result<(u32, u32), PropCollectionError> {
    match axis {
        CoordinateAxis::X => match (ids.cell_x_grenade, ids.cell_x_offset_grenade) {
            (None, _) => Err(PropCollectionError::GrenadeSpecialIDCellXMissing),
            (_, None) => Err(PropCollectionError::GrenadeSpecialIDOffsetXMissing),
            (Some(c), Some(o)) => Ok((c, o)),
        },
        CoordinateAxis::Y => match (ids.cell_y_grenade, ids.cell_y_offset_grenade) {
            (None, _) => Err(PropCollectionError::GrenadeSpecialIDCellYMissing),
            (_, None) => Err(PropCollectionError::GrenadeSpecialIDOffsetYMissing),
            (Some(c), Some(o)) => Ok((c, o)),
        },
        CoordinateAxis::Z => match (ids.cell_z_grenade, ids.cell_z_offset_grenade) {
            (None, _) => Err(PropCollectionError::GrenadeSpecialIDCellZMissing),
            (_, None) => Err(PropCollectionError::GrenadeSpecialIDOffsetZMissing),
            (Some(c), Some(o)) => Ok((c, o)),
        },
    }
}

/// The ids of the cell and offset properties of a player's position along
/// `axis`, or the error for the one that is not known.
pub open spec fn player_cell_ids(ids: SpecialIDs, axis: CoordinateAxis) -> Result<(u32, u32), PropCollectionError> {
    match axis {
        CoordinateAxis::X => match (ids.cell_x_player, ids.cell_x_offset_player) {
            (None, _) => Err(PropCollectionError::PlayerSpecialIDCellXMissing),
            (_, None) => Err(PropCollectionError::PlayerSpecialIDOffsetXMissing),
            (Some(c), Some(o)) => Ok((c, o)),
        },
        CoordinateAxis::Y => match (ids.cell_y_player, ids.cell_y_offset_player) {
            (None, _) => Err(PropCollectionError::PlayerSpecialIDCellYMissing),
            (_, None) => Err(PropCollectionError::PlayerSpecialIDOffsetYMissing),
            (Some(c), Some(o)) => Ok((c, o)),
        },
        CoordinateAxis::Z => match (ids.cell_z_player, ids.cell_z_offset_player) {
            (None, _) => Err(PropCollectionError::PlayerSpecialIDCellZMissing),
            (_, None) => Err(PropCollectionError::PlayerSpecialIDOffsetZMissing),
            (Some(c), Some(o)) => Ok((c, o)),
        },
    }
}

/// The ids used for a player's position along an axis are that axis's
/// own: the cell and offset ids of X for X, of Y for Y and of Z for Z. A
/// missing cell id is reported before a missing offset id, each naming its
/// axis.
pub proof fn law_player_axis_ids(ids: SpecialIDs)
    ensures
        match (ids.cell_x_player, ids.cell_x_offset_player) {
            (Some(c), Some(o)) => player_cell_ids(ids, CoordinateAxis::X) == Ok::<(u32, u32), PropCollectionError>((c, o)),
            (None, _) => player_cell_ids(ids, CoordinateAxis::X)
                == Err::<(u32, u32), PropCollectionError>(PropCollectionError::PlayerSpecialIDCellXMissing),
            (Some(_), None) => player_cell_ids(ids, CoordinateAxis::X)
                == Err::<(u32, u32), PropCollectionError>(PropCollectionError::PlayerSpecialIDOffsetXMissing),
        },
        match (ids.cell_y_player, ids.cell_y_offset_player) {
            (Some(c), Some(o)) => player_cell_ids(ids, CoordinateAxis::Y) == Ok::<(u32, u32), PropCollectionError>((c, o)),
            (None, _) => player_cell_ids(ids, CoordinateAxis::Y)
                == Err::<(u32, u32), PropCollectionError>(PropCollectionError::PlayerSpecialIDCellYMissing),
            (Some(_), None) => player_cell_ids(ids, CoordinateAxis::Y)
                == Err::<(u32, u32), PropCollectionError>(PropCollectionError::PlayerSpecialIDOffsetYMissing),
        },
        match (ids.cell_z_player, ids.cell_z_offset_player) {
            (Some(c), Some(o)) => player_cell_ids(ids, CoordinateAxis::Z) == Ok::<(u32, u32), PropCollectionError>((c, o)),
            (None, _) => player_cell_ids(ids, CoordinateAxis::Z)
                == Err::<(u32, u32), PropCollectionError>(PropCollectionError::PlayerSpecialIDCellZMissing),
            (Some(_), None) => player_cell_ids(ids, CoordinateAxis::Z)
                == Err::<(u32, u32), PropCollectionError>(PropCollectionError::PlayerSpecialIDOffsetZMissing),
        },
{
}

/// The ids used for a grenade's position along an axis are that axis's
/// own, as for players.
pub proof fn law_grenade_axis_ids(ids: SpecialIDs)
    ensures
        match (ids.cell_x_grenade, ids.cell_x_offset_grenade) {
            (Some(c), Some(o)) => grenade_cell_ids(ids, CoordinateAxis::X) == Ok::<(u32, u32), PropCollectionError>((c, o)),
            (None, _) => grenade_cell_ids(ids, CoordinateAxis::X)
                == Err::<(u32, u32), PropCollectionError>(PropCollectionError::GrenadeSpecialIDCellXMissing),
            (Some(_), None) => grenade_cell_ids(ids, CoordinateAxis::X)
                == Err::<(u32, u32), PropCollectionError>(PropCollectionError::GrenadeSpecialIDOffsetXMissing),
        },
        match (ids.cell_y_grenade, ids.cell_y_offset_grenade) {
            (Some(c), Some(o)) => grenade_cell_ids(ids, CoordinateAxis::Y) == Ok::<(u32, u32), PropCollectionError>((c, o)),
            (None, _) => grenade_cell_ids(ids, CoordinateAxis::Y)
                == Err::<(u32, u32), PropCollectionError>(PropCollectionError::GrenadeSpecialIDCellYMissing),
            (Some(_), None) => grenade_cell_ids(ids, CoordinateAxis::Y)
                == Err::<(u32, u32), PropCollectionError>(PropCollectionError::GrenadeSpecialIDOffsetYMissing),
        },
        match (ids.cell_z_grenade, ids.cell_z_offset_grenade) {
            (Some(c), Some(o)) => grenade_cell_ids(ids, CoordinateAxis::Z) == Ok::<(u32, u32), PropCollectionError>((c, o)),
            (None, _) => grenade_cell_ids(ids, CoordinateAxis::Z)
                == Err::<(u32, u32), PropCollectionError>(PropCollectionError::GrenadeSpecialIDCellZMissing),
            (Some(_), None) => grenade_cell_ids(ids, CoordinateAxis::Z)
                == Err::<(u32, u32), PropCollectionError>(PropCollectionError::GrenadeSpecialIDOffsetZMissing),
        },
{
}

/// A player's position along an axis is placed from the values of that
/// entity's properties at the axis's own cell and offset ids, whatever the
/// other axes' ids are: two sets of ids that agree on an axis give the
/// same position parts along it.
pub proof fn law_player_position_uses_its_axis(s: EntityState, t: EntityState, entity_id: i32)
    requires
        s.entities@ == t.entities@,
    ensures
        (s.special_ids.cell_x_player == t.special_ids.cell_x_player
            && s.special_ids.cell_x_offset_player == t.special_ids.cell_x_offset_player)
            ==> s.position_parts(player_cell_ids(s.special_ids, CoordinateAxis::X), entity_id)
                == t.position_parts(player_cell_ids(t.special_ids, CoordinateAxis::X), entity_id),
        (s.special_ids.cell_y_player == t.special_ids.cell_y_player
            && s.special_ids.cell_y_offset_player == t.special_ids.cell_y_offset_player)
            ==> s.position_parts(player_cell_ids(s.special_ids, CoordinateAxis::Y), entity_id)
                == t.position_parts(player_cell_ids(t.special_ids, CoordinateAxis::Y), entity_id),
        (s.special_ids.cell_z_player == t.special_ids.cell_z_player
            && s.special_ids.cell_z_offset_player == t.special_ids.cell_z_offset_player)
            ==> s.position_parts(player_cell_ids(s.special_ids, CoordinateAxis::Z), entity_id)
                == t.position_parts(player_cell_ids(t.special_ids, CoordinateAxis::Z), entity_id),
{
    law_player_axis_ids(s.special_ids);
    law_player_axis_ids(t.special_ids);
}

/// A player's position along each axis is read from the properties named
/// for that axis: once the cell and offset properties of an axis have
/// their ids, the position parts along it come from those ids.
pub proof fn law_player_position_from_named_props(ids: SpecialIDs, c: u32, o: u32)
    ensures
        player_cell_ids(special_after(special_after(ids, "CCSPlayerPawn.CBodyComponentBaseAnimGraph.m_cellX"@, false, Some(c)),
            "CCSPlayerPawn.CBodyComponentBaseAnimGraph.m_vecX"@, false, Some(o)), CoordinateAxis::X)
            == Ok::<(u32, u32), PropCollectionError>((c, o)),
        player_cell_ids(special_after(special_after(ids, "CCSPlayerPawn.CBodyComponentBaseAnimGraph.m_cellY"@, false, Some(c)),
            "CCSPlayerPawn.CBodyComponentBaseAnimGraph.m_vecY"@, false, Some(o)), CoordinateAxis::Y)
            == Ok::<(u32, u32), PropCollectionError>((c, o)),
        player_cell_ids(special_after(special_after(ids, "CCSPlayerPawn.CBodyComponentBaseAnimGraph.m_cellZ"@, false, Some(c)),
            "CCSPlayerPawn.CBodyComponentBaseAnimGraph.m_vecZ"@, false, Some(o)), CoordinateAxis::Z)
            == Ok::<(u32, u32), PropCollectionError>((c, o)),
{
    let axes = seq![
        ("CCSPlayerPawn.CBodyComponentBaseAnimGraph.m_cellX"@, "CCSPlayerPawn.CBodyComponentBaseAnimGraph.m_vecX"@),
        ("CCSPlayerPawn.CBodyComponentBaseAnimGraph.m_cellY"@, "CCSPlayerPawn.CBodyComponentBaseAnimGraph.m_vecY"@),
        ("CCSPlayerPawn.CBodyComponentBaseAnimGraph.m_cellZ"@, "CCSPlayerPawn.CBodyComponentBaseAnimGraph.m_vecZ"@),
    ];
    law_special_names_set_their_ids(ids, Some(c));
    let ax = special_after(ids, axes[0].0, false, Some(c));
    let ay = special_after(ids, axes[1].0, false, Some(c));
    let az = special_after(ids, axes[2].0, false, Some(c));
    law_special_names_set_their_ids(ax, Some(o));
    law_special_names_set_their_ids(ay, Some(o));
    law_special_names_set_their_ids(az, Some(o));
    lemma_offset_keeps_cell(ax, axes[0].1, Some(o));
    lemma_offset_keeps_cell(ay, axes[1].1, Some(o));
    lemma_offset_keeps_cell(az, axes[2].1, Some(o));
    law_player_axis_ids(special_after(ax, axes[0].1, false, Some(o)));
    law_player_axis_ids(special_after(ay, axes[1].1, false, Some(o)));
    law_player_axis_ids(special_after(az, axes[2].1, false, Some(o)));
}

/// Recording a player position offset id leaves the cell ids as they were.
proof fn lemma_offset_keeps_cell(ids: SpecialIDs, name: Seq<char>, id: Option<u32>)
    requires
        name == "CCSPlayerPawn.CBodyComponentBaseAnimGraph.m_vecX"@
            || name == "CCSPlayerPawn.CBodyComponentBaseAnimGraph.m_vecY"@
            || name == "CCSPlayerPawn.CBodyComponentBaseAnimGraph.m_vecZ"@,
    ensures
        special_after(ids, name, false, id).cell_x_player == ids.cell_x_player,
        special_after(ids, name, false, id).cell_y_player == ids.cell_y_player,
        special_after(ids, name, false, id).cell_z_player == ids.cell_z_player,
{
    law_special_names_set_their_ids(ids, id);
}

/// The name of the molotov class whose incendiary kind is told apart.
pub open spec fn molotov_class() -> Seq<char> {
    "CMolotovProjectile"@
}

impl EntityState {
    /// The parts of the position of entity `entity_id` along an axis whose
    /// properties are `ids`.
    pub open spec fn position_parts(self, ids: Result<(u32, u32), PropCollectionError>, entity_id: i32)
        -> Result<(u32, u32), PropCollectionError> {
        match ids {
            Err(e) => Err(e),
            Ok((c, o)) => coord_parts(self.prop(c, entity_id), self.prop(o, entity_id)),
        }
    }

    /// The position of entity `entity_id` along the axis whose properties
    /// are `ids`, with the floating-point step `place`.
    fn cell_coordinate<F: Fn(u32, u32) -> u32>(&self, ids: Result<(u32, u32), PropCollectionError>, entity_id: i32, place: &F)
        -> (r: Result<u32, PropCollectionError>)
        requires
            forall|c: u32, o: u32| place.requires((c, o)),
        ensures
            match self.position_parts(ids, entity_id) {
                Ok((c, o)) => r matches Ok(b) && place.ensures((c, o), b),
                Err(e) => r == Err::<u32, PropCollectionError>(e),
            },
    {
        let (prop_id, offset_id) = match ids {
            Ok(p) => p,
            Err(e) => return Err(e),
        };
        let offset = self.get_prop_from_ent(offset_id, entity_id);
        let cell = self.get_prop_from_ent(prop_id, entity_id);
        proof {
            lemma_parts_agree(cell, offset, self.prop(prop_id, entity_id), self.prop(offset_id, entity_id));
        }
        coord_from_cell(cell, offset, place)
    }

    /// The ids of a grenade position's properties along `axis`.
    fn grenade_ids(&self, axis: CoordinateAxis) -> (r: Result<(u32, u32), PropCollectionError>)
        ensures
            r == grenade_cell_ids(self.special_ids, axis),
    {
        let ids = &self.special_ids;
        let (c, o) = match axis {
            CoordinateAxis::X => (ids.cell_x_grenade, ids.cell_x_offset_grenade),
            CoordinateAxis::Y => (ids.cell_y_grenade, ids.cell_y_offset_grenade),
            CoordinateAxis::Z => (ids.cell_z_grenade, ids.cell_z_offset_grenade),
        };
        match (c, o, axis) {
            (None, _, CoordinateAxis::X) => Err(PropCollectionError::GrenadeSpecialIDCellXMissing),
            (None, _, CoordinateAxis::Y) => Err(PropCollectionError::GrenadeSpecialIDCellYMissing),
            (None, _, CoordinateAxis::Z) => Err(PropCollectionError::GrenadeSpecialIDCellZMissing),
            (_, None, CoordinateAxis::X) => Err(PropCollectionError::GrenadeSpecialIDOffsetXMissing),
            (_, None, CoordinateAxis::Y) => Err(PropCollectionError::GrenadeSpecialIDOffsetYMissing),
            (_, None, CoordinateAxis::Z) => Err(PropCollectionError::GrenadeSpecialIDOffsetZMissing),
            (Some(c), Some(o), _) => Ok((c, o)),
        }
    }

    /// The ids of a player position's properties along `axis`.
    fn player_ids(&self, axis: CoordinateAxis) -> (r: Result<(u32, u32), PropCollectionError>)
        ensures
            r == player_cell_ids(self.special_ids, axis),
    {
        let ids = &self.special_ids;
        let (c, o) = match axis {
            CoordinateAxis::X => (ids.cell_x_player, ids.cell_x_offset_player),
            CoordinateAxis::Y => (ids.cell_y_player, ids.cell_y_offset_player),
            CoordinateAxis::Z => (ids.cell_z_player, ids.cell_z_offset_player),
        };
        match (c, o, axis) {
            (None, _, CoordinateAxis::X) => Err(PropCollectionError::PlayerSpecialIDCellXMissing),
            (None, _, CoordinateAxis::Y) => Err(PropCollectionError::PlayerSpecialIDCellYMissing),
            (None, _, CoordinateAxis::Z) => Err(PropCollectionError::PlayerSpecialIDCellZMissing),
            (_, None, CoordinateAxis::X) => Err(PropCollectionError::PlayerSpecialIDOffsetXMissing),
            (_, None, CoordinateAxis::Y) => Err(PropCollectionError::PlayerSpecialIDOffsetYMissing),
            (_, None, CoordinateAxis::Z) => Err(PropCollectionError::PlayerSpecialIDOffsetZMissing),
            (Some(c), Some(o), _) => Ok((c, o)),
        }
    }

    /// The position of grenade `entity_id` along `axis`, as `f32` bits; the
    /// floating-point step from cell and offset is `place`.
    pub fn collect_cell_coordinate_grenade<F: Fn(u32, u32) -> u32>(&self, axis: CoordinateAxis, entity_id: i32, place: &F)
        -> (r: Result<u32, PropCollectionError>)
        requires
            forall|c: u32, o: u32| place.requires((c, o)),
        ensures
            match self.position_parts(grenade_cell_ids(self.special_ids, axis), entity_id) {
                Ok((c, o)) => r matches Ok(b) && place.ensures((c, o), b),
                Err(e) => r == Err::<u32, PropCollectionError>(e),
            },
    {
        let ids = self.grenade_ids(axis);
        self.cell_coordinate(ids, entity_id, place)
    }

    /// The position of player `entity_id` along `axis`, as an `F32` value;
    /// the floating-point step from cell and offset is `place`.
    pub fn collect_cell_coordinate_player<F: Fn(u32, u32) -> u32>(&self, axis: CoordinateAxis, entity_id: i32, place: &F)
        -> (r: Result<Variant, PropCollectionError>)
        requires
            forall|c: u32, o: u32| place.requires((c, o)),
        ensures
            match self.position_parts(player_cell_ids(self.special_ids, axis), entity_id) {
                Ok((c, o)) => r matches Ok(Variant::F32(b)) && place.ensures((c, o), b),
                Err(e) => r == Err::<Variant, PropCollectionError>(e),
            },
    {
        let ids = self.player_ids(axis);
        match self.cell_coordinate(ids, entity_id, place) {
            Ok(b) => Ok(Variant::F32(b)),
            Err(e) => Err(e),
        }
    }

    /// The kind of grenade entity `entity_id` is: an incendiary molotov is
    /// told apart by its flag, other classes are named by `grenade_names`.
    pub open spec fn grenade_type(self, entity_id: i32, serializers: Seq<Serializer>, grenade_names: Seq<(String, String)>)
        -> Option<Seq<char>> {
        match entity_at(self.entities@, entity_id) {
            None => None,
            Some(ent) => if ent.cls_id as int >= serializers.len() {
                None
            } else {
                let name = serializers[ent.cls_id as int].name@;
                if name == molotov_class() && self.prop_opt(self.special_ids.is_incendiary_grenade, entity_id)
                    == Some(Variant::Bool(true)) {
                    Some("incendiary_grenade"@)
                } else {
                    match first_value(grenade_names, name) {
                        Some(n) => Some(n@),
                        None => None,
                    }
                }
            },
        }
    }

    /// The kind of grenade entity `entity_id` is, as `grenade_type` says;
    /// the class of an entity is found among `serializers` by its class id.
    pub fn find_grenade_type(&self, entity_id: i32, serializers: &Vec<Serializer>, grenade_names: &Vec<(String, String)>)
        -> (r: Option<String>)
        ensures
            match self.grenade_type(entity_id, serializers@, grenade_names@) {
                Some(n) => r matches Some(s) && s@ == n,
                None => r is None,
            },
    {
        let idx = entity_id as usize;
        if idx >= self.entities.len() {
            return None;
        }
        let ent = match &self.entities[idx] {
            Some(e) => e,
            None => return None,
        };
        let cls = ent.cls_id as usize;
        if cls >= serializers.len() {
            return None;
        }
        let name = serializers[cls].name.as_str();
        if str_eq(name, "CMolotovProjectile") {
            let flag = self.get_prop_variant(self.special_ids.is_incendiary_grenade, entity_id);
            proof {
                reveal_strlit("CMolotovProjectile");
            }
            if let Some(Variant::Bool(true)) = flag {
                proof {
                    reveal_strlit("incendiary_grenade");
                }
                return Some("incendiary_grenade".to_string());
            }
        }
        proof {
            lemma_first_index(grenade_names@, name@);
        }
        match find_index(grenade_names, name) {
            Some(i) => Some(grenade_names[i].1.clone()),
            None => None,
        }
    }

    /// The steam id of the thrower of grenade `entity_id`, where it is
    /// found (0 for a thrower without one).
    pub open spec fn thrower_steamid(self, entity_id: i32) -> Option<u64> {
        match self.owner_of(entity_id) {
            Err(_) => None,
            Ok(o) => if self.player_known(o as i32) {
                match players_view(self.players@)[o as i32].1 {
                    Some(s) => Some(s),
                    None => Some(0),
                }
            } else {
                None
            },
        }
    }

    /// The name of the thrower of grenade `entity_id`, where it is found.
    pub open spec fn thrower_name(self, entity_id: i32) -> Option<Seq<char>> {
        match self.owner_of(entity_id) {
            Err(_) => None,
            Ok(o) => if self.player_known(o as i32) {
                players_view(self.players@)[o as i32].3
            } else {
                None
            },
        }
    }

    /// `x` is the position of grenade `entity_id` along `axis`, where it is
    /// found, with the floating-point step `place`.
    pub open spec fn grenade_position<F: Fn(u32, u32) -> u32>(self, axis: CoordinateAxis, entity_id: i32, place: F, x: Option<u32>) -> bool {
        match self.position_parts(grenade_cell_ids(self.special_ids, axis), entity_id) {
            Ok((c, o)) => x matches Some(b) && place.ensures((c, o), b),
            Err(_) => x is None,
        }
    }

    /// `r` records grenade `entity_id`, of kind `kind`, at this tick.
    pub open spec fn projectile_record<F: Fn(u32, u32) -> u32>(self, r: ProjectileRecord, entity_id: i32, kind: Seq<char>, place: F) -> bool {
        &&& r.steamid == self.thrower_steamid(entity_id)
        &&& match r.name { Some(n) => self.thrower_name(entity_id) == Some(n@), None => self.thrower_name(entity_id) is None }
        &&& self.grenade_position(CoordinateAxis::X, entity_id, place, r.x)
        &&& self.grenade_position(CoordinateAxis::Y, entity_id, place, r.y)
        &&& self.grenade_position(CoordinateAxis::Z, entity_id, place, r.z)
        &&& r.tick == Some(self.tick)
        &&& r.grenade_type matches Some(g) && g@ == kind
        &&& r.entity_id == Some(entity_id)
    }

    /// The grenades among `projectiles` whose kind is known, in order, with their kinds.
    pub open spec fn known_projectiles(self, projectiles: Seq<i32>, serializers: Seq<Serializer>,
        grenade_names: Seq<(String, String)>) -> Seq<(i32, Seq<char>)>
        decreases projectiles.len(),
    {
        if projectiles.len() == 0 {
            Seq::empty()
        } else {
            let rest = self.known_projectiles(projectiles.drop_last(), serializers, grenade_names);
            match self.grenade_type(projectiles.last(), serializers, grenade_names) {
                Some(k) => rest.push((projectiles.last(), k)),
                None => rest,
            }
        }
    }

    /// `after` is `before` with a record, at this tick, of each grenade of
    /// `projectiles` whose kind is known, in order.
    pub open spec fn projectiles_recorded<F: Fn(u32, u32) -> u32>(self, before: Seq<ProjectileRecord>, after: Seq<ProjectileRecord>,
        projectiles: Seq<i32>, serializers: Seq<Serializer>, grenade_names: Seq<(String, String)>, place: F) -> bool {
        let known = self.known_projectiles(projectiles, serializers, grenade_names);
        &&& after.len() == before.len() + known.len()
        &&& after.subrange(0, before.len() as int) == before
        &&& forall|j: int| 0 <= j < known.len() ==>
            self.projectile_record(#[trigger] after[before.len() + j], known[j].0, known[j].1, place)
    }

    /// Records, at this tick, each grenade of `projectiles` whose kind is
    /// known, in order: its thrower, position and kind. The positions'
    /// floating-point step is `place`.
    pub fn collect_projectiles<F: Fn(u32, u32) -> u32>(&self, projectiles: &Vec<i32>, serializers: &Vec<Serializer>,
        grenade_names: &Vec<(String, String)>, place: &F, records: &mut Vec<ProjectileRecord>)
        requires
            forall|c: u32, o: u32| place.requires((c, o)),
        ensures
            self.projectiles_recorded(old(records)@, final(records)@, projectiles@, serializers@, grenade_names@, *place),
    {
        let ghost before = records@;
        let mut i: usize = 0;
        assert(records@.subrange(0, before.len() as int) =~= before);
        assert(projectiles@.take(0) =~= Seq::<i32>::empty());
        while i < projectiles.len()
            invariant
                i <= projectiles@.len(),
                forall|c: u32, o: u32| place.requires((c, o)),
                ({
                    let known = self.known_projectiles(projectiles@.take(i as int), serializers@, grenade_names@);
                    &&& records@.len() == before.len() + known.len()
                    &&& records@.subrange(0, before.len() as int) == before
                    &&& forall|j: int| 0 <= j < known.len() ==>
                        self.projectile_record(#[trigger] records@[before.len() + j], known[j].0, known[j].1, *place)
                }),
            decreases projectiles@.len() - i,
        {
            let e = projectiles[i];
            let ghost done = self.known_projectiles(projectiles@.take(i as int), serializers@, grenade_names@);
            assert(projectiles@.take(i + 1).drop_last() =~= projectiles@.take(i as int));
            assert(projectiles@.take(i + 1).last() == e);
            if let Some(grenade_type) = self.find_grenade_type(e, serializers, grenade_names) {
                let steamid = match self.find_thrower_steamid(e) {
                    Ok(s) => Some(s),
                    Err(_) => None,
                };
                let name = match self.find_thrower_name(e) {
                    Ok(n) => Some(n),
                    Err(_) => None,
                };
                let x = match self.collect_cell_coordinate_grenade(CoordinateAxis::X, e, place) {
                    Ok(b) => Some(b),
                    Err(_) => None,
                };
                let y = match self.collect_cell_coordinate_grenade(CoordinateAxis::Y, e, place) {
                    Ok(b) => Some(b),
                    Err(_) => None,
                };
                let z = match self.collect_cell_coordinate_grenade(CoordinateAxis::Z, e, place) {
                    Ok(b) => Some(b),
                    Err(_) => None,
                };
                let ghost prev = records@;
                records.push(ProjectileRecord {
                    steamid,
                    name,
                    x,
                    y,
                    z,
                    tick: Some(self.tick),
                    grenade_type: Some(grenade_type),
                    entity_id: Some(e),
                });
                proof {
                    let next = self.known_projectiles(projectiles@.take(i + 1), serializers@, grenade_names@);
                    assert(next == done.push((e, grenade_type@)));
                    assert(records@.subrange(0, before.len() as int) =~= prev.subrange(0, before.len() as int));
                    assert forall|j: int| 0 <= j < next.len() implies
                        self.projectile_record(#[trigger] records@[before.len() + j], next[j].0, next[j].1, *place) by {
                        if j < done.len() {
                            assert(records@[before.len() + j] == prev[before.len() + j]);
                        }
                    }
                }
            }
            i += 1;
        }
        proof {
            assert(projectiles@.take(i as int) =~= projectiles@);
        }
    }
}

} // verus!
