use vstd::prelude::*;
use crate::variants::{Variant, VarKind, Cell, clone_variant};
use crate::game_types::EventField;
use crate::prop_controller::{PropInfo, PropType};
use crate::player_meta::{option_view, players_view};
use crate::entity_state::{EntityState, ok_of};
use crate::strings::{concat_str, str_eq, decimal, u64_to_decimal};

verus! {

/// A field as a mathematical value: its name and value.
pub type FieldView = (Seq<char>, Option<(VarKind, Cell, bool, bool)>);

/// A field as a mathematical value.
pub open spec fn field_view(f: EventField) -> FieldView {
    (f.name@, option_view(f.data))
}

/// Fields as mathematical values, in order.
pub open spec fn fields_view(fs: Seq<EventField>) -> Seq<FieldView> {
    fs.map_values(|f: EventField| field_view(f))
}

/// A copy of a field.
pub fn copy_field(f: &EventField) -> (r: EventField)
    ensures
        field_view(r) == field_view(*f),
{
    let data = match &f.data {
        Some(v) => Some(clone_variant(v)),
        None => None,
    };
    EventField { name: f.name.clone(), data }
}

/// Appends copies of `extra` to `fields`.
pub fn extend_fields(fields: &mut Vec<EventField>, extra: &Vec<EventField>)
    ensures
        fields_view(final(fields)@) == fields_view(old(fields)@) + fields_view(extra@),
{
    let ghost f0 = fields@;
    let mut i: usize = 0;
    while i < extra.len()
        invariant
            i <= extra@.len(),
            fields_view(fields@) == fields_view(f0) + fields_view(extra@.take(i as int)),
        decreases extra@.len() - i,
    {
        let f = copy_field(&extra[i]);
        let ghost fb = fields@;
        fields.push(f);
        assert(fields_view(fields@) =~= fields_view(fb).push(field_view(f)));
        assert(extra@.take(i + 1) =~= extra@.take(i as int).push(extra@[i as int]));
        assert(fields_view(extra@.take(i + 1)) =~= fields_view(extra@.take(i as int)).push(field_view(extra@[i as int])));
        assert(fields_view(fields@) =~= fields_view(f0) + fields_view(extra@.take(i + 1)));
        i += 1;
    }
    assert(extra@.take(extra@.len() as int) =~= extra@);
}

/// The property names an event already has fields for.
pub open spec fn is_default_event_field(name: Seq<char>) -> bool {
    name == "tick"@ || name == "name"@ || name == "steamid"@
}

/// Whether an event already has a field named `name`.
pub fn is_default_field_name(name: &str) -> (r: bool)
    ensures
        r == is_default_event_field(name@),
{
    str_eq(name, "tick") || str_eq(name, "name") || str_eq(name, "steamid")
}

/// The player properties that get a field of their own in events.
pub open spec fn event_player_prop(p: PropInfo) -> bool {
    p.is_player_prop && !is_default_event_field(p.prop_name@)
}

/// The names of the empty fields of a player that could not be found:
/// steam id, name, and each player property.
pub open spec fn empty_field_names(prefix: Seq<char>, infos: Seq<PropInfo>) -> Seq<FieldView>
    decreases infos.len(),
{
    if infos.len() == 0 {
        seq![(prefix + "_steamid"@, None), (prefix + "_name"@, None)]
    } else {
        let rest = empty_field_names(prefix, infos.drop_last());
        let p = infos.last();
        if event_player_prop(p) {
            rest.push((prefix + "_"@ + p.prop_friendly_name@, None))
        } else {
            rest
        }
    }
}

/// A property's value on entity `e`, where `e` is known and has it.
pub open spec fn prop_of_entity(s: EntityState, prop_id: u32, e: Option<i32>) -> Option<Variant> {
    match e {
        Some(e) => ok_of(s.prop(prop_id, e)),
        None => None,
    }
}

/// The rules entity's value of property `p`, named after it.
pub open spec fn rules_fields(s: EntityState, p: PropInfo) -> Seq<FieldView> {
    seq![(p.prop_friendly_name@, option_view(prop_of_entity(s, p.id, s.rules_entity_id)))]
}

/// The two sides' values of team property `p`.
pub open spec fn team_fields(s: EntityState, p: PropInfo) -> Seq<FieldView> {
    seq![
        ("t_"@ + p.prop_friendly_name@, option_view(prop_of_entity(s, p.id, s.teams.team2_entid))),
        ("ct_"@ + p.prop_friendly_name@, option_view(prop_of_entity(s, p.id, s.teams.team3_entid))),
    ]
}

/// The fields of one property that is not a player's: a team property
/// for each side, a rules property, or the game time.
pub open spec fn non_player_fields(s: EntityState, p: PropInfo, game_time: u32) -> Seq<FieldView> {
    match p.prop_type {
        PropType::Team => team_fields(s, p),
        PropType::Rules => rules_fields(s, p),
        PropType::GameTime => seq![("game_time"@, option_view(Some(Variant::F32(game_time))))],
        _ => Seq::empty(),
    }
}

/// The fields of the properties of `infos` that are not a player's, in order.
pub open spec fn all_non_player_fields(s: EntityState, infos: Seq<PropInfo>, game_time: u32) -> Seq<FieldView>
    decreases infos.len(),
{
    if infos.len() == 0 {
        Seq::empty()
    } else {
        all_non_player_fields(s, infos.drop_last(), game_time) + non_player_fields(s, infos.last(), game_time)
    }
}

/// The name and steam id fields of the player under pawn id `e`, the
/// steam id in decimal; both empty where the player is not known.
pub open spec fn player_fields(s: EntityState, e: i32, prefix: Seq<char>) -> Seq<FieldView> {
    if s.player_known(e) {
        let m = players_view(s.players@)[e];
        seq![
            (prefix + "_name"@, match m.3 {
                Some(n) => Some((VarKind::String, Cell::Str(n), false, false)),
                None => None,
            }),
            (prefix + "_steamid"@, match m.1 {
                Some(id) => Some((VarKind::String, Cell::Str(decimal(id as nat)), false, false)),
                None => None,
            }),
        ]
    } else {
        seq![(prefix + "_name"@, None), (prefix + "_steamid"@, None)]
    }
}

/// The number of player properties of `infos` that events report.
pub open spec fn n_event_props(infos: Seq<PropInfo>) -> nat
    decreases infos.len(),
{
    if infos.len() == 0 {
        0
    } else {
        n_event_props(infos.drop_last()) + if event_player_prop(infos.last()) { 1nat } else { 0nat }
    }
}

/// There are two empty fields more than reported player properties.
pub proof fn lemma_empty_fields_len(prefix: Seq<char>, infos: Seq<PropInfo>)
    ensures
        empty_field_names(prefix, infos).len() == 2 + n_event_props(infos),
    decreases infos.len(),
{
    if infos.len() > 0 {
        lemma_empty_fields_len(prefix, infos.drop_last());
    }
}

impl EntityState {
    /// Property `prop_id` of entity `e`, where `e` is known and has it.
    fn prop_of_opt_entity(&self, prop_id: u32, e: Option<i32>) -> (r: Option<Variant>)
        ensures
            option_view(r) == option_view(prop_of_entity(*self, prop_id, e)),
    {
        match e {
            Some(e) => match self.get_prop_from_ent(prop_id, e) {
                Ok(v) => Some(v),
                Err(_) => None,
            },
            None => None,
        }
    }

    /// The rules entity's value of property `info`, named after it.
    pub fn find_other_rules_props(&self, info: &PropInfo) -> (r: Vec<EventField>)
        ensures
            fields_view(r@) == rules_fields(*self, *info),
    {
        let data = self.prop_of_opt_entity(info.id, self.rules_entity_id);
        let r = vec![EventField { name: info.prop_friendly_name.clone(), data }];
        assert(fields_view(r@) =~= rules_fields(*self, *info));
        r
    }

    /// The two sides' values of team property `info`, as `t_` and `ct_`
    /// fields.
    pub fn find_other_team_props(&self, info: &PropInfo) -> (r: Vec<EventField>)
        ensures
            fields_view(r@) == team_fields(*self, *info),
    {
        let t = self.prop_of_opt_entity(info.id, self.teams.team2_entid);
        let ct = self.prop_of_opt_entity(info.id, self.teams.team3_entid);
        let r = vec![
            EventField { name: concat_str("t_", info.prop_friendly_name.as_str()), data: t },
            EventField { name: concat_str("ct_", info.prop_friendly_name.as_str()), data: ct },
        ];
        proof {
            reveal_strlit("t_");
            reveal_strlit("ct_");
        }
        assert(fields_view(r@) =~= team_fields(*self, *info));
        r
    }

    /// The values of the properties of `infos` that are not a player's:
    /// each side's team properties, the rules properties, and the game time
    /// `game_time` (the bits of an `f32`).
    pub fn find_non_player_props(&self, infos: &Vec<PropInfo>, game_time: u32) -> (r: Vec<EventField>)
        ensures
            fields_view(r@) == all_non_player_fields(*self, infos@, game_time),
    {
        let mut out: Vec<EventField> = Vec::new();
        let mut i: usize = 0;
        while i < infos.len()
            invariant
                i <= infos@.len(),
                fields_view(out@) == all_non_player_fields(*self, infos@.take(i as int), game_time),
            decreases infos@.len() - i,
        {
            let info = &infos[i];
            assert(infos@.take(i + 1).drop_last() =~= infos@.take(i as int));
            let ghost before = out@;
            match info.prop_type {
                PropType::Team => {
                    let f = self.find_other_team_props(info);
                    extend_fields(&mut out, &f);
                    assert(fields_view(out@) =~= fields_view(before) + non_player_fields(*self, *info, game_time));
                },
                PropType::Rules => {
                    let f = self.find_other_rules_props(info);
                    extend_fields(&mut out, &f);
                    assert(fields_view(out@) =~= fields_view(before) + non_player_fields(*self, *info, game_time));
                },
                PropType::GameTime => {
                    out.push(EventField { name: "game_time".to_string(), data: Some(Variant::F32(game_time)) });
                    assert(fields_view(out@) =~= fields_view(before) + non_player_fields(*self, *info, game_time));
                },
                _ => {
                    assert(fields_view(out@) =~= fields_view(before) + non_player_fields(*self, *info, game_time));
                },
            }
            i += 1;
        }
        assert(infos@.take(infos@.len() as int) =~= infos@);
        out
    }

    /// The name and steam id fields of the player under pawn id
    /// `entity_id`, the steam id written in decimal; both empty where the
    /// player is not known.
    pub fn create_player_fields(&self, entity_id: i32, prefix: &str) -> (r: Vec<EventField>)
        ensures
            fields_view(r@) == player_fields(*self, entity_id, prefix@),
    {
        let (name, steamid) = match self.find_player_metadata(entity_id) {
            Ok(m) => (
                match &m.name {
                    Some(n) => Some(Variant::String(n.clone())),
                    None => None,
                },
                match m.steamid {
                    Some(s) => Some(Variant::String(u64_to_decimal(s))),
                    None => None,
                },
            ),
            Err(_) => (None, None),
        };
        proof {
            reveal_strlit("_name");
            reveal_strlit("_steamid");
        }
        let r = vec![
            EventField { name: concat_str(prefix, "_name"), data: name },
            EventField { name: concat_str(prefix, "_steamid"), data: steamid },
        ];
        assert(fields_view(r@) =~= player_fields(*self, entity_id, prefix@));
        r
    }

    /// The empty fields of a player that could not be found: steam id,
    /// name, and each player property of `infos` that events report.
    pub fn generate_empty_fields(&self, prefix: &str, infos: &Vec<PropInfo>) -> (r: Vec<EventField>)
        ensures
            fields_view(r@) == empty_field_names(prefix@, infos@),
    {
        proof {
            reveal_strlit("_name");
            reveal_strlit("_steamid");
            reveal_strlit("_");
        }
        let mut out = vec![
            EventField { name: concat_str(prefix, "_steamid"), data: None },
            EventField { name: concat_str(prefix, "_name"), data: None },
        ];
        let under = concat_str(prefix, "_");
        let mut i: usize = 0;
        assert(infos@.take(0) =~= Seq::<PropInfo>::empty());
        assert(fields_view(out@) =~= empty_field_names(prefix@, infos@.take(0)));
        while i < infos.len()
            invariant
                i <= infos@.len(),
                under@ == prefix@ + "_"@,
                fields_view(out@) == empty_field_names(prefix@, infos@.take(i as int)),
            decreases infos@.len() - i,
        {
            let info = &infos[i];
            assert(infos@.take(i + 1).drop_last() =~= infos@.take(i as int));
            assert(infos@.take(i + 1).last() == infos@[i as int]);
            if info.is_player_prop && !is_default_field_name(info.prop_name.as_str()) {
                let name = concat_str(under.as_str(), info.prop_friendly_name.as_str());
                let ghost before = out@;
                out.push(EventField { name, data: None });
                assert(fields_view(out@) =~= fields_view(before).push((prefix@ + "_"@ + info.prop_friendly_name@, None)));
            }
            i += 1;
        }
        assert(infos@.take(infos@.len() as int) =~= infos@);
        out
    }
}

} // verus!
