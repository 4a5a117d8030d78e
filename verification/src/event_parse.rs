use vstd::prelude::*;
use crate::variants::{Variant, VarKind, Cell, variant_view};
use crate::game_types::{EventField, PropCollectionError};
use crate::error::DemoParserError;
use crate::player_info::UserInfo;
use crate::entity_state::{EntityState, handle_entity};
use crate::event_fields::{FieldView, field_view, fields_view, extend_fields, empty_field_names, player_fields, n_event_props, lemma_empty_fields_len};
use crate::custom_events::{EventContext, EventLog, common_fields, events_view, event_view, is_wanted, seen_after, wants_event, note_event, reason_text, reason_string};
use crate::game_types::GameEvent;
use crate::variants::strings_view;
use crate::collect::{FloatProp, PropLookups, extra_fields_match, lemma_extra_fields_len};
use crate::player_meta::option_view;
use crate::strings::str_eq;

verus! {

/// One value of a game event message, as the message holds it; a missing
/// part reads as 0, false or empty. `val_float` holds the bits of an `f32`.
#[derive(Debug)]
pub struct EventKey {
    pub key_type: Option<i32>,
    pub val_string: Option<String>,
    pub val_float: Option<u32>,
    pub val_long: Option<i32>,
    pub val_short: Option<i32>,
    pub val_byte: Option<i32>,
    pub val_bool: Option<bool>,
    pub val_uint64: Option<u64>,
}

/// A game event message: the event's id and its values.
#[derive(Debug)]
pub struct GameEventMsg {
    pub eventid: Option<i32>,
    pub keys: Vec<EventKey>,
}

/// The description of one value of an event: its kind and name.
#[derive(Debug)]
pub struct KeyDescriptor {
    pub key_type: Option<i32>,
    pub name: Option<String>,
}

/// The description of an event: its id, name and values, as the game
/// event list gives it.
#[derive(Debug)]
pub struct EventDescriptor {
    pub eventid: Option<i32>,
    pub name: Option<String>,
    pub keys: Vec<KeyDescriptor>,
}

/// A text that may be missing, missing read as empty.
pub open spec fn text_or_empty(t: Option<String>) -> Seq<char> {
    match t {
        Some(t) => t@,
        None => Seq::empty(),
    }
}

/// The value of an event message's value, by its kind: 1 a text, 2 an
/// `f32`, 6 a bool, 7 a `u64`, and 3, 4, 5, 8 and 9 an `i32`; other kinds
/// have none.
pub open spec fn key_value(k: EventKey) -> Option<(VarKind, Cell, bool, bool)> {
    let t = match k.key_type { Some(t) => t, None => 0 };
    let long = match k.val_long { Some(v) => v, None => 0 };
    let short = match k.val_short { Some(v) => v, None => 0 };
    if t == 1 {
        Some((VarKind::String, Cell::Str(text_or_empty(k.val_string)), false, false))
    } else if t == 2 {
        Some(variant_view(Variant::F32(match k.val_float { Some(v) => v, None => 0 })))
    } else if t == 3 || t == 8 {
        Some(variant_view(Variant::I32(long)))
    } else if t == 4 || t == 9 {
        Some(variant_view(Variant::I32(short)))
    } else if t == 5 {
        Some(variant_view(Variant::I32(match k.val_byte { Some(v) => v, None => 0 })))
    } else if t == 6 {
        Some(variant_view(Variant::Bool(match k.val_bool { Some(v) => v, None => false })))
    } else if t == 7 {
        Some(variant_view(Variant::U64(match k.val_uint64 { Some(v) => v, None => 0 })))
    } else {
        None
    }
}

/// The fields of an event message: each value paired with its description,
/// as far as both go.
pub open spec fn base_fields(keys: Seq<EventKey>, descs: Seq<KeyDescriptor>) -> Seq<FieldView> {
    let n = if keys.len() < descs.len() { keys.len() } else { descs.len() };
    Seq::new(n, |i: int| (text_or_empty(descs[i].name), key_value(keys[i])))
}

/// The last description in `list` of event `id`.
pub open spec fn descriptor_for(list: Seq<EventDescriptor>, id: i32) -> Option<int>
    decreases list.len(),
{
    if list.len() == 0 {
        None
    } else if (match list.last().eventid { Some(x) => x, None => 0 }) == id {
        Some(list.len() - 1)
    } else {
        descriptor_for(list.drop_last(), id)
    }
}

/// The events reported without extra fields.
pub open spec fn is_entities_first(name: Seq<char>) -> bool {
    name == "inferno_startburn"@ || name == "decoy_started"@ || name == "inferno_expire"@
}

/// The fields that only serve to find the players an event refers to.
pub open spec fn is_internal_field(name: Seq<char>) -> bool {
    name == "userid"@ || name == "attacker"@ || name == "assister"@ || name == "userid_pawn"@
        || name == "attacker_pawn"@ || name == "assister_pawn"@ || name == "victim"@ || name == "victim_pawn"@
}

/// A field as reported: a hit group is named by table `hit` (or written in
/// decimal); other fields are unchanged.
pub open spec fn cleaned(f: FieldView, hit: Seq<(i32, String)>) -> FieldView {
    if f.0 == "hitgroup"@ {
        match f.1 {
            Some((VarKind::I32, Cell::I32(i), false, false)) => (f.0, Some((VarKind::String, Cell::Str(reason_text(hit, i)), false, false))),
            _ => f,
        }
    } else {
        f
    }
}

/// `now` are the fields `fields` of an event that came early, completed:
/// with its extra fields, without those that only serve to find players.
pub open spec fn resolved<F: Fn(FloatProp, i32) -> Result<Variant, PropCollectionError>>(
    s: EntityState,
    ctx: EventContext,
    lk: PropLookups,
    f: F,
    fields: Seq<EventField>,
    now: Seq<EventField>,
) -> bool {
    exists|x: Seq<EventField>|
        #[trigger] extra_match(s, ctx, lk, f, fields, x) && fields_view(now) == without_internal(fields_view(fields) + fields_view(x))
}

/// The fields of `fs` that do not only serve to find players.
pub open spec fn without_internal(fs: Seq<FieldView>) -> Seq<FieldView> {
    fs.filter(|f: FieldView| !is_internal_field(f.0))
}

/// The reported fields of an event with fields `fs`: those that do not
/// only serve to find players, each as reported.
pub open spec fn reported(fs: Seq<FieldView>, hit: Seq<(i32, String)>) -> Seq<FieldView> {
    without_internal(fs).map_values(|f: FieldView| cleaned(f, hit))
}

/// The first of `users` whose user id has `userid` as its low byte.
pub open spec fn user_by_low_byte(users: Seq<UserInfo>, userid: i32) -> Option<int>
    decreases users.len(),
{
    if users.len() == 0 {
        None
    } else if users[0].userid & 0xff == userid {
        Some(0)
    } else {
        match user_by_low_byte(users.drop_first(), userid) {
            Some(i) => Some(i + 1),
            None => None,
        }
    }
}

/// The first of `users` with user id `userid`.
pub open spec fn user_by_id(users: Seq<UserInfo>, userid: i32) -> Option<int>
    decreases users.len(),
{
    if users.len() == 0 {
        None
    } else if users[0].userid == userid {
        Some(0)
    } else {
        match user_by_id(users.drop_first(), userid) {
            Some(i) => Some(i + 1),
            None => None,
        }
    }
}

/// The user an event's user id names: the first whose id has it as its
/// low byte, else the first with that very id.
pub open spec fn user_for(users: Seq<UserInfo>, userid: i32) -> Option<int> {
    match user_by_low_byte(users, userid) {
        Some(i) => Some(i),
        None => user_by_id(users, userid),
    }
}

/// The pawn id of the first player, in order of pawn id, with steam id
/// `steamid` and a known pawn.
pub open spec fn pawn_with_steamid(players: Seq<(i32, crate::game_types::PlayerMetaData)>, steamid: u64) -> Option<i32>
    decreases players.len(),
{
    if players.len() == 0 {
        None
    } else if players[0].1.steamid == Some(steamid) && players[0].1.player_entity_id is Some {
        players[0].1.player_entity_id
    } else {
        pawn_with_steamid(players.drop_first(), steamid)
    }
}

/// The pawn of the user an event's user id names.
pub open spec fn entity_from_userid(s: EntityState, users: Seq<UserInfo>, userid: i32) -> Option<i32> {
    match user_for(users, userid) {
        Some(i) => pawn_with_steamid(s.players@, users[i].steamid),
        None => None,
    }
}

/// The thrower of the grenade an event's entity id names.
pub open spec fn grenade_owner(s: EntityState, data: Option<Variant>) -> Option<i32> {
    match s.special_ids.grenade_owner_id {
        None => None,
        Some(o) => match data {
            Some(Variant::I32(id)) => match s.prop(o, id) {
                Ok(Variant::U32(e)) => Some(handle_entity(e)),
                _ => None,
            },
            _ => None,
        },
    }
}

/// Some field of `fields` is named `name`.
pub open spec fn has_field_named(fields: Seq<EventField>, name: Seq<char>) -> bool {
    exists|i: int| 0 <= i < fields.len() && #[trigger] fields[i].name@ == name
}

/// The player an event field refers to, as the prefix its fields get and
/// its pawn, where the pawn is found: `attacker`, `userid`, `assister` and
/// `victim` by user id; `entityid` (a grenade, where the event has no
/// `userid`) by the grenade's thrower; `userid_pawn` (where the event has
/// neither) by the pawn handle.
pub open spec fn player_ref(s: EntityState, users: Seq<UserInfo>, all: Seq<EventField>, f: EventField) -> Option<(Seq<char>, Option<i32>)> {
    match f.data {
        Some(Variant::I32(id)) => {
            let n = f.name@;
            if n == "attacker"@ {
                Some(("attacker"@, entity_from_userid(s, users, id)))
            } else if n == "userid"@ {
                Some(("user"@, entity_from_userid(s, users, id)))
            } else if n == "assister"@ {
                Some(("assister"@, entity_from_userid(s, users, id)))
            } else if n == "victim"@ {
                Some(("victim"@, entity_from_userid(s, users, id)))
            } else if n == "entityid"@ {
                if has_field_named(all, "userid"@) { None } else { Some(("user"@, grenade_owner(s, f.data))) }
            } else if n == "userid_pawn"@ {
                if has_field_named(all, "userid"@) || has_field_named(all, "entityid"@) {
                    None
                } else {
                    Some(("user"@, Some(id & 0x7ff)))
                }
            } else {
                None
            }
        },
        _ => None,
    }
}

/// `seg` are the fields of a player referred to as `prefix`: its name and
/// steam id and reported properties where its pawn is found, else empty
/// fields.
pub open spec fn segment_match<F: Fn(FloatProp, i32) -> Result<Variant, PropCollectionError>>(
    s: EntityState,
    ctx: EventContext,
    lk: PropLookups,
    f: F,
    prefix: Seq<char>,
    e: Option<i32>,
    seg: Seq<EventField>,
) -> bool {
    match e {
        Some(e) => {
            &&& seg.len() >= 2
            &&& fields_view(seg.take(2)) == player_fields(s, e, prefix)
            &&& extra_fields_match(s, e, prefix, ctx.prop_infos@, lk, f, seg.skip(2))
        },
        None => fields_view(seg) == empty_field_names(prefix, ctx.prop_infos@),
    }
}

/// `out` are the fields of the players that `fs` (fields of the event
/// `all`) refer to, in order.
pub open spec fn refs_match<F: Fn(FloatProp, i32) -> Result<Variant, PropCollectionError>>(
    s: EntityState,
    ctx: EventContext,
    lk: PropLookups,
    f: F,
    all: Seq<EventField>,
    fs: Seq<EventField>,
    out: Seq<EventField>,
) -> bool
    decreases fs.len(),
{
    if fs.len() == 0 {
        out.len() == 0
    } else {
        match player_ref(s, lk.users@, all, fs.last()) {
            None => refs_match(s, ctx, lk, f, all, fs.drop_last(), out),
            Some((prefix, e)) => {
                let k = 2 + n_event_props(ctx.prop_infos@);
                &&& out.len() >= k
                &&& segment_match(s, ctx, lk, f, prefix, e, out.subrange(out.len() - k, out.len() as int))
                &&& refs_match(s, ctx, lk, f, all, fs.drop_last(), out.subrange(0, out.len() - k))
            },
        }
    }
}

/// `out` are the extra fields of an event with fields `fields`: the tick,
/// the fields of the players it refers to, then the common fields.
pub open spec fn extra_match<F: Fn(FloatProp, i32) -> Result<Variant, PropCollectionError>>(
    s: EntityState,
    ctx: EventContext,
    lk: PropLookups,
    f: F,
    fields: Seq<EventField>,
    out: Seq<EventField>,
) -> bool {
    let c = common_fields(s, ctx).len();
    &&& out.len() >= 1 + c
    &&& field_view(out[0]) == ("tick"@, option_view(Some(Variant::I32(s.tick))))
    &&& refs_match(s, ctx, lk, f, fields, fields, out.subrange(1, out.len() - c))
    &&& fields_view(out.subrange(out.len() - c, out.len() as int)) == common_fields(s, ctx)
}

/// The user an event's user id names.
pub fn find_user_by_userid(users: &Vec<UserInfo>, userid: i32) -> (r: Option<&UserInfo>)
    ensures
        match user_for(users@, userid) {
            Some(i) => r == Some(&users@[i]),
            None => r is None,
        },
{
    let mut i: usize = 0;
    assert(users@.skip(0) =~= users@);
    while i < users.len()
        invariant
            i <= users@.len(),
            user_by_low_byte(users@, userid) == match user_by_low_byte(users@.skip(i as int), userid) {
                Some(k) => Some(k + i),
                None => None,
            },
        decreases users@.len() - i,
    {
        assert(users@.skip(i as int)[0] == users@[i as int]);
        if users[i].userid & 0xff == userid {
            return Some(&users[i]);
        }
        assert(users@.skip(i as int).drop_first() =~= users@.skip(i + 1));
        i += 1;
    }
    let mut j: usize = 0;
    assert(users@.skip(0) =~= users@);
    while j < users.len()
        invariant
            j <= users@.len(),
            user_by_low_byte(users@, userid) is None,
            user_by_id(users@, userid) == match user_by_id(users@.skip(j as int), userid) {
                Some(k) => Some(k + j),
                None => None,
            },
        decreases users@.len() - j,
    {
        assert(users@.skip(j as int)[0] == users@[j as int]);
        if users[j].userid == userid {
            return Some(&users[j]);
        }
        assert(users@.skip(j as int).drop_first() =~= users@.skip(j + 1));
        j += 1;
    }
    None
}

/// Whether some field of `fields` is named `name`.
fn has_field(fields: &Vec<EventField>, name: &str) -> (r: bool)
    ensures
        r == has_field_named(fields@, name@),
{
    let mut i: usize = 0;
    while i < fields.len()
        invariant
            i <= fields@.len(),
            forall|j: int| 0 <= j < i ==> fields@[j].name@ != name@,
        decreases fields@.len() - i,
    {
        if str_eq(fields[i].name.as_str(), name) {
            assert(fields@[i as int].name@ == name@);
            return true;
        }
        i += 1;
    }
    false
}

/// The value of an event message's value, by its kind.
pub fn parse_key(k: &EventKey) -> (r: Option<Variant>)
    ensures
        option_view(r) == key_value(*k),
{
    let t = match k.key_type {
        Some(t) => t,
        None => 0,
    };
    if t == 1 {
        let s = match &k.val_string {
            Some(s) => s.clone(),
            None => String::new(),
        };
        Some(Variant::String(s))
    } else if t == 2 {
        Some(Variant::F32(match k.val_float { Some(v) => v, None => 0 }))
    } else if t == 3 || t == 8 {
        Some(Variant::I32(match k.val_long { Some(v) => v, None => 0 }))
    } else if t == 4 || t == 9 {
        Some(Variant::I32(match k.val_short { Some(v) => v, None => 0 }))
    } else if t == 5 {
        Some(Variant::I32(match k.val_byte { Some(v) => v, None => 0 }))
    } else if t == 6 {
        Some(Variant::Bool(match k.val_bool { Some(v) => v, None => false }))
    } else if t == 7 {
        Some(Variant::U64(match k.val_uint64 { Some(v) => v, None => 0 }))
    } else {
        None
    }
}

/// The last description in `list` of event `id`.
fn find_descriptor(list: &Vec<EventDescriptor>, id: i32) -> (r: Option<&EventDescriptor>)
    ensures
        match descriptor_for(list@, id) {
            Some(i) => r == Some(&list@[i]),
            None => r is None,
        },
{
    let ghost l = list@;
    let mut i: usize = list.len();
    assert(l.take(l.len() as int) =~= l);
    while i > 0
        invariant
            i <= l.len(),
            l == list@,
            descriptor_for(l, id) == descriptor_for(l.take(i as int), id),
        decreases i,
    {
        assert(l.take(i as int).last() == l[i - 1]);
        let d = &list[i - 1];
        let did = match d.eventid {
            Some(x) => x,
            None => 0,
        };
        if did == id {
            return Some(d);
        }
        assert(l.take(i as int).drop_last() =~= l.take(i - 1));
        i -= 1;
    }
    None
}

/// The fields of an event message, as `base_fields` says.
fn base_event_fields(keys: &Vec<EventKey>, descs: &Vec<KeyDescriptor>) -> (r: Vec<EventField>)
    ensures
        fields_view(r@) == base_fields(keys@, descs@),
{
    let n = if keys.len() < descs.len() { keys.len() } else { descs.len() };
    let mut out: Vec<EventField> = Vec::new();
    let mut i: usize = 0;
    while i < n
        invariant
            n == (if keys@.len() < descs@.len() { keys@.len() } else { descs@.len() }),
            i <= n,
            fields_view(out@) == base_fields(keys@, descs@).take(i as int),
        decreases n - i,
    {
        let name = match &descs[i].name {
            Some(s) => s.clone(),
            None => String::new(),
        };
        let ghost o0 = out@;
        let f = EventField { name, data: parse_key(&keys[i]) };
        assert(field_view(f) == base_fields(keys@, descs@)[i as int]);
        out.push(f);
        assert(fields_view(out@) =~= fields_view(o0).push(field_view(f)));
        assert(fields_view(out@) =~= base_fields(keys@, descs@).take(i + 1));
        i += 1;
    }
    assert(base_fields(keys@, descs@).take(n as int) =~= base_fields(keys@, descs@));
    out
}

/// Whether an event is reported without extra fields.
fn is_entities_first_name(name: &str) -> (r: bool)
    ensures
        r == is_entities_first(name@),
{
    str_eq(name, "inferno_startburn") || str_eq(name, "decoy_started") || str_eq(name, "inferno_expire")
}

/// Whether a field only serves to find the players an event refers to.
fn is_internal_name(name: &str) -> (r: bool)
    ensures
        r == is_internal_field(name@),
{
    str_eq(name, "userid") || str_eq(name, "attacker") || str_eq(name, "assister") || str_eq(name, "userid_pawn")
        || str_eq(name, "attacker_pawn") || str_eq(name, "assister_pawn") || str_eq(name, "victim")
        || str_eq(name, "victim_pawn")
}

/// A field as reported, as `cleaned` says.
fn cleanup(f: &EventField, hit: &Vec<(i32, String)>) -> (r: EventField)
    ensures
        field_view(r) == cleaned(field_view(*f), hit@),
{
    let data = if str_eq(f.name.as_str(), "hitgroup") {
        match &f.data {
            Some(Variant::I32(i)) => Some(Variant::String(reason_string(hit, *i))),
            Some(v) => Some(crate::variants::clone_variant(v)),
            None => None,
        }
    } else {
        match &f.data {
            Some(v) => Some(crate::variants::clone_variant(v)),
            None => None,
        }
    };
    EventField { name: f.name.clone(), data }
}

/// The reported fields of an event, as `reported` says.
fn report_fields(fields: &Vec<EventField>, hit: &Vec<(i32, String)>) -> (r: Vec<EventField>)
    ensures
        fields_view(r@) == reported(fields_view(fields@), hit@),
{
    let ghost pred = |f: FieldView| !is_internal_field(f.0);
    let ghost clean = |f: FieldView| cleaned(f, hit@);
    let mut out: Vec<EventField> = Vec::new();
    let mut i: usize = 0;
    assert(fields_view(fields@).take(0).filter(pred) =~= Seq::<FieldView>::empty());
    while i < fields.len()
        invariant
            i <= fields@.len(),
            pred == (|f: FieldView| !is_internal_field(f.0)),
            clean == (|f: FieldView| cleaned(f, hit@)),
            fields_view(out@) == fields_view(fields@).take(i as int).filter(pred).map_values(clean),
        decreases fields@.len() - i,
    {
        let ghost fv = fields_view(fields@);
        proof {
            fv.take(i as int).lemma_filter_push(fv[i as int], pred);
            assert(fv.take(i as int).push(fv[i as int]) =~= fv.take(i + 1));
        }
        if !is_internal_name(fields[i].name.as_str()) {
            let c = cleanup(&fields[i], hit);
            let ghost o0 = out@;
            out.push(c);
            assert(fields_view(out@) =~= fields_view(o0).push(field_view(c)));
            assert(fields_view(out@) =~= fv.take(i + 1).filter(pred).map_values(clean));
        } else {
            assert(fv.take(i + 1).filter(pred) =~= fv.take(i as int).filter(pred));
        }
        i += 1;
    }
    assert(fields_view(fields@).take(fields@.len() as int) =~= fields_view(fields@));
    out
}

/// What reading an event message does, by the description `list` gives
/// its id: an unknown event is nothing; a known event is met (where it has
/// a name); an event that is not wanted, or is removed, is nothing more;
/// an event reported without extra fields is handed back; any other is
/// logged with its own fields and its extra fields, as reported.
pub open spec fn parsed_event<F: Fn(FloatProp, i32) -> Result<Variant, PropCollectionError>>(
    s: EntityState,
    ctx: EventContext,
    lk: PropLookups,
    hit: Seq<(i32, String)>,
    f: F,
    msg: GameEventMsg,
    list: Seq<EventDescriptor>,
    before: EventLog,
    after: EventLog,
    r: Result<Option<GameEvent>, DemoParserError>,
) -> bool {
    match descriptor_for(list, match msg.eventid { Some(x) => x, None => 0 }) {
        None => {
            &&& r == Ok::<Option<GameEvent>, DemoParserError>(None)
            &&& events_view(after.events@) == events_view(before.events@)
            &&& strings_view(after.seen@) == strings_view(before.seen@)
        },
        Some(di) => {
            let d = list[di];
            let name = text_or_empty(d.name);
            let base = base_fields(msg.keys@, d.keys@);
            &&& strings_view(after.seen@) == if d.name is Some {
                seen_after(strings_view(before.seen@), name)
            } else {
                strings_view(before.seen@)
            }
            &&& if !is_wanted(ctx.wanted@, name) || name == "server_cvar"@ {
                r == Ok::<Option<GameEvent>, DemoParserError>(None) && events_view(after.events@) == events_view(before.events@)
            } else if is_entities_first(name) {
                &&& r matches Ok(Some(e)) && event_view(e) == (name, base, s.tick)
                &&& events_view(after.events@) == events_view(before.events@)
            } else {
                &&& r == Ok::<Option<GameEvent>, DemoParserError>(None)
                &&& exists|b: Seq<EventField>, x: Seq<EventField>|
                    fields_view(b) == base && #[trigger] extra_match(s, ctx, lk, f, b, x)
                    && events_view(after.events@) == events_view(before.events@).push(
                        (name, reported(fields_view(b) + fields_view(x), hit), s.tick))
            }
        },
    }
}

/// The fields of an event without those that only serve to find players.
fn keep_reported_names(fields: &Vec<EventField>) -> (r: Vec<EventField>)
    ensures
        fields_view(r@) == without_internal(fields_view(fields@)),
{
    let ghost pred = |f: FieldView| !is_internal_field(f.0);
    let mut out: Vec<EventField> = Vec::new();
    let mut i: usize = 0;
    assert(fields_view(fields@).take(0).filter(pred) =~= Seq::<FieldView>::empty());
    while i < fields.len()
        invariant
            i <= fields@.len(),
            pred == (|f: FieldView| !is_internal_field(f.0)),
            fields_view(out@) == fields_view(fields@).take(i as int).filter(pred),
        decreases fields@.len() - i,
    {
        let ghost fv = fields_view(fields@);
        proof {
            fv.take(i as int).lemma_filter_push(fv[i as int], pred);
            assert(fv.take(i as int).push(fv[i as int]) =~= fv.take(i + 1));
        }
        if !is_internal_name(fields[i].name.as_str()) {
            let c = crate::event_fields::copy_field(&fields[i]);
            let ghost o0 = out@;
            out.push(c);
            assert(fields_view(out@) =~= fields_view(o0).push(field_view(c)));
        }
        i += 1;
    }
    assert(fields_view(fields@).take(fields@.len() as int) =~= fields_view(fields@));
    out
}

/// Copies of fields.
fn copy_fields_of(fields: &Vec<EventField>) -> (r: Vec<EventField>)
    ensures
        fields_view(r@) == fields_view(fields@),
{
    let mut out: Vec<EventField> = Vec::new();
    extend_fields(&mut out, fields);
    assert(fields_view(out@) =~= fields_view(fields@));
    out
}

impl EntityState {
    /// The pawn of the user an event's user id names.
    pub fn entity_id_from_userid(&self, users: &Vec<UserInfo>, userid: i32) -> (r: Option<i32>)
        ensures
            r == entity_from_userid(*self, users@, userid),
    {
        let user = match find_user_by_userid(users, userid) {
            Some(u) => u,
            None => return None,
        };
        let sid = user.steamid;
        let ghost p = self.players@;
        let mut i: usize = 0;
        assert(p.skip(0) =~= p);
        while i < self.players.len()
            invariant
                i <= p.len(),
                p == self.players@,
                user_for(users@, userid) matches Some(k) && users@[k].steamid == sid,
                pawn_with_steamid(p, sid) == pawn_with_steamid(p.skip(i as int), sid),
            decreases p.len() - i,
        {
            assert(p.skip(i as int)[0] == p[i as int]);
            let m = &self.players[i].1;
            if m.steamid == Some(sid) && m.player_entity_id.is_some() {
                return m.player_entity_id;
            }
            assert(p.skip(i as int).drop_first() =~= p.skip(i + 1));
            i += 1;
        }
        None
    }

    /// The pawn a pawn handle names: its low eleven bits.
    pub fn entity_id_from_user_pawn(&self, pawn_handle: i32) -> (r: Option<i32>)
        ensures
            r == Some(pawn_handle & 0x7ff),
    {
        Some(pawn_handle & 0x7ff)
    }

    /// The thrower of the grenade an event's entity id names.
    pub fn grenade_owner_entid_from_grenade(&self, data: &Option<Variant>) -> (r: Option<i32>)
        ensures
            r == grenade_owner(*self, *data),
    {
        let o = match self.special_ids.grenade_owner_id {
            Some(o) => o,
            None => return None,
        };
        if let Some(Variant::I32(id)) = data {
            if let Ok(Variant::U32(e)) = self.get_prop_from_ent(o, *id) {
                return Some(crate::entity_state::entity_of_handle(e));
            }
        }
        None
    }
    /// The player event field `f` of the event `all` refers to.
    fn player_ref_of(&self, all: &Vec<EventField>, f: &EventField, users: &Vec<UserInfo>) -> (r: Option<(&'static str, Option<i32>)>)
        ensures
            match player_ref(*self, users@, all@, *f) {
                Some((p, e)) => r matches Some((q, e2)) && q@ == p && e2 == e,
                None => r is None,
            },
    {
        let id = match &f.data {
            Some(Variant::I32(id)) => *id,
            _ => return None,
        };
        let n = f.name.as_str();
        if str_eq(n, "attacker") {
            Some(("attacker", self.entity_id_from_userid(users, id)))
        } else if str_eq(n, "userid") {
            Some(("user", self.entity_id_from_userid(users, id)))
        } else if str_eq(n, "assister") {
            Some(("assister", self.entity_id_from_userid(users, id)))
        } else if str_eq(n, "victim") {
            Some(("victim", self.entity_id_from_userid(users, id)))
        } else if str_eq(n, "entityid") {
            if has_field(all, "userid") {
                None
            } else {
                Some(("user", self.grenade_owner_entid_from_grenade(&f.data)))
            }
        } else if str_eq(n, "userid_pawn") {
            if has_field(all, "userid") || has_field(all, "entityid") {
                None
            } else {
                Some(("user", self.entity_id_from_user_pawn(id)))
            }
        } else {
            None
        }
    }

    /// The fields of a player referred to as `prefix`: its name, steam id
    /// and reported properties where its pawn `e` is found, else empty
    /// fields.
    fn player_segment<F: Fn(FloatProp, i32) -> Result<Variant, PropCollectionError>>(
        &self,
        prefix: &str,
        e: Option<i32>,
        ctx: &EventContext,
        lk: &PropLookups,
        float_prop: &F,
    ) -> (r: Vec<EventField>)
        requires
            forall|k: FloatProp, x: i32| float_prop.requires((k, x)),
        ensures
            r@.len() == 2 + n_event_props(ctx.prop_infos@),
            segment_match(*self, *ctx, *lk, *float_prop, prefix@, e, r@),
    {
        match e {
            Some(e) => {
                let mut a = self.create_player_fields(e, prefix);
                let mut b = self.find_extra_props_events(e, prefix, &ctx.prop_infos, lk, float_prop);
                proof {
                    lemma_extra_fields_len(*self, e, prefix@, ctx.prop_infos@, *lk, *float_prop, b@);
                }
                let ghost a0 = a@;
                let ghost b0 = b@;
                assert(fields_view(a0).len() == a0.len());
                assert(player_fields(*self, e, prefix@).len() == 2);
                a.append(&mut b);
                assert(a@.take(2) =~= a0);
                assert(a@.skip(2) =~= b0);
                a
            },
            None => {
                let r = self.generate_empty_fields(prefix, &ctx.prop_infos);
                proof {
                    lemma_empty_fields_len(prefix@, ctx.prop_infos@);
                }
                r
            },
        }
    }

    /// The extra fields of an event with fields `fields`, as `extra_match`
    /// says: the tick, the fields of the players it refers to, then the
    /// common fields.
    pub fn find_extra<F: Fn(FloatProp, i32) -> Result<Variant, PropCollectionError>>(
        &self,
        fields: &Vec<EventField>,
        ctx: &EventContext,
        lk: &PropLookups,
        float_prop: &F,
    ) -> (r: Result<Vec<EventField>, DemoParserError>)
        requires
            forall|k: FloatProp, x: i32| float_prop.requires((k, x)),
        ensures
            r matches Ok(out) && extra_match(*self, *ctx, *lk, *float_prop, fields@, out@),
    {
        let mut mid: Vec<EventField> = Vec::new();
        let mut i: usize = 0;
        assert(fields@.take(0) =~= Seq::<EventField>::empty());
        while i < fields.len()
            invariant
                i <= fields@.len(),
                forall|k: FloatProp, x: i32| float_prop.requires((k, x)),
                refs_match(*self, *ctx, *lk, *float_prop, fields@, fields@.take(i as int), mid@),
            decreases fields@.len() - i,
        {
            assert(fields@.take(i + 1).drop_last() =~= fields@.take(i as int));
            assert(fields@.take(i + 1).last() == fields@[i as int]);
            match self.player_ref_of(fields, &fields[i], &lk.users) {
                Some((prefix, e)) => {
                    let mut seg = self.player_segment(prefix, e, ctx, lk, float_prop);
                    let ghost m0 = mid@;
                    let ghost s0 = seg@;
                    mid.append(&mut seg);
                    let ghost k = 2 + n_event_props(ctx.prop_infos@);
                    assert(mid@.subrange(mid@.len() - k, mid@.len() as int) =~= s0);
                    assert(mid@.subrange(0, mid@.len() - k) =~= m0);
                },
                None => {},
            }
            i += 1;
        }
        assert(fields@.take(fields@.len() as int) =~= fields@);
        let mut extra = vec![EventField { name: "tick".to_string(), data: Some(Variant::I32(self.tick)) }];
        let ghost m = mid@;
        extra.append(&mut mid);
        let mut common = self.find_non_player_props(&ctx.prop_infos, ctx.extras.game_time);
        let ghost c = common@;
        extra.append(&mut common);
        assert(fields_view(c).len() == c.len());
        assert(extra@.subrange(1, extra@.len() - c.len()) =~= m);
        assert(extra@.subrange(extra@.len() - c.len(), extra@.len() as int) =~= c);
        Ok(extra)
    }
    /// Reads an event message, as `parsed_event` says.
    pub fn parse_event<F: Fn(FloatProp, i32) -> Result<Variant, PropCollectionError>>(
        &self,
        msg: &GameEventMsg,
        list: &Vec<EventDescriptor>,
        ctx: &EventContext,
        lk: &PropLookups,
        hit: &Vec<(i32, String)>,
        float_prop: &F,
        log: &mut EventLog,
    ) -> (r: Result<Option<GameEvent>, DemoParserError>)
        requires
            forall|k: FloatProp, x: i32| float_prop.requires((k, x)),
        ensures
            parsed_event(*self, *ctx, *lk, hit@, *float_prop, *msg, list@, *old(log), *final(log), r),
    {
        let id = match msg.eventid {
            Some(x) => x,
            None => 0,
        };
        let d = match find_descriptor(list, id) {
            Some(d) => d,
            None => return Ok(None),
        };
        if let Some(n) = &d.name {
            note_event(&mut log.seen, n.as_str());
        }
        let name = match &d.name {
            Some(n) => n.clone(),
            None => String::new(),
        };
        if !wants_event(&ctx.wanted, name.as_str()) {
            return Ok(None);
        }
        if str_eq(name.as_str(), "server_cvar") {
            return Ok(None);
        }
        let mut fields = base_event_fields(&msg.keys, &d.keys);
        if is_entities_first_name(name.as_str()) {
            return Ok(Some(GameEvent { fields, name, tick: self.tick }));
        }
        let mut extra = match self.find_extra(&fields, ctx, lk, float_prop) {
            Ok(x) => x,
            Err(e) => return Err(e),
        };
        let ghost b = fields@;
        let ghost x = extra@;
        fields.append(&mut extra);
        assert(fields_view(fields@) =~= fields_view(b) + fields_view(x));
        let reported_fields = report_fields(&fields, hit);
        let e = GameEvent { fields: reported_fields, name, tick: self.tick };
        Self::push_event(log, e);
        Ok(None)
    }

    /// Completes the events that came before the entities they refer to:
    /// each gets its extra fields, loses the fields that only serve to find
    /// players, and is logged at the current tick.
    pub fn resolve_wrong_order_event<F: Fn(FloatProp, i32) -> Result<Variant, PropCollectionError>>(
        &self,
        events: &mut Vec<GameEvent>,
        ctx: &EventContext,
        lk: &PropLookups,
        float_prop: &F,
        log: &mut EventLog,
    ) -> (r: Result<(), DemoParserError>)
        requires
            forall|k: FloatProp, x: i32| float_prop.requires((k, x)),
        ensures
            r is Ok,
            final(log).seen == old(log).seen,
            final(events)@.len() == old(events)@.len(),
            events_view(final(log).events@).len() == events_view(old(log).events@).len() + old(events)@.len(),
            forall|j: int| 0 <= j < old(events)@.len() ==> #[trigger] events_view(final(log).events@)[events_view(old(log).events@).len() + j]
                == (old(events)@[j].name@, fields_view(final(events)@[j].fields@), self.tick),
            forall|j: int| 0 <= j < old(events)@.len() ==> resolved(*self, *ctx, *lk, *float_prop,
                old(events)@[j].fields@, #[trigger] final(events)@[j].fields@),
    {
        let ghost e0 = events@;
        let ghost l0 = events_view(log.events@);
        let mut j: usize = 0;
        while j < events.len()
            invariant
                j <= events@.len(),
                events@.len() == e0.len(),
                forall|k: FloatProp, x: i32| float_prop.requires((k, x)),
                log.seen == old(log).seen,
                events_view(log.events@).len() == l0.len() + j,
                forall|i: int| 0 <= i < l0.len() ==> #[trigger] events_view(log.events@)[i] == l0[i],
                forall|i: int| 0 <= i < j ==> #[trigger] events_view(log.events@)[l0.len() + i]
                    == (e0[i].name@, fields_view(events@[i].fields@), self.tick),
                forall|i: int| 0 <= i < j ==> resolved(*self, *ctx, *lk, *float_prop, e0[i].fields@, #[trigger] events@[i].fields@),
                forall|i: int| j <= i < e0.len() ==> #[trigger] events@[i] == e0[i],
            decreases e0.len() - j,
        {
            let mut extra = match self.find_extra(&events[j].fields, ctx, lk, float_prop) {
                Ok(x) => x,
                Err(e) => return Err(e),
            };
            let ghost x = extra@;
            let ghost before = events@;
            let mut fields: Vec<EventField> = Vec::new();
            std::mem::swap(&mut fields, &mut events[j].fields);
            let ghost b = fields@;
            fields.append(&mut extra);
            let kept = keep_reported_names(&fields);
            let copy = copy_fields_of(&kept);
            events[j].fields = kept;
            let e = GameEvent { fields: copy, name: events[j].name.clone(), tick: self.tick };
            let ghost lb = events_view(log.events@);
            Self::push_event(log, e);
            proof {
                assert(before[j as int] == e0[j as int]);
                assert(b == e0[j as int].fields@);
                assert(fields_view(fields@) =~= fields_view(b) + fields_view(x));
                assert(extra_match(*self, *ctx, *lk, *float_prop, e0[j as int].fields@, x));
                assert(fields_view(events@[j as int].fields@) == without_internal(fields_view(e0[j as int].fields@) + fields_view(x)));
                assert forall|i: int| 0 <= i < l0.len() implies #[trigger] events_view(log.events@)[i] == l0[i] by {
                    assert(events_view(log.events@)[i] == lb[i]);
                }
                assert forall|i: int| 0 <= i < j + 1 implies #[trigger] events_view(log.events@)[l0.len() + i]
                    == (e0[i].name@, fields_view(events@[i].fields@), self.tick) by {
                    if i < j {
                        assert(events_view(log.events@)[l0.len() + i] == lb[l0.len() + i]);
                        assert(events@[i] == before[i]);
                    }
                }
                assert forall|i: int| 0 <= i < j + 1 implies resolved(*self, *ctx, *lk, *float_prop, e0[i].fields@,
                    #[trigger] events@[i].fields@) by {
                    if i < j {
                        assert(events@[i] == before[i]);
                    } else {
                        assert(b == e0[i].fields@);
                        assert(fields_view(events@[i].fields@) == without_internal(fields_view(e0[i].fields@) + fields_view(x)));
                    }
                }
                assert forall|i: int| j + 1 <= i < e0.len() implies #[trigger] events@[i] == e0[i] by {
                    assert(events@[i] == before[i]);
                }
            }
            j += 1;
        }
        Ok(())
    }
}

} // verus!
