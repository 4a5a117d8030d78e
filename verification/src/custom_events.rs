use vstd::prelude::*;
use crate::variants::{Variant, VarKind, Cell, strings_view};
use crate::error::DemoParserError;
use crate::game_types::{EventField, GameEvent, PlayerMetaData, lookup_name};
use crate::prop_controller::PropInfo;
use crate::purchases::{GameEventInfo, RoundEnd, purchase_view, purchases_from, purchase_parts, combine_purchase_events, contains_round_end_event, contains_freeze_period_start, contains_match_end, contains_weapon_create};
use crate::game_types::PurchaseEvent;
use crate::entity_state::{EntityState, ok_of};
use crate::event_fields::{FieldView, fields_view, extend_fields, all_non_player_fields};
use crate::player_meta::{option_view, players_view, meta_view};
use crate::game_types::name_for;
use crate::props::{ITEM_PURCHASE_COUNT, ITEM_PURCHASE_NEW_DEF_IDX, ITEM_PURCHASE_COST, WEAPON_FLOAT, WEAPON_PAINT_SEED};
use crate::strings::{str_eq, signed_decimal, i32_to_decimal};

verus! {

/// An event as a mathematical value: its name, fields and tick.
pub type EventView = (Seq<char>, Seq<FieldView>, i32);

/// An event as a mathematical value.
pub open spec fn event_view(e: GameEvent) -> EventView {
    (e.name@, fields_view(e.fields@), e.tick)
}

/// Events as mathematical values, in order.
pub open spec fn events_view(es: Seq<GameEvent>) -> Seq<EventView> {
    es.map_values(|e: GameEvent| event_view(e))
}

/// What the lookups that work on floating-point values gave for the
/// current tick, worked out outside the library: the event properties of
/// players by pawn id, the skin, skin id and stickers of weapons by entity
/// id, and the game time (the bits of an `f32`).
#[derive(Debug)]
pub struct TickExtras {
    pub user_props: Vec<(i32, Vec<EventField>)>,
    pub weapon_skins: Vec<(i32, SkinValues)>,
    pub game_time: u32,
}

/// A weapon's skin name, skin id and stickers, each where known.
#[derive(Debug)]
pub struct SkinValues {
    pub skin: Option<Variant>,
    pub skin_id: Option<Variant>,
    pub stickers: Option<Variant>,
}

/// Whether events named `name` are wanted: they are listed, or the list
/// starts with "all".
pub open spec fn is_wanted(wanted: Seq<String>, name: Seq<char>) -> bool {
    strings_view(wanted).contains(name) || (wanted.len() > 0 && wanted[0]@ == "all"@)
}

/// Whether events named `name` are wanted.
pub fn wants_event(wanted: &Vec<String>, name: &str) -> (r: bool)
    ensures
        r == is_wanted(wanted@, name@),
{
    let mut i: usize = 0;
    while i < wanted.len()
        invariant
            i <= wanted@.len(),
            forall|j: int| 0 <= j < i ==> wanted@[j]@ != name@,
        decreases wanted@.len() - i,
    {
        if str_eq(wanted[i].as_str(), name) {
            assert(strings_view(wanted@)[i as int] == name@);
            return true;
        }
        i += 1;
    }
    assert(!strings_view(wanted@).contains(name@)) by {
        if strings_view(wanted@).contains(name@) {
            let j = choose|j: int| 0 <= j < strings_view(wanted@).len() && strings_view(wanted@)[j] == name@;
            assert(wanted@[j]@ == name@);
        }
    }
    if wanted.len() > 0 {
        str_eq(wanted[0].as_str(), "all")
    } else {
        false
    }
}

/// Notes that an event named `name` was met, once.
pub fn note_event(seen: &mut Vec<String>, name: &str)
    ensures
        strings_view(final(seen)@) == if strings_view(old(seen)@).contains(name@) {
            strings_view(old(seen)@)
        } else {
            strings_view(old(seen)@).push(name@)
        },
{
    let mut i: usize = 0;
    while i < seen.len()
        invariant
            i <= seen@.len(),
            forall|j: int| 0 <= j < i ==> seen@[j]@ != name@,
        decreases seen@.len() - i,
    {
        if str_eq(seen[i].as_str(), name) {
            assert(strings_view(seen@)[i as int] == name@);
            return;
        }
        i += 1;
    }
    assert(!strings_view(seen@).contains(name@)) by {
        if strings_view(seen@).contains(name@) {
            let j = choose|j: int| 0 <= j < strings_view(seen@).len() && strings_view(seen@)[j] == name@;
            assert(seen@[j]@ == name@);
        }
    }
    let ghost s0 = seen@;
    seen.push(name.to_string());
    assert(strings_view(seen@) =~= strings_view(s0).push(name@));
}

/// The event properties listed for player `entid`: the first entry for it,
/// or none.
pub open spec fn user_fields(props: Seq<(i32, Vec<EventField>)>, entid: i32) -> Seq<FieldView>
    decreases props.len(),
{
    if props.len() == 0 {
        Seq::empty()
    } else if props[0].0 == entid {
        fields_view(props[0].1@)
    } else {
        user_fields(props.drop_first(), entid)
    }
}

/// Appends the event properties listed for player `entid`.
fn extend_user_fields(fields: &mut Vec<EventField>, props: &Vec<(i32, Vec<EventField>)>, entid: i32)
    ensures
        fields_view(final(fields)@) == fields_view(old(fields)@) + user_fields(props@, entid),
{
    let mut i: usize = 0;
    assert(props@.skip(0) =~= props@);
    while i < props.len()
        invariant
            i <= props@.len(),
            *fields == *old(fields),
            user_fields(props@, entid) == user_fields(props@.skip(i as int), entid),
        decreases props@.len() - i,
    {
        assert(props@.skip(i as int)[0] == props@[i as int]);
        if props[i].0 == entid {
            extend_fields(fields, &props[i].1);
            return;
        }
        assert(props@.skip(i as int).drop_first() =~= props@.skip(i + 1));
        i += 1;
    }
    assert(fields_view(fields@) + Seq::<FieldView>::empty() =~= fields_view(fields@));
}

/// The value named `which` (0 skin, 1 skin id, 2 stickers) listed for
/// weapon `weapon`: the first entry for it, or none.
pub open spec fn skin_value(skins: Seq<(i32, SkinValues)>, weapon: i32, which: int) -> Option<Variant>
    decreases skins.len(),
{
    if skins.len() == 0 {
        None
    } else if skins[0].0 == weapon {
        if which == 0 { skins[0].1.skin } else if which == 1 { skins[0].1.skin_id } else { skins[0].1.stickers }
    } else {
        skin_value(skins.drop_first(), weapon, which)
    }
}

/// A copy of the value named `which` listed for weapon `weapon`.
fn find_skin_value(skins: &Vec<(i32, SkinValues)>, weapon: i32, which: u8) -> (r: Option<Variant>)
    requires
        which < 3,
    ensures
        option_view(r) == option_view(skin_value(skins@, weapon, which as int)),
{
    let mut i: usize = 0;
    assert(skins@.skip(0) =~= skins@);
    while i < skins.len()
        invariant
            i <= skins@.len(),
            which < 3,
            skin_value(skins@, weapon, which as int) == skin_value(skins@.skip(i as int), weapon, which as int),
        decreases skins@.len() - i,
    {
        assert(skins@.skip(i as int)[0] == skins@[i as int]);
        if skins[i].0 == weapon {
            let v = if which == 0 {
                &skins[i].1.skin
            } else if which == 1 {
                &skins[i].1.skin_id
            } else {
                &skins[i].1.stickers
            };
            return match v {
                Some(x) => Some(crate::variants::clone_variant(x)),
                None => None,
            };
        }
        assert(skins@.skip(i as int).drop_first() =~= skins@.skip(i + 1));
        i += 1;
    }
    None
}

/// The first round-end change among a tick's updates.
pub open spec fn first_round_end(events: Seq<GameEventInfo>) -> Option<RoundEnd>
    decreases events.len(),
{
    if events.len() == 0 {
        None
    } else {
        match events[0] {
            GameEventInfo::RoundEnd(r) => Some(r),
            _ => first_round_end(events.drop_first()),
        }
    }
}

/// The first round-win reason among a tick's updates.
pub open spec fn first_win_reason(events: Seq<GameEventInfo>) -> Option<i32>
    decreases events.len(),
{
    if events.len() == 0 {
        None
    } else {
        match events[0] {
            GameEventInfo::RoundWinReason(r) => Some(r.reason),
            _ => first_win_reason(events.drop_first()),
        }
    }
}

/// The name a table gives number `k`: the first entry for it.
pub open spec fn name_for_signed(table: Seq<(i32, String)>, k: i32) -> Option<Seq<char>>
    decreases table.len(),
{
    if table.len() == 0 {
        None
    } else if table[0].0 == k {
        Some(table[0].1@)
    } else {
        name_for_signed(table.drop_first(), k)
    }
}

/// The text for reason `k`: its name in `table`, or the number in decimal.
pub open spec fn reason_text(table: Seq<(i32, String)>, k: i32) -> Seq<char> {
    match name_for_signed(table, k) {
        Some(n) => n,
        None => signed_decimal(k as int),
    }
}

/// The text `table` gives the tick's first round-win reason, if any.
pub open spec fn win_text(events: Seq<GameEventInfo>, table: Seq<(i32, String)>) -> Option<Seq<char>> {
    match first_win_reason(events) {
        Some(k) => Some(reason_text(table, k)),
        None => None,
    }
}

/// The tick's first round-end change.
fn extract_round_end(events: &Vec<GameEventInfo>) -> (r: Option<&RoundEnd>)
    ensures
        match first_round_end(events@) {
            Some(x) => r matches Some(re) && *re == x,
            None => r is None,
        },
{
    let mut i: usize = 0;
    assert(events@.skip(0) =~= events@);
    while i < events.len()
        invariant
            i <= events@.len(),
            first_round_end(events@) == first_round_end(events@.skip(i as int)),
        decreases events@.len() - i,
    {
        assert(events@.skip(i as int)[0] == events@[i as int]);
        if let GameEventInfo::RoundEnd(re) = &events[i] {
            return Some(re);
        }
        assert(events@.skip(i as int).drop_first() =~= events@.skip(i + 1));
        i += 1;
    }
    None
}

/// The text for reason `k`: its name in `table`, or the number in decimal.
pub(crate) fn reason_string(table: &Vec<(i32, String)>, k: i32) -> (r: String)
    ensures
        r@ == reason_text(table@, k),
{
    let mut i: usize = 0;
    assert(table@.skip(0) =~= table@);
    while i < table.len()
        invariant
            i <= table@.len(),
            name_for_signed(table@, k) == name_for_signed(table@.skip(i as int), k),
        decreases table@.len() - i,
    {
        assert(table@.skip(i as int)[0] == table@[i as int]);
        if table[i].0 == k {
            return table[i].1.clone();
        }
        assert(table@.skip(i as int).drop_first() =~= table@.skip(i + 1));
        i += 1;
    }
    i32_to_decimal(k)
}

/// The text the tick's first round-win reason has in `table`, as a value.
fn extract_reason(events: &Vec<GameEventInfo>, table: &Vec<(i32, String)>) -> (r: Option<Variant>)
    ensures
        match win_text(events@, table@) {
            Some(t) => r matches Some(Variant::String(s)) && s@ == t,
            None => r is None,
        },
{
    let mut i: usize = 0;
    assert(events@.skip(0) =~= events@);
    while i < events.len()
        invariant
            i <= events@.len(),
            first_win_reason(events@) == first_win_reason(events@.skip(i as int)),
        decreases events@.len() - i,
    {
        assert(events@.skip(i as int)[0] == events@[i as int]);
        if let GameEventInfo::RoundWinReason(w) = &events[i] {
            return Some(Variant::String(reason_string(table, w.reason)));
        }
        assert(events@.skip(i as int).drop_first() =~= events@.skip(i + 1));
        i += 1;
    }
    None
}

/// A text as the value of a field, where there is one.
pub open spec fn text_value(t: Option<Seq<char>>) -> Option<(VarKind, Cell, bool, bool)> {
    match t {
        Some(t) => Some((VarKind::String, Cell::Str(t), false, false)),
        None => None,
    }
}

/// What the event builders read besides the entities: the wanted event
/// names, the collected properties, the values worked out outside the
/// library for this tick, and the tables of round-win reasons, winners and
/// weapon names.
#[derive(Debug)]
pub struct EventContext {
    pub wanted: Vec<String>,
    pub prop_infos: Vec<PropInfo>,
    pub extras: TickExtras,
    pub win_reasons: Vec<(i32, String)>,
    pub winners: Vec<(i32, String)>,
    pub weapon_names: Vec<(u32, String)>,
}

/// The events made so far and the names of the events met.
#[derive(Debug)]
pub struct EventLog {
    pub events: Vec<GameEvent>,
    pub seen: Vec<String>,
}

/// The names met after meeting `name`.
pub open spec fn seen_after(seen: Seq<Seq<char>>, name: Seq<char>) -> Seq<Seq<char>> {
    if seen.contains(name) { seen } else { seen.push(name) }
}

/// Meeting a name twice is meeting it once.
pub proof fn lemma_seen_after_twice(seen: Seq<Seq<char>>, name: Seq<char>)
    ensures
        seen_after(seen_after(seen, name), name) == seen_after(seen, name),
        seen_after(seen, name).contains(name),
{
    if !seen.contains(name) {
        assert(seen.push(name)[seen.len() as int] == name);
    }
}

/// The fields of every event that do not belong to a player.
pub open spec fn common_fields(s: EntityState, ctx: EventContext) -> Seq<FieldView> {
    all_non_player_fields(s, ctx.prop_infos@, ctx.extras.game_time)
}

/// The round-end event of a tick, where its first round-end change moves
/// the counter by one: the round, the reason and winner texts, the tick,
/// then the common fields.
pub open spec fn round_end_event(s: EntityState, ctx: EventContext, events: Seq<GameEventInfo>) -> Option<EventView> {
    match first_round_end(events) {
        Some(re) => match (re.old_value, re.new_value) {
            (Some(Variant::U32(o)), Some(Variant::U32(n))) => if n.wrapping_sub(o) == 1 {
                Some(("round_end"@, seq![
                    ("round"@, option_view(Some(Variant::U32(o.wrapping_add(1))))),
                    ("reason"@, text_value(win_text(events, ctx.win_reasons@))),
                    ("winner"@, text_value(win_text(events, ctx.winners@))),
                    ("tick"@, option_view(Some(Variant::I32(s.tick)))),
                ] + common_fields(s, ctx), s.tick))
            } else {
                None
            },
            _ => None,
        },
        None => None,
    }
}

/// The round-start event: the round, the tick, then the common fields.
pub open spec fn round_start_event(s: EntityState, ctx: EventContext) -> EventView {
    ("round_start"@, seq![
        ("round"@, option_view(s.current_round())),
        ("tick"@, option_view(Some(Variant::I32(s.tick)))),
    ] + common_fields(s, ctx), s.tick)
}

/// The event that closes the previous round, where there was one: the
/// common fields, then the tick. None in the first round.
pub open spec fn round_officially_ended_event(s: EntityState, ctx: EventContext) -> Option<EventView> {
    if s.current_round() matches Some(Variant::I32(x)) && x <= 1 {
        None
    } else {
        Some(("round_officially_ended"@, common_fields(s, ctx).push(("tick"@, option_view(Some(Variant::I32(s.tick))))), s.tick))
    }
}

/// The match-end event: the common fields, then the tick.
pub open spec fn match_end_event(s: EntityState, ctx: EventContext) -> EventView {
    ("cs_win_panel_match"@, common_fields(s, ctx).push(("tick"@, option_view(Some(Variant::I32(s.tick))))), s.tick)
}

/// The text of an optional name, as the value of a field.
pub open spec fn name_value(m: Option<Seq<char>>) -> Option<(VarKind, Cell, bool, bool)> {
    text_value(m)
}

/// The sale event that an update of a player's purchase count to 0 makes:
/// the player's name and steam id (0 where unknown), the tick, the name
/// and cost of the item in that inventory slot, the slot, then the player's
/// properties and the common fields. None for other updates and unknown
/// players.
pub open spec fn sold_event(s: EntityState, ctx: EventContext, e: GameEventInfo) -> Option<EventView> {
    match e {
        GameEventInfo::WeaponPurchaseCount((Variant::U32(count), entid, prop_id)) => if count == 0 && s.player_known(entid) {
            let m = players_view(s.players@)[entid];
            let slot = prop_id.wrapping_sub(ITEM_PURCHASE_COUNT);
            Some(("item_sold"@, seq![
                ("name"@, name_value(m.3)),
                ("steamid"@, option_view(Some(Variant::U64(match m.1 { Some(x) => x, None => 0 })))),
                ("tick"@, option_view(Some(Variant::I32(s.tick)))),
                ("weapon_name"@, text_value(match s.prop(ITEM_PURCHASE_NEW_DEF_IDX.wrapping_add(slot), entid) {
                    Ok(Variant::U32(id)) => name_for(ctx.weapon_names@, id),
                    _ => None,
                })),
                ("cost"@, option_view(ok_of(s.prop(ITEM_PURCHASE_COST.wrapping_add(slot), entid)))),
                ("inventory_slot"@, option_view(Some(Variant::U32(slot)))),
            ] + user_fields(ctx.extras.user_props@, entid) + common_fields(s, ctx), s.tick))
        } else {
            None
        },
        _ => None,
    }
}

/// The sale events of a tick's updates, in order.
pub open spec fn sold_events(s: EntityState, ctx: EventContext, events: Seq<GameEventInfo>) -> Seq<EventView>
    decreases events.len(),
{
    if events.len() == 0 {
        Seq::empty()
    } else {
        let rest = sold_events(s, ctx, events.drop_last());
        match sold_event(s, ctx, events.last()) {
            Some(v) => rest.push(v),
            None => rest,
        }
    }
}

/// The first fields of the event of purchase `p` (as a tuple: buyer, cost,
/// item name, weapon entity, slot) by player `m`: the item's name, the
/// player's name and steam id (0 where unknown), the slot, cost and tick,
/// the weapon's float, skin and skin id, paint seed, stickers and custom
/// name.
pub open spec fn purchase_head(
    s: EntityState,
    ctx: EventContext,
    p: (i32, i32, Option<Seq<char>>, i32, u32),
    m: (Option<i32>, Option<u64>, Option<i32>, Option<Seq<char>>, Option<u32>),
) -> Seq<FieldView> {
    let (entid, cost, item, weapon, slot) = p;
    seq![
        ("item_name"@, text_value(item)),
        ("name"@, name_value(m.3)),
        ("steamid"@, option_view(Some(Variant::U64(match m.1 { Some(x) => x, None => 0 })))),
        ("inventory_slot"@, option_view(Some(Variant::U32(slot)))),
        ("cost"@, option_view(Some(Variant::I32(cost)))),
        ("tick"@, option_view(Some(Variant::I32(s.tick)))),
        ("float"@, option_view(ok_of(s.prop(WEAPON_FLOAT, weapon)))),
        ("skin"@, option_view(skin_value(ctx.extras.weapon_skins@, weapon, 0))),
        ("skin_id"@, option_view(skin_value(ctx.extras.weapon_skins@, weapon, 1))),
        ("paint_seed"@, option_view(ok_of(s.prop(WEAPON_PAINT_SEED, weapon)))),
        ("stickers"@, option_view(skin_value(ctx.extras.weapon_skins@, weapon, 2))),
        ("custom_name"@, option_view(s.prop_opt(s.special_ids.custom_name, weapon))),
    ]
}

/// All fields of the event of purchase `p` by player `m`: the first
/// fields, then the player's properties and the common fields.
pub open spec fn purchase_event_fields(
    s: EntityState,
    ctx: EventContext,
    p: (i32, i32, Option<Seq<char>>, i32, u32),
    m: (Option<i32>, Option<u64>, Option<i32>, Option<Seq<char>>, Option<u32>),
) -> Seq<FieldView> {
    purchase_head(s, ctx, p, m) + user_fields(ctx.extras.user_props@, p.0) + common_fields(s, ctx)
}

/// The event of purchase `p` (as a tuple: buyer, cost, item name, weapon
/// entity, slot), where the buyer is a known player in a buy zone.
pub open spec fn purchase_event(s: EntityState, ctx: EventContext, p: (i32, i32, Option<Seq<char>>, i32, u32)) -> Option<EventView> {
    match s.special_ids.in_buy_zone {
        Some(z) => if s.prop(z, p.0) matches Ok(Variant::Bool(true)) && s.player_known(p.0) {
            Some(("item_purchase"@, purchase_event_fields(s, ctx, p, players_view(s.players@)[p.0]), s.tick))
        } else {
            None
        },
        None => None,
    }
}

/// The purchase events of a tick's purchases, in order.
pub open spec fn purchase_events(s: EntityState, ctx: EventContext, ps: Seq<(i32, i32, Option<Seq<char>>, i32, u32)>) -> Seq<EventView>
    decreases ps.len(),
{
    if ps.len() == 0 {
        Seq::empty()
    } else {
        let rest = purchase_events(s, ctx, ps.drop_last());
        match purchase_event(s, ctx, ps.last()) {
            Some(v) => rest.push(v),
            None => rest,
        }
    }
}

/// An optional event as a sequence of none or one.
pub open spec fn opt_seq(e: Option<EventView>) -> Seq<EventView> {
    match e {
        Some(v) => seq![v],
        None => Seq::empty(),
    }
}

/// The event named `name`, where it is wanted.
pub open spec fn if_wanted(ctx: EventContext, name: Seq<char>, e: Option<EventView>) -> Seq<EventView> {
    if is_wanted(ctx.wanted@, name) { opt_seq(e) } else { Seq::empty() }
}

/// Some update of the tick has this kind.
pub open spec fn has_round_end(events: Seq<GameEventInfo>) -> bool {
    exists|i: int| 0 <= i < events.len() && #[trigger] events[i] is RoundEnd
}

/// Some update of the tick starts the freeze period.
pub open spec fn has_freeze_start(events: Seq<GameEventInfo>) -> bool {
    exists|i: int| 0 <= i < events.len() && #[trigger] events[i] is FreezePeriodStart
}

/// Some update of the tick ends the match.
pub open spec fn has_match_end(events: Seq<GameEventInfo>) -> bool {
    exists|i: int| 0 <= i < events.len() && #[trigger] events[i] is MatchEnd
}

/// Some update of the tick creates a weapon.
pub open spec fn has_weapon_create(events: Seq<GameEventInfo>) -> bool {
    exists|i: int| 0 <= i < events.len() && #[trigger] events[i] is WeaponCreateDefIdx
}

/// The round-end event a tick's updates make, where they change the round
/// counter and it is wanted.
#[verifier::opaque]
pub open spec fn round_end_step(s: EntityState, ctx: EventContext, events: Seq<GameEventInfo>) -> Seq<EventView> {
    if has_round_end(events) { if_wanted(ctx, "round_end"@, round_end_event(s, ctx, events)) } else { Seq::empty() }
}

/// The events that end the previous round and start the next, where the
/// freeze period starts and each is wanted.
#[verifier::opaque]
pub open spec fn freeze_step(s: EntityState, ctx: EventContext, events: Seq<GameEventInfo>) -> Seq<EventView> {
    if has_freeze_start(events) {
        if_wanted(ctx, "round_officially_ended"@, round_officially_ended_event(s, ctx))
            + if_wanted(ctx, "round_start"@, Some(round_start_event(s, ctx)))
    } else {
        Seq::empty()
    }
}

/// The match-end event, where the match ends and it is wanted.
#[verifier::opaque]
pub open spec fn match_end_step(s: EntityState, ctx: EventContext, events: Seq<GameEventInfo>) -> Seq<EventView> {
    if has_match_end(events) { if_wanted(ctx, "cs_win_panel_match"@, Some(match_end_event(s, ctx))) } else { Seq::empty() }
}

/// The purchase events, where weapons are created and purchases wanted.
#[verifier::opaque]
pub open spec fn purchase_step(s: EntityState, ctx: EventContext, events: Seq<GameEventInfo>) -> Seq<EventView> {
    if has_weapon_create(events) && is_wanted(ctx.wanted@, "item_purchase"@) {
        purchase_events(s, ctx, purchases_from(purchase_parts(events), ctx.weapon_names@))
    } else {
        Seq::empty()
    }
}

/// The events a tick's updates make, in order: the round's end, the end
/// of the previous round and the start of the next, the match's end, the
/// purchases, then the sales; each where its updates are present and it
/// is wanted (sales always).
pub open spec fn emitted_events(s: EntityState, ctx: EventContext, events: Seq<GameEventInfo>) -> Seq<EventView> {
    round_end_step(s, ctx, events) + freeze_step(s, ctx, events) + match_end_step(s, ctx, events)
        + purchase_step(s, ctx, events) + sold_events(s, ctx, events)
}

/// The names met after a tick's updates.
pub open spec fn emitted_seen(seen: Seq<Seq<char>>, s: EntityState, ctx: EventContext, events: Seq<GameEventInfo>) -> Seq<Seq<char>> {
    let a = if has_round_end(events) { seen_after(seen, "round_end"@) } else { seen };
    let b = if has_freeze_start(events) { seen_after(seen_after(a, "round_officially_ended"@), "round_start"@) } else { a };
    let c = if has_match_end(events) { seen_after(b, "cs_win_panel_match"@) } else { b };
    let d = if has_weapon_create(events) { seen_after(c, "item_purchase"@) } else { c };
    if sold_events(s, ctx, events).len() > 0 { seen_after(d, "item_sold"@) } else { d }
}

/// The log after event `e`, if any, is made, with `name` met.
pub open spec fn logged(before: EventLog, after: EventLog, name: Seq<char>, e: Option<EventView>) -> bool {
    &&& strings_view(after.seen@) == seen_after(strings_view(before.seen@), name)
    &&& events_view(after.events@) == match e {
        Some(v) => events_view(before.events@).push(v),
        None => events_view(before.events@),
    }
}

impl EntityState {
    /// The fields of every event that do not belong to a player.
    fn common_event_fields(&self, ctx: &EventContext) -> (r: Vec<EventField>)
        ensures
            fields_view(r@) == common_fields(*self, *ctx),
    {
        self.find_non_player_props(&ctx.prop_infos, ctx.extras.game_time)
    }

    /// Adds `e` to the log.
    pub(crate) fn push_event(log: &mut EventLog, e: GameEvent)
        ensures
            final(log).seen == old(log).seen,
            events_view(final(log).events@) == events_view(old(log).events@).push(event_view(e)),
    {
        let ghost e0 = log.events@;
        log.events.push(e);
        assert(events_view(log.events@) =~= events_view(e0).push(event_view(e)));
    }

    /// Makes the round-end event, where wanted, as `round_end_event` says.
    pub fn create_custom_event_round_end(&self, ctx: &EventContext, events: &Vec<GameEventInfo>, log: &mut EventLog) -> (r: Result<(), DemoParserError>)
        ensures
            r is Ok,
            logged(*old(log), *final(log), "round_end"@,
                if is_wanted(ctx.wanted@, "round_end"@) { round_end_event(*self, *ctx, events@) } else { None }),
    {
        proof {
            reveal_strlit("round_end");
        }
        note_event(&mut log.seen, "round_end");
        if !wants_event(&ctx.wanted, "round_end") {
            return Ok(());
        }
        let re = match extract_round_end(events) {
            Some(re) => re,
            None => return Ok(()),
        };
        match (&re.old_value, &re.new_value) {
            (Some(Variant::U32(o)), Some(Variant::U32(n))) => {
                if n.wrapping_sub(*o) != 1 {
                    return Ok(());
                }
                let mut fields = vec![
                    EventField { name: "round".to_string(), data: Some(Variant::U32(o.wrapping_add(1))) },
                    EventField { name: "reason".to_string(), data: extract_reason(events, &ctx.win_reasons) },
                    EventField { name: "winner".to_string(), data: extract_reason(events, &ctx.winners) },
                    EventField { name: "tick".to_string(), data: Some(Variant::I32(self.tick)) },
                ];
                let ghost head = seq![
                    ("round"@, option_view(Some(Variant::U32(o.wrapping_add(1))))),
                    ("reason"@, text_value(win_text(events@, ctx.win_reasons@))),
                    ("winner"@, text_value(win_text(events@, ctx.winners@))),
                    ("tick"@, option_view(Some(Variant::I32(self.tick)))),
                ];
                assert(fields_view(fields@) =~= head);
                let common = self.common_event_fields(ctx);
                extend_fields(&mut fields, &common);
                let e = GameEvent { name: "round_end".to_string(), fields, tick: self.tick };
                assert(event_view(e) == round_end_event(*self, *ctx, events@)->Some_0);
                Self::push_event(log, e);
            },
            _ => {},
        }
        Ok(())
    }
    /// Makes the round-start event, where wanted.
    pub fn create_custom_event_round_start(&self, ctx: &EventContext, log: &mut EventLog) -> (r: Result<(), DemoParserError>)
        ensures
            r is Ok,
            logged(*old(log), *final(log), "round_start"@,
                if is_wanted(ctx.wanted@, "round_start"@) { Some(round_start_event(*self, *ctx)) } else { None }),
    {
        note_event(&mut log.seen, "round_start");
        if !wants_event(&ctx.wanted, "round_start") {
            return Ok(());
        }
        let mut fields = vec![
            EventField { name: "round".to_string(), data: self.find_current_round() },
            EventField { name: "tick".to_string(), data: Some(Variant::I32(self.tick)) },
        ];
        let ghost head = seq![
            ("round"@, option_view(self.current_round())),
            ("tick"@, option_view(Some(Variant::I32(self.tick)))),
        ];
        assert(fields_view(fields@) =~= head);
        let common = self.common_event_fields(ctx);
        extend_fields(&mut fields, &common);
        let e = GameEvent { name: "round_start".to_string(), fields, tick: self.tick };
        Self::push_event(log, e);
        Ok(())
    }

    /// The common fields followed by the tick.
    fn common_then_tick(&self, ctx: &EventContext) -> (r: Vec<EventField>)
        ensures
            fields_view(r@) == common_fields(*self, *ctx).push(("tick"@, option_view(Some(Variant::I32(self.tick))))),
    {
        let mut fields = self.common_event_fields(ctx);
        let ghost f0 = fields@;
        fields.push(EventField { name: "tick".to_string(), data: Some(Variant::I32(self.tick)) });
        assert(fields_view(fields@) =~= fields_view(f0).push(("tick"@, option_view(Some(Variant::I32(self.tick))))));
        fields
    }

    /// Makes the event that closes the previous round, where wanted and
    /// this is not the first round.
    pub fn create_custom_event_round_officially_ended(&self, ctx: &EventContext, log: &mut EventLog) -> (r: Result<(), DemoParserError>)
        ensures
            r is Ok,
            logged(*old(log), *final(log), "round_officially_ended"@,
                if is_wanted(ctx.wanted@, "round_officially_ended"@) { round_officially_ended_event(*self, *ctx) } else { None }),
    {
        note_event(&mut log.seen, "round_officially_ended");
        if !wants_event(&ctx.wanted, "round_officially_ended") {
            return Ok(());
        }
        if let Some(Variant::I32(x)) = self.find_current_round() {
            if x <= 1 {
                return Ok(());
            }
        }
        let fields = self.common_then_tick(ctx);
        let e = GameEvent { name: "round_officially_ended".to_string(), fields, tick: self.tick };
        Self::push_event(log, e);
        Ok(())
    }

    /// Makes the match-end event, where wanted.
    pub fn create_custom_event_match_end(&self, ctx: &EventContext, log: &mut EventLog) -> (r: Result<(), DemoParserError>)
        ensures
            r is Ok,
            logged(*old(log), *final(log), "cs_win_panel_match"@,
                if is_wanted(ctx.wanted@, "cs_win_panel_match"@) { Some(match_end_event(*self, *ctx)) } else { None }),
    {
        note_event(&mut log.seen, "cs_win_panel_match");
        if !wants_event(&ctx.wanted, "cs_win_panel_match") {
            return Ok(());
        }
        let fields = self.common_then_tick(ctx);
        let e = GameEvent { name: "cs_win_panel_match".to_string(), fields, tick: self.tick };
        Self::push_event(log, e);
        Ok(())
    }
    /// The fields of a sale by player `entid` from inventory slot `slot`.
    fn sold_fields(&self, ctx: &EventContext, player: &PlayerMetaData, entid: i32, slot: u32) -> (r: Vec<EventField>)
        requires
            self.player_known(entid),
            meta_view(*player) == players_view(self.players@)[entid],
        ensures
            fields_view(r@) == seq![
                ("name"@, name_value(meta_view(*player).3)),
                ("steamid"@, option_view(Some(Variant::U64(match player.steamid { Some(x) => x, None => 0 })))),
                ("tick"@, option_view(Some(Variant::I32(self.tick)))),
                ("weapon_name"@, text_value(match self.prop(ITEM_PURCHASE_NEW_DEF_IDX.wrapping_add(slot), entid) {
                    Ok(Variant::U32(id)) => name_for(ctx.weapon_names@, id),
                    _ => None,
                })),
                ("cost"@, option_view(ok_of(self.prop(ITEM_PURCHASE_COST.wrapping_add(slot), entid)))),
                ("inventory_slot"@, option_view(Some(Variant::U32(slot)))),
            ] + user_fields(ctx.extras.user_props@, entid) + common_fields(*self, *ctx),
    {
        let weapon_name = match self.get_prop_from_ent(ITEM_PURCHASE_NEW_DEF_IDX.wrapping_add(slot), entid) {
            Ok(Variant::U32(id)) => match lookup_name(&ctx.weapon_names, id) {
                Some(n) => Some(Variant::String(n)),
                None => None,
            },
            _ => None,
        };
        let name = match self.create_name(player) {
            Ok(v) => Some(v),
            Err(_) => None,
        };
        let cost = match self.get_prop_from_ent(ITEM_PURCHASE_COST.wrapping_add(slot), entid) {
            Ok(v) => Some(v),
            Err(_) => None,
        };
        let mut fields = vec![
            EventField { name: "name".to_string(), data: name },
            EventField { name: "steamid".to_string(), data: Some(Variant::U64(match player.steamid { Some(x) => x, None => 0 })) },
            EventField { name: "tick".to_string(), data: Some(Variant::I32(self.tick)) },
            EventField { name: "weapon_name".to_string(), data: weapon_name },
            EventField { name: "cost".to_string(), data: cost },
            EventField { name: "inventory_slot".to_string(), data: Some(Variant::U32(slot)) },
        ];
        let ghost head = seq![
            ("name"@, name_value(meta_view(*player).3)),
            ("steamid"@, option_view(Some(Variant::U64(match player.steamid { Some(x) => x, None => 0 })))),
            ("tick"@, option_view(Some(Variant::I32(self.tick)))),
            ("weapon_name"@, text_value(match self.prop(ITEM_PURCHASE_NEW_DEF_IDX.wrapping_add(slot), entid) {
                Ok(Variant::U32(id)) => name_for(ctx.weapon_names@, id),
                _ => None,
            })),
            ("cost"@, option_view(ok_of(self.prop(ITEM_PURCHASE_COST.wrapping_add(slot), entid)))),
            ("inventory_slot"@, option_view(Some(Variant::U32(slot)))),
        ];
        assert(fields_view(fields@) =~= head);
        extend_user_fields(&mut fields, &ctx.extras.user_props, entid);
        let common = self.common_event_fields(ctx);
        extend_fields(&mut fields, &common);
        fields
    }

    /// Makes a sale event for each update of a player's purchase count to
    /// 0, as `sold_events` says; `item_sold` is met with the first.
    pub fn create_custom_event_weapon_sold(&self, ctx: &EventContext, events: &Vec<GameEventInfo>, log: &mut EventLog)
        ensures
            events_view(final(log).events@) == events_view(old(log).events@) + sold_events(*self, *ctx, events@),
            strings_view(final(log).seen@) == if sold_events(*self, *ctx, events@).len() > 0 {
                seen_after(strings_view(old(log).seen@), "item_sold"@)
            } else {
                strings_view(old(log).seen@)
            },
    {
        let mut i: usize = 0;
        assert(events@.take(0) =~= Seq::<GameEventInfo>::empty());
        while i < events.len()
            invariant
                i <= events@.len(),
                events_view(log.events@) == events_view(old(log).events@) + sold_events(*self, *ctx, events@.take(i as int)),
                strings_view(log.seen@) == if sold_events(*self, *ctx, events@.take(i as int)).len() > 0 {
                    seen_after(strings_view(old(log).seen@), "item_sold"@)
                } else {
                    strings_view(old(log).seen@)
                },
            decreases events@.len() - i,
        {
            assert(events@.take(i + 1).drop_last() =~= events@.take(i as int));
            assert(events@.take(i + 1).last() == events@[i as int]);
            if let GameEventInfo::WeaponPurchaseCount((Variant::U32(count), entid, prop_id)) = &events[i] {
                if *count == 0 {
                    if let Ok(player) = self.find_player_metadata(*entid) {
                        let slot = prop_id.wrapping_sub(ITEM_PURCHASE_COUNT);
                        let fields = self.sold_fields(ctx, player, *entid, slot);
                        let e = GameEvent { name: "item_sold".to_string(), fields, tick: self.tick };
                        let ghost e0 = log.events@;
                        Self::push_event(log, e);
                        assert(events_view(log.events@) =~= events_view(old(log).events@) + sold_events(*self, *ctx, events@.take(i + 1)));
                        let ghost s0 = strings_view(log.seen@);
                        note_event(&mut log.seen, "item_sold");
                        proof {
                            lemma_seen_after_twice(strings_view(old(log).seen@), "item_sold"@);
                        }
                    }
                }
            }
            i += 1;
        }
        assert(events@.take(events@.len() as int) =~= events@);
    }
    /// The fields of purchase `p` by `player`.
    fn purchase_fields(&self, ctx: &EventContext, p: &PurchaseEvent, player: &PlayerMetaData) -> (r: Vec<EventField>)
        requires
            self.player_known(p.entid),
            meta_view(*player) == players_view(self.players@)[p.entid],
        ensures
            fields_view(r@) == purchase_event_fields(*self, *ctx, purchase_view(*p), meta_view(*player)),
    {
        let item = match &p.name {
            Some(n) => Some(Variant::String(n.clone())),
            None => None,
        };
        let name = match self.create_name(player) {
            Ok(v) => Some(v),
            Err(_) => None,
        };
        let float = match self.get_prop_from_ent(WEAPON_FLOAT, p.weapon_entid) {
            Ok(v) => Some(v),
            Err(_) => None,
        };
        let seed = match self.get_prop_from_ent(WEAPON_PAINT_SEED, p.weapon_entid) {
            Ok(v) => Some(v),
            Err(_) => None,
        };
        let mut fields = vec![
            EventField { name: "item_name".to_string(), data: item },
            EventField { name: "name".to_string(), data: name },
            EventField { name: "steamid".to_string(), data: Some(Variant::U64(match player.steamid { Some(x) => x, None => 0 })) },
            EventField { name: "inventory_slot".to_string(), data: Some(Variant::U32(p.inventory_slot)) },
            EventField { name: "cost".to_string(), data: Some(Variant::I32(p.cost)) },
            EventField { name: "tick".to_string(), data: Some(Variant::I32(self.tick)) },
            EventField { name: "float".to_string(), data: float },
            EventField { name: "skin".to_string(), data: find_skin_value(&ctx.extras.weapon_skins, p.weapon_entid, 0) },
            EventField { name: "skin_id".to_string(), data: find_skin_value(&ctx.extras.weapon_skins, p.weapon_entid, 1) },
            EventField { name: "paint_seed".to_string(), data: seed },
            EventField { name: "stickers".to_string(), data: find_skin_value(&ctx.extras.weapon_skins, p.weapon_entid, 2) },
        ];
        let custom = self.get_prop_variant(self.special_ids.custom_name, p.weapon_entid);
        fields.push(EventField { name: "custom_name".to_string(), data: custom });
        assert(fields_view(fields@) =~= purchase_head(*self, *ctx, purchase_view(*p), meta_view(*player)));
        extend_user_fields(&mut fields, &ctx.extras.user_props, p.entid);
        let common = self.common_event_fields(ctx);
        extend_fields(&mut fields, &common);
        fields
    }

    /// The event of purchase `p`, as `purchase_event` says.
    fn purchase_event_of(&self, ctx: &EventContext, p: &PurchaseEvent) -> (r: Option<GameEvent>)
        ensures
            match purchase_event(*self, *ctx, purchase_view(*p)) {
                Some(v) => r matches Some(e) && event_view(e) == v,
                None => r is None,
            },
    {
        let z = match self.special_ids.in_buy_zone {
            Some(z) => z,
            None => return None,
        };
        let in_zone = match self.get_prop_from_ent(z, p.entid) {
            Ok(Variant::Bool(b)) => b,
            _ => false,
        };
        if !in_zone {
            return None;
        }
        let player = match self.find_player_metadata(p.entid) {
            Ok(m) => m,
            Err(_) => return None,
        };
        let fields = self.purchase_fields(ctx, p, player);
        Some(GameEvent { name: "item_purchase".to_string(), fields, tick: self.tick })
    }

    /// Makes, where wanted, the event of each purchase of the tick by a
    /// known player in a buy zone, as `purchase_events` says.
    pub fn create_custom_event_weapon_purchase(&self, ctx: &EventContext, events: &Vec<GameEventInfo>, log: &mut EventLog)
        ensures
            strings_view(final(log).seen@) == seen_after(strings_view(old(log).seen@), "item_purchase"@),
            events_view(final(log).events@) == events_view(old(log).events@) + if is_wanted(ctx.wanted@, "item_purchase"@) {
                purchase_events(*self, *ctx, purchases_from(purchase_parts(events@), ctx.weapon_names@))
            } else {
                Seq::empty()
            },
    {
        note_event(&mut log.seen, "item_purchase");
        if !wants_event(&ctx.wanted, "item_purchase") {
            assert(events_view(log.events@) =~= events_view(old(log).events@) + Seq::<EventView>::empty());
            return;
        }
        let purchases = combine_purchase_events(events, &ctx.weapon_names);
        let ghost ps = purchases@.map_values(|p: PurchaseEvent| purchase_view(p));
        let ghost e0 = log.events@;
        let mut i: usize = 0;
        assert(ps.take(0) =~= Seq::<(i32, i32, Option<Seq<char>>, i32, u32)>::empty());
        assert(events_view(log.events@) =~= events_view(e0) + purchase_events(*self, *ctx, ps.take(0)));
        while i < purchases.len()
            invariant
                i <= purchases@.len(),
                ps == purchases@.map_values(|p: PurchaseEvent| purchase_view(p)),
                strings_view(log.seen@) == seen_after(strings_view(old(log).seen@), "item_purchase"@),
                events_view(log.events@) == events_view(e0) + purchase_events(*self, *ctx, ps.take(i as int)),
            decreases purchases@.len() - i,
        {
            assert(ps.take(i + 1).drop_last() =~= ps.take(i as int));
            assert(ps.take(i + 1).last() == purchase_view(purchases@[i as int]));
            match self.purchase_event_of(ctx, &purchases[i]) {
                Some(e) => {
                    Self::push_event(log, e);
                    assert(events_view(log.events@) =~= events_view(e0) + purchase_events(*self, *ctx, ps.take(i + 1)));
                },
                None => {},
            }
            i += 1;
        }
        assert(ps.take(ps.len() as int) =~= ps);
    }
    /// The round-end step of `emit_events`.
    fn emit_round_end(&self, ctx: &EventContext, events: &Vec<GameEventInfo>, log: &mut EventLog)
        ensures
            events_view(final(log).events@) == events_view(old(log).events@) + round_end_step(*self, *ctx, events@),
            strings_view(final(log).seen@) == if has_round_end(events@) {
                seen_after(strings_view(old(log).seen@), "round_end"@)
            } else {
                strings_view(old(log).seen@)
            },
    {
        reveal(round_end_step);
        let ghost e0 = events_view(log.events@);
        if contains_round_end_event(events) {
            let _ = self.create_custom_event_round_end(ctx, events, log);
        }
        assert(events_view(log.events@) =~= e0 + round_end_step(*self, *ctx, events@));
    }

    /// The freeze-period step of `emit_events`.
    fn emit_freeze(&self, ctx: &EventContext, events: &Vec<GameEventInfo>, log: &mut EventLog)
        ensures
            events_view(final(log).events@) == events_view(old(log).events@) + freeze_step(*self, *ctx, events@),
            strings_view(final(log).seen@) == if has_freeze_start(events@) {
                seen_after(seen_after(strings_view(old(log).seen@), "round_officially_ended"@), "round_start"@)
            } else {
                strings_view(old(log).seen@)
            },
    {
        reveal(freeze_step);
        let ghost e0 = events_view(log.events@);
        if contains_freeze_period_start(events) {
            let _ = self.create_custom_event_round_officially_ended(ctx, log);
            let ghost e1 = events_view(log.events@);
            let _ = self.create_custom_event_round_start(ctx, log);
            assert(events_view(log.events@) =~= e0 + freeze_step(*self, *ctx, events@));
        } else {
            assert(events_view(log.events@) =~= e0 + freeze_step(*self, *ctx, events@));
        }
    }

    /// The match-end step of `emit_events`.
    fn emit_match_end(&self, ctx: &EventContext, events: &Vec<GameEventInfo>, log: &mut EventLog)
        ensures
            events_view(final(log).events@) == events_view(old(log).events@) + match_end_step(*self, *ctx, events@),
            strings_view(final(log).seen@) == if has_match_end(events@) {
                seen_after(strings_view(old(log).seen@), "cs_win_panel_match"@)
            } else {
                strings_view(old(log).seen@)
            },
    {
        reveal(match_end_step);
        let ghost e0 = events_view(log.events@);
        if contains_match_end(events) {
            let _ = self.create_custom_event_match_end(ctx, log);
        }
        assert(events_view(log.events@) =~= e0 + match_end_step(*self, *ctx, events@));
    }

    /// The purchase step of `emit_events`.
    fn emit_purchases(&self, ctx: &EventContext, events: &Vec<GameEventInfo>, log: &mut EventLog)
        ensures
            events_view(final(log).events@) == events_view(old(log).events@) + purchase_step(*self, *ctx, events@),
            strings_view(final(log).seen@) == if has_weapon_create(events@) {
                seen_after(strings_view(old(log).seen@), "item_purchase"@)
            } else {
                strings_view(old(log).seen@)
            },
    {
        reveal(purchase_step);
        let ghost e0 = events_view(log.events@);
        if contains_weapon_create(events) {
            self.create_custom_event_weapon_purchase(ctx, events, log);
        }
        assert(events_view(log.events@) =~= e0 + purchase_step(*self, *ctx, events@));
    }

    /// Makes the events a tick's updates call for, as `emitted_events`
    /// says.
    pub fn emit_events(&self, ctx: &EventContext, events: &Vec<GameEventInfo>, log: &mut EventLog) -> (r: Result<(), DemoParserError>)
        ensures
            r is Ok,
            events_view(final(log).events@) == events_view(old(log).events@) + emitted_events(*self, *ctx, events@),
            strings_view(final(log).seen@) == emitted_seen(strings_view(old(log).seen@), *self, *ctx, events@),
    {
        let ghost e0 = events_view(log.events@);
        self.emit_round_end(ctx, events, log);
        self.emit_freeze(ctx, events, log);
        self.emit_match_end(ctx, events, log);
        self.emit_purchases(ctx, events, log);
        self.create_custom_event_weapon_sold(ctx, events, log);
        assert(events_view(log.events@) =~= e0 + emitted_events(*self, *ctx, events@));
        Ok(())
    }
}

} // verus!
