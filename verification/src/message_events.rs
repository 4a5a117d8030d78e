use vstd::prelude::*;
use crate::variants::{Variant, VarKind, Cell, strings_view, variant_view};
use crate::game_types::{EventField, GameEvent, PropCollectionError};
use crate::error::DemoParserError;
use crate::entity_state::{EntityState, first_with_controller};
use crate::event_fields::{FieldView, fields_view, extend_fields, player_fields, n_event_props};
use crate::custom_events::{EventContext, EventLog, EventView, common_fields, events_view, is_wanted, seen_after, wants_event, note_event};
use crate::collect::{FloatProp, PropLookups, extra_fields_match, lemma_extra_fields_len};
use crate::player_meta::option_view;

verus! {

/// The steam id of an individual account is its 32-bit id plus this.
pub const STEAMID64_INDIVIDUAL_IDENTIFIER: u64 = 0x0110000100000000;

/// A console variable a server set.
#[derive(Debug)]
pub struct ConVar {
    pub name: Option<String>,
    pub value: Option<String>,
}

/// The console variables of a message that sets them, where it has any.
#[derive(Debug)]
pub struct SetConVarMsg {
    pub convars: Option<Vec<ConVar>>,
}

/// A chat message: the entity of the controller who wrote it and the text.
#[derive(Debug)]
pub struct SayText2Msg {
    pub entityindex: Option<i32>,
    pub param2: Option<String>,
}

/// A message of the server.
#[derive(Debug)]
pub struct SayTextMsg {
    pub text: Option<String>,
}

/// A change of a player's competitive rank; `rank_change` holds the bits
/// of an `f32`.
#[derive(Debug)]
pub struct RankUpdate {
    pub account_id: Option<i32>,
    pub rank_old: Option<i32>,
    pub rank_new: Option<i32>,
    pub num_wins: Option<i32>,
    pub rank_change: Option<u32>,
    pub rank_type_id: Option<i32>,
}

/// The rank changes of a message.
#[derive(Debug)]
pub struct RankUpdateMsg {
    pub rank_update: Vec<RankUpdate>,
}

/// A text that may be missing, missing read as empty, as a field value.
pub open spec fn text_field(t: Option<String>) -> Option<(VarKind, Cell, bool, bool)> {
    Some((VarKind::String, Cell::Str(match t { Some(t) => t@, None => Seq::empty() }), false, false))
}

/// A number that may be missing, missing read as 0, as a field value.
pub open spec fn int_field(v: Option<i32>) -> Option<(VarKind, Cell, bool, bool)> {
    option_view(Some(Variant::I32(match v { Some(v) => v, None => 0 })))
}

/// The fields of the console variables `vars`: the value, then the name, of
/// each.
pub open spec fn convar_fields(vars: Seq<ConVar>) -> Seq<FieldView>
    decreases vars.len(),
{
    if vars.len() == 0 {
        Seq::empty()
    } else {
        convar_fields(vars.drop_last()) + seq![
            ("value"@, text_field(vars.last().value)),
            ("name"@, text_field(vars.last().name)),
        ]
    }
}

/// The event of a message that sets console variables: their fields, the
/// common fields, then the tick. None for a message without variables.
pub open spec fn convar_event(s: EntityState, ctx: EventContext, msg: SetConVarMsg) -> Option<EventView> {
    match msg.convars {
        Some(vars) => Some(("server_cvar"@, convar_fields(vars@) + common_fields(s, ctx)
            + seq![("tick"@, option_view(Some(Variant::I32(s.tick))))], s.tick)),
        None => None,
    }
}

/// The event of a server message: the text, the tick, then the common
/// fields.
pub open spec fn server_message_event(s: EntityState, ctx: EventContext, msg: SayTextMsg) -> EventView {
    ("server_message"@, seq![
        ("server_message"@, text_field(msg.text)),
        ("tick"@, option_view(Some(Variant::I32(s.tick)))),
    ] + common_fields(s, ctx), s.tick)
}

/// The pawn of the player whose controller is entity `controller`; the
/// largest `i32` where it is not known.
pub open spec fn pawn_of_controller(s: EntityState, controller: i32) -> i32 {
    match first_with_controller(s.players@, controller) {
        Some(j) => match s.players@[j].1.player_entity_id {
            Some(e) => e,
            None => i32::MAX,
        },
        None => i32::MAX,
    }
}

/// `fields` are `head`, then the name, steam id and reported properties of
/// the player with pawn `e` as `user`, then the common fields.
pub open spec fn player_event_fields<F: Fn(FloatProp, i32) -> Result<Variant, PropCollectionError>>(
    s: EntityState,
    ctx: EventContext,
    lk: PropLookups,
    f: F,
    head: Seq<FieldView>,
    e: i32,
    fields: Seq<EventField>,
) -> bool {
    let h = head.len() as int;
    let n = n_event_props(ctx.prop_infos@) as int;
    let c = common_fields(s, ctx).len() as int;
    &&& fields.len() == h + 2 + n + c
    &&& fields_view(fields.take(h)) == head
    &&& fields_view(fields.subrange(h, h + 2)) == player_fields(s, e, "user"@)
    &&& extra_fields_match(s, e, "user"@, ctx.prop_infos@, lk, f, fields.subrange(h + 2, h + 2 + n))
    &&& fields_view(fields.subrange(h + 2 + n, fields.len() as int)) == common_fields(s, ctx)
}

/// The first fields of the event of a chat message.
pub open spec fn chat_head(s: EntityState, msg: SayText2Msg) -> Seq<FieldView> {
    seq![
        ("chat_message"@, text_field(msg.param2)),
        ("tick"@, option_view(Some(Variant::I32(s.tick)))),
    ]
}

/// The pawn of the first player, in order of pawn id, whose steam id is the
/// 32-bit account id `id` made individual.
pub open spec fn pawn_of_account(players: Seq<(i32, crate::game_types::PlayerMetaData)>, id: i32) -> Option<i32>
    decreases players.len(),
{
    if players.len() == 0 {
        None
    } else {
        let m = players[0].1;
        if m.steamid matches Some(sid) && sid.wrapping_sub(STEAMID64_INDIVIDUAL_IDENTIFIER) == (id as u64) && m.player_entity_id is Some {
            m.player_entity_id
        } else {
            pawn_of_account(players.drop_first(), id)
        }
    }
}

/// The pawn a rank change is for, where its account is known.
pub open spec fn rank_pawn(s: EntityState, u: RankUpdate) -> Option<i32> {
    match u.account_id {
        Some(id) => pawn_of_account(s.players@, id),
        None => None,
    }
}

/// The first fields of the event of a rank change.
pub open spec fn rank_head(s: EntityState, u: RankUpdate) -> Seq<FieldView> {
    seq![
        ("num_wins"@, int_field(u.num_wins)),
        ("rank_old"@, int_field(u.rank_old)),
        ("rank_new"@, int_field(u.rank_new)),
        ("rank_change"@, option_view(Some(Variant::F32(match u.rank_change { Some(v) => v, None => 0 })))),
        ("rank_type_id"@, int_field(u.rank_type_id)),
        ("tick"@, option_view(Some(Variant::I32(s.tick)))),
    ]
}

/// Among `fields`, the one named `name` holds `value`: some field pairs
/// them, and every field of that name holds it.
pub open spec fn field_holds(fields: Seq<FieldView>, name: Seq<char>, value: Option<(VarKind, Cell, bool, bool)>) -> bool {
    &&& exists|i: int| 0 <= i < fields.len() && #[trigger] fields[i] == (name, value)
    &&& forall|j: int| 0 <= j < fields.len() && #[trigger] fields[j].0 == name ==> fields[j].1 == value
}

/// The event of a rank change reports each number of the change under its
/// own name (a missing one as 0) and the tick it came at.
pub proof fn law_rank_fields_hold_their_values(s: EntityState, u: RankUpdate)
    ensures
        field_holds(rank_head(s, u), "num_wins"@,
            Some(variant_view(Variant::I32(if u.num_wins is Some { u.num_wins->Some_0 } else { 0 })))),
        field_holds(rank_head(s, u), "rank_old"@,
            Some(variant_view(Variant::I32(if u.rank_old is Some { u.rank_old->Some_0 } else { 0 })))),
        field_holds(rank_head(s, u), "rank_new"@,
            Some(variant_view(Variant::I32(if u.rank_new is Some { u.rank_new->Some_0 } else { 0 })))),
        field_holds(rank_head(s, u), "rank_change"@,
            Some(variant_view(Variant::F32(if u.rank_change is Some { u.rank_change->Some_0 } else { 0 })))),
        field_holds(rank_head(s, u), "rank_type_id"@,
            Some(variant_view(Variant::I32(if u.rank_type_id is Some { u.rank_type_id->Some_0 } else { 0 })))),
        field_holds(rank_head(s, u), "tick"@, Some(variant_view(Variant::I32(s.tick)))),
{
    reveal_strlit("num_wins");
    reveal_strlit("rank_old");
    reveal_strlit("rank_new");
    reveal_strlit("rank_change");
    reveal_strlit("rank_type_id");
    reveal_strlit("tick");
    let h = rank_head(s, u);
    assert("num_wins"@.len() == 8 && "rank_old"@.len() == 8 && "rank_new"@.len() == 8);
    assert("rank_change"@.len() == 11 && "rank_type_id"@.len() == 12 && "tick"@.len() == 4);
    assert("num_wins"@[0] != "rank_old"@[0] && "num_wins"@[0] != "rank_new"@[0] && "rank_old"@[5] != "rank_new"@[5]);
    assert(h[0] == ("num_wins"@, Some(variant_view(Variant::I32(if u.num_wins is Some { u.num_wins->Some_0 } else { 0 })))));
    assert(h[1] == ("rank_old"@, Some(variant_view(Variant::I32(if u.rank_old is Some { u.rank_old->Some_0 } else { 0 })))));
    assert(h[2] == ("rank_new"@, Some(variant_view(Variant::I32(if u.rank_new is Some { u.rank_new->Some_0 } else { 0 })))));
    assert(h[3] == ("rank_change"@, Some(variant_view(Variant::F32(if u.rank_change is Some { u.rank_change->Some_0 } else { 0 })))));
    assert(h[4] == ("rank_type_id"@, Some(variant_view(Variant::I32(if u.rank_type_id is Some { u.rank_type_id->Some_0 } else { 0 })))));
    assert(h[5] == ("tick"@, Some(variant_view(Variant::I32(s.tick)))));
}

/// The event of a chat message reports the message text (empty where
/// missing) and the tick it came at.
pub proof fn law_chat_fields_hold_their_values(s: EntityState, msg: SayText2Msg)
    ensures
        field_holds(chat_head(s, msg), "chat_message"@,
            Some((VarKind::String, Cell::Str(if msg.param2 is Some { msg.param2->Some_0@ } else { Seq::empty() }), false, false))),
        field_holds(chat_head(s, msg), "tick"@, Some(variant_view(Variant::I32(s.tick)))),
{
    reveal_strlit("chat_message");
    reveal_strlit("tick");
    let h = chat_head(s, msg);
    assert("chat_message"@.len() == 12 && "tick"@.len() == 4);
    assert(h[0] == ("chat_message"@,
        Some((VarKind::String, Cell::Str(if msg.param2 is Some { msg.param2->Some_0@ } else { Seq::empty() }), false, false))));
    assert(h[1] == ("tick"@, Some(variant_view(Variant::I32(s.tick)))));
}

/// `made` are the events of the rank changes `us` whose players are known,
/// in order.
pub open spec fn rank_events_match<F: Fn(FloatProp, i32) -> Result<Variant, PropCollectionError>>(
    s: EntityState,
    ctx: EventContext,
    lk: PropLookups,
    f: F,
    us: Seq<RankUpdate>,
    made: Seq<GameEvent>,
) -> bool
    decreases us.len(),
{
    if us.len() == 0 {
        made.len() == 0
    } else {
        match rank_pawn(s, us.last()) {
            None => rank_events_match(s, ctx, lk, f, us.drop_last(), made),
            Some(e) => {
                &&& made.len() > 0
                &&& made.last().name@ == "rank_update"@
                &&& made.last().tick == s.tick
                &&& player_event_fields(s, ctx, lk, f, rank_head(s, us.last()), e, made.last().fields@)
                &&& rank_events_match(s, ctx, lk, f, us.drop_last(), made.drop_last())
            },
        }
    }
}

impl EntityState {
    /// The fields `head`, then those of the player with pawn `e` as
    /// `user`, then the common fields.
    fn player_event_body<F: Fn(FloatProp, i32) -> Result<Variant, PropCollectionError>>(
        &self,
        mut head: Vec<EventField>,
        e: i32,
        ctx: &EventContext,
        lk: &PropLookups,
        float_prop: &F,
    ) -> (r: Vec<EventField>)
        requires
            forall|k: FloatProp, x: i32| float_prop.requires((k, x)),
        ensures
            player_event_fields(*self, *ctx, *lk, *float_prop, fields_view(head@), e, r@),
    {
        let ghost h = head@;
        let mut p = self.create_player_fields(e, "user");
        let mut x = self.find_extra_props_events(e, "user", &ctx.prop_infos, lk, float_prop);
        let mut c = self.find_non_player_props(&ctx.prop_infos, ctx.extras.game_time);
        let ghost pv = p@;
        let ghost xv = x@;
        let ghost cv = c@;
        proof {
            lemma_extra_fields_len(*self, e, "user"@, ctx.prop_infos@, *lk, *float_prop, xv);
            assert(fields_view(pv).len() == pv.len());
            assert(player_fields(*self, e, "user"@).len() == 2);
            assert(fields_view(cv).len() == cv.len());
            assert(fields_view(h).len() == h.len());
        }
        head.append(&mut p);
        head.append(&mut x);
        head.append(&mut c);
        let ghost r = head@;
        let ghost hl = h.len() as int;
        let ghost xl = xv.len() as int;
        assert(r.take(hl) =~= h);
        assert(r.subrange(hl, hl + 2) =~= pv);
        assert(r.subrange(hl + 2, hl + 2 + xl) =~= xv);
        assert(r.subrange(hl + 2 + xl, r.len() as int) =~= cv);
        head
    }

    /// Makes, where wanted, the event of a message that sets console
    /// variables, as `convar_event` says.
    pub fn create_custom_event_parse_convars(&self, ctx: &EventContext, msg: &SetConVarMsg, log: &mut EventLog) -> (r: Result<(), DemoParserError>)
        ensures
            r is Ok,
            strings_view(final(log).seen@) == seen_after(strings_view(old(log).seen@), "server_cvar"@),
            events_view(final(log).events@) == if is_wanted(ctx.wanted@, "server_cvar"@) {
                match convar_event(*self, *ctx, *msg) {
                    Some(v) => events_view(old(log).events@).push(v),
                    None => events_view(old(log).events@),
                }
            } else {
                events_view(old(log).events@)
            },
    {
        note_event(&mut log.seen, "server_cvar");
        if !wants_event(&ctx.wanted, "server_cvar") {
            return Ok(());
        }
        if let Some(vars) = &msg.convars {
            let mut fields: Vec<EventField> = Vec::new();
            let mut i: usize = 0;
            assert(vars@.take(0) =~= Seq::<ConVar>::empty());
            while i < vars.len()
                invariant
                    i <= vars@.len(),
                    fields_view(fields@) == convar_fields(vars@.take(i as int)),
                decreases vars@.len() - i,
            {
                let v = &vars[i];
                let value = match &v.value {
                    Some(t) => t.clone(),
                    None => String::new(),
                };
                let name = match &v.name {
                    Some(t) => t.clone(),
                    None => String::new(),
                };
                let ghost f0 = fields@;
                fields.push(EventField { name: "value".to_string(), data: Some(Variant::String(value)) });
                fields.push(EventField { name: "name".to_string(), data: Some(Variant::String(name)) });
                assert(vars@.take(i + 1).drop_last() =~= vars@.take(i as int));
                assert(fields_view(fields@) =~= fields_view(f0) + seq![
                    ("value"@, text_field(v.value)),
                    ("name"@, text_field(v.name)),
                ]);
                i += 1;
            }
            assert(vars@.take(vars@.len() as int) =~= vars@);
            let common = self.find_non_player_props(&ctx.prop_infos, ctx.extras.game_time);
            extend_fields(&mut fields, &common);
            let ghost f1 = fields@;
            fields.push(EventField { name: "tick".to_string(), data: Some(Variant::I32(self.tick)) });
            assert(fields_view(fields@) =~= fields_view(f1) + seq![("tick"@, option_view(Some(Variant::I32(self.tick))))]);
            let e = GameEvent { name: "server_cvar".to_string(), fields, tick: self.tick };
            Self::push_event(log, e);
        }
        Ok(())
    }

    /// Makes, where wanted, the event of a server message, as
    /// `server_message_event` says.
    pub fn create_custom_event_server_message(&self, ctx: &EventContext, msg: &SayTextMsg, log: &mut EventLog) -> (r: Result<(), DemoParserError>)
        ensures
            r is Ok,
            strings_view(final(log).seen@) == seen_after(strings_view(old(log).seen@), "server_message"@),
            events_view(final(log).events@) == if is_wanted(ctx.wanted@, "server_message"@) {
                events_view(old(log).events@).push(server_message_event(*self, *ctx, *msg))
            } else {
                events_view(old(log).events@)
            },
    {
        note_event(&mut log.seen, "server_message");
        if !wants_event(&ctx.wanted, "server_message") {
            return Ok(());
        }
        let text = match &msg.text {
            Some(t) => t.clone(),
            None => String::new(),
        };
        let mut fields = vec![
            EventField { name: "server_message".to_string(), data: Some(Variant::String(text)) },
            EventField { name: "tick".to_string(), data: Some(Variant::I32(self.tick)) },
        ];
        let ghost head = seq![
            ("server_message"@, text_field(msg.text)),
            ("tick"@, option_view(Some(Variant::I32(self.tick)))),
        ];
        assert(fields_view(fields@) =~= head);
        let common = self.find_non_player_props(&ctx.prop_infos, ctx.extras.game_time);
        extend_fields(&mut fields, &common);
        let e = GameEvent { name: "server_message".to_string(), fields, tick: self.tick };
        Self::push_event(log, e);
        Ok(())
    }

    /// Makes, where wanted, the event of a chat message: the text and tick,
    /// then the writer's fields as `user` and the common fields. The writer
    /// is the player of the message's controller (the largest `i32` where
    /// it is not known).
    pub fn create_custom_event_chat_message<F: Fn(FloatProp, i32) -> Result<Variant, PropCollectionError>>(
        &self,
        ctx: &EventContext,
        lk: &PropLookups,
        float_prop: &F,
        msg: &SayText2Msg,
        log: &mut EventLog,
    ) -> (r: Result<(), DemoParserError>)
        requires
            forall|k: FloatProp, x: i32| float_prop.requires((k, x)),
        ensures
            r is Ok,
            strings_view(final(log).seen@) == seen_after(strings_view(old(log).seen@), "chat_message"@),
            !is_wanted(ctx.wanted@, "chat_message"@) ==> events_view(final(log).events@) == events_view(old(log).events@),
            is_wanted(ctx.wanted@, "chat_message"@) ==> {
                &&& final(log).events@.len() == old(log).events@.len() + 1
                &&& events_view(final(log).events@.drop_last()) == events_view(old(log).events@)
                &&& final(log).events@.last().name@ == "chat_message"@
                &&& final(log).events@.last().tick == self.tick
                &&& player_event_fields(*self, *ctx, *lk, *float_prop, chat_head(*self, *msg),
                    pawn_of_controller(*self, match msg.entityindex { Some(c) => c, None => 0 }), final(log).events@.last().fields@)
            },
    {
        note_event(&mut log.seen, "chat_message");
        if !wants_event(&ctx.wanted, "chat_message") {
            return Ok(());
        }
        let text = match &msg.param2 {
            Some(t) => t.clone(),
            None => String::new(),
        };
        let head = vec![
            EventField { name: "chat_message".to_string(), data: Some(Variant::String(text)) },
            EventField { name: "tick".to_string(), data: Some(Variant::I32(self.tick)) },
        ];
        assert(fields_view(head@) =~= chat_head(*self, *msg));
        let controller = match msg.entityindex {
            Some(c) => c,
            None => 0,
        };
        let entity_id = match self.find_user_by_controller_id(controller) {
            Some(m) => match m.player_entity_id {
                Some(e) => e,
                None => i32::MAX,
            },
            None => i32::MAX,
        };
        let fields = self.player_event_body(head, entity_id, ctx, lk, float_prop);
        let e = GameEvent { name: "chat_message".to_string(), fields, tick: self.tick };
        let ghost l0 = log.events@;
        log.events.push(e);
        assert(log.events@.drop_last() =~= l0);
        Ok(())
    }

    /// The pawn of the first player whose steam id is the 32-bit account
    /// id `steamid32` made individual.
    pub fn player_from_steamid32(&self, steamid32: i32) -> (r: Option<i32>)
        ensures
            r == pawn_of_account(self.players@, steamid32),
    {
        let ghost p = self.players@;
        let mut i: usize = 0;
        assert(p.skip(0) =~= p);
        while i < self.players.len()
            invariant
                i <= p.len(),
                p == self.players@,
                pawn_of_account(p, steamid32) == pawn_of_account(p.skip(i as int), steamid32),
            decreases p.len() - i,
        {
            assert(p.skip(i as int)[0] == p[i as int]);
            let m = &self.players[i].1;
            if let Some(sid) = m.steamid {
                if sid.wrapping_sub(STEAMID64_INDIVIDUAL_IDENTIFIER) == steamid32 as u64 && m.player_entity_id.is_some() {
                    return m.player_entity_id;
                }
            }
            assert(p.skip(i as int).drop_first() =~= p.skip(i + 1));
            i += 1;
        }
        None
    }

    /// Makes, where wanted, the event of each rank change whose player is
    /// known: its numbers and the tick, then the player's fields as `user`
    /// and the common fields.
    pub fn create_custom_event_rank_update<F: Fn(FloatProp, i32) -> Result<Variant, PropCollectionError>>(
        &self,
        ctx: &EventContext,
        lk: &PropLookups,
        float_prop: &F,
        msg: &RankUpdateMsg,
        log: &mut EventLog,
    ) -> (r: Result<(), DemoParserError>)
        requires
            forall|k: FloatProp, x: i32| float_prop.requires((k, x)),
        ensures
            r is Ok,
            strings_view(final(log).seen@) == seen_after(strings_view(old(log).seen@), "rank_update"@),
            final(log).events@.len() >= old(log).events@.len(),
            final(log).events@.take(old(log).events@.len() as int) == old(log).events@,
            !is_wanted(ctx.wanted@, "rank_update"@) ==> final(log).events@ == old(log).events@,
            is_wanted(ctx.wanted@, "rank_update"@) ==> rank_events_match(*self, *ctx, *lk, *float_prop, msg.rank_update@,
                final(log).events@.skip(old(log).events@.len() as int)),
    {
        note_event(&mut log.seen, "rank_update");
        if !wants_event(&ctx.wanted, "rank_update") {
            return Ok(());
        }
        let ghost l0 = log.events@;
        let ghost seen1 = log.seen@;
        let us = &msg.rank_update;
        let mut i: usize = 0;
        assert(log.events@.skip(l0.len() as int) =~= Seq::<GameEvent>::empty());
        assert(us@.take(0) =~= Seq::<RankUpdate>::empty());
        while i < us.len()
            invariant
                i <= us@.len(),
                forall|k: FloatProp, x: i32| float_prop.requires((k, x)),
                log.events@.len() >= l0.len(),
                log.events@.take(l0.len() as int) == l0,
                log.seen@ == seen1,
                rank_events_match(*self, *ctx, *lk, *float_prop, us@.take(i as int), log.events@.skip(l0.len() as int)),
            decreases us@.len() - i,
        {
            let u = &us[i];
            assert(us@.take(i + 1).drop_last() =~= us@.take(i as int));
            assert(us@.take(i + 1).last() == us@[i as int]);
            let pawn = match u.account_id {
                Some(id) => self.player_from_steamid32(id),
                None => None,
            };
            if let Some(e) = pawn {
                let head = vec![
                    EventField { name: "num_wins".to_string(), data: Some(Variant::I32(match u.num_wins { Some(v) => v, None => 0 })) },
                    EventField { name: "rank_old".to_string(), data: Some(Variant::I32(match u.rank_old { Some(v) => v, None => 0 })) },
                    EventField { name: "rank_new".to_string(), data: Some(Variant::I32(match u.rank_new { Some(v) => v, None => 0 })) },
                    EventField { name: "rank_change".to_string(), data: Some(Variant::F32(match u.rank_change { Some(v) => v, None => 0 })) },
                    EventField { name: "rank_type_id".to_string(), data: Some(Variant::I32(match u.rank_type_id { Some(v) => v, None => 0 })) },
                    EventField { name: "tick".to_string(), data: Some(Variant::I32(self.tick)) },
                ];
                assert(fields_view(head@) =~= rank_head(*self, *u));
                let fields = self.player_event_body(head, e, ctx, lk, float_prop);
                let ev = GameEvent { name: "rank_update".to_string(), fields, tick: self.tick };
                let ghost lb = log.events@;
                log.events.push(ev);
                assert(log.events@.take(l0.len() as int) =~= l0);
                assert(log.events@.skip(l0.len() as int).drop_last() =~= lb.skip(l0.len() as int));
                assert(log.events@.skip(l0.len() as int).last() == ev);
            }
            i += 1;
        }
        assert(us@.take(us@.len() as int) =~= us@);
        Ok(())
    }
}

} // verus!
