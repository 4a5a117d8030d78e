use vstd::prelude::*;
use crate::variants::Variant;
use crate::game_types::{GameEvent, EventField, SellBackHelper, field_value};
use crate::strings::str_eq;

verus! {

/// The sale or purchase an event describes, as `SellBackHelper::from_event`
/// reads it.
pub open spec fn sell_back_of(e: GameEvent) -> Option<SellBackHelper> {
    match (field_value(e.fields@, "tick"@), field_value(e.fields@, "steamid"@), field_value(e.fields@, "inventory_slot"@)) {
        (Some(Some(Variant::I32(t))), Some(Some(Variant::U64(s))), Some(Some(Variant::U32(k)))) =>
            Some(SellBackHelper { tick: t, steamid: s, inventory_slot: k }),
        _ => None,
    }
}

/// The events named `kind` that read as sales or purchases, read, in order.
pub open spec fn helpers_of(events: Seq<GameEvent>, kind: Seq<char>) -> Seq<SellBackHelper>
    decreases events.len(),
{
    if events.len() == 0 {
        Seq::empty()
    } else {
        let r = helpers_of(events.drop_last(), kind);
        if events.last().name@ == kind {
            match sell_back_of(events.last()) {
                Some(h) => r.push(h),
                None => r,
            }
        } else {
            r
        }
    }
}

/// The number of events named `kind`.
pub open spec fn count_named(events: Seq<GameEvent>, kind: Seq<char>) -> nat
    decreases events.len(),
{
    if events.len() == 0 {
        0
    } else {
        count_named(events.drop_last(), kind) + if events.last().name@ == kind { 1nat } else { 0nat }
    }
}

/// `a` comes after `p` for the same player and inventory slot.
pub open spec fn follows(a: SellBackHelper, p: SellBackHelper) -> bool {
    a.tick > p.tick && a.steamid == p.steamid && a.inventory_slot == p.inventory_slot
}

/// The earliest tick of the entries of `s` that follow `p`.
pub open spec fn min_following_tick(s: Seq<SellBackHelper>, p: SellBackHelper) -> Option<i32>
    decreases s.len(),
{
    if s.len() == 0 {
        None
    } else {
        let r = min_following_tick(s.drop_last(), p);
        if follows(s.last(), p) {
            match r {
                Some(t) => Some(if s.last().tick < t { s.last().tick } else { t }),
                None => Some(s.last().tick),
            }
        } else {
            r
        }
    }
}

/// Purchase `p` was eventually sold: a later sale of its slot exists, and
/// it comes before every later purchase into that slot (or there is none).
pub open spec fn was_sold(p: SellBackHelper, sells: Seq<SellBackHelper>, buys: Seq<SellBackHelper>) -> bool {
    match (min_following_tick(sells, p), min_following_tick(buys, p)) {
        (Some(s), Some(b)) => s < b,
        (Some(_), None) => true,
        _ => false,
    }
}

/// Event `e` reads as a purchase that was sold.
pub open spec fn purchase_sold(e: GameEvent, sells: Seq<SellBackHelper>, buys: Seq<SellBackHelper>) -> bool {
    sell_back_of(e) matches Some(p) && was_sold(p, sells, buys)
}

/// Every purchase event reads as a purchase.
pub open spec fn purchases_readable(events: Seq<GameEvent>) -> bool {
    forall|j: int| 0 <= j < events.len() && #[trigger] events[j].name@ == "item_purchase"@
        ==> sell_back_of(events[j]) is Some
}

/// The earliest tick of the entries of `s` that follow `p`.
fn earliest_following(s: &Vec<SellBackHelper>, p: SellBackHelper) -> (r: Option<i32>)
    ensures
        r == min_following_tick(s@, p),
{
    let mut best: Option<i32> = None;
    let mut i: usize = 0;
    assert(s@.take(0) =~= Seq::<SellBackHelper>::empty());
    while i < s.len()
        invariant
            i <= s@.len(),
            best == min_following_tick(s@.take(i as int), p),
        decreases s@.len() - i,
    {
        assert(s@.take(i + 1).drop_last() =~= s@.take(i as int));
        assert(s@.take(i + 1).last() == s@[i as int]);
        let a = s[i];
        if a.tick > p.tick && a.steamid == p.steamid && a.inventory_slot == p.inventory_slot {
            best = match best {
                Some(t) => Some(if a.tick < t { a.tick } else { t }),
                None => Some(a.tick),
            };
        }
        i += 1;
    }
    assert(s@.take(s@.len() as int) =~= s@);
    best
}

/// The events named `kind` that read as sales or purchases, read.
fn collect_helpers(events: &Vec<GameEvent>, kind: &str) -> (r: Vec<SellBackHelper>)
    ensures
        r@ == helpers_of(events@, kind@),
{
    let mut out: Vec<SellBackHelper> = Vec::new();
    let mut i: usize = 0;
    assert(events@.take(0) =~= Seq::<GameEvent>::empty());
    while i < events.len()
        invariant
            i <= events@.len(),
            out@ == helpers_of(events@.take(i as int), kind@),
        decreases events@.len() - i,
    {
        assert(events@.take(i + 1).drop_last() =~= events@.take(i as int));
        assert(events@.take(i + 1).last() == events@[i as int]);
        if str_eq(events[i].name.as_str(), kind) {
            match SellBackHelper::from_event(&events[i]) {
                Some(h) => out.push(h),
                None => {},
            }
        }
        i += 1;
    }
    assert(events@.take(events@.len() as int) =~= events@);
    out
}

/// Every purchase event reads, so the purchases read are as many as the
/// purchase events.
proof fn lemma_all_purchases_read(events: Seq<GameEvent>)
    requires
        purchases_readable(events),
    ensures
        helpers_of(events, "item_purchase"@).len() == count_named(events, "item_purchase"@),
    decreases events.len(),
{
    if events.len() > 0 {
        assert(purchases_readable(events.drop_last())) by {
            assert forall|j: int| 0 <= j < events.drop_last().len() && #[trigger] events.drop_last()[j].name@ == "item_purchase"@
                implies sell_back_of(events.drop_last()[j]) is Some by {
                assert(events.drop_last()[j] == events[j]);
            }
        }
        lemma_all_purchases_read(events.drop_last());
        if events.last().name@ == "item_purchase"@ {
            assert(events[events.len() - 1].name@ == "item_purchase"@);
        }
    }
}

/// The `k`-th purchase read is the `k`-th purchase event, read.
proof fn lemma_purchase_at(events: Seq<GameEvent>, j: int)
    requires
        purchases_readable(events),
        0 <= j < events.len(),
        events[j].name@ == "item_purchase"@,
    ensures
        count_named(events.take(j), "item_purchase"@) < helpers_of(events, "item_purchase"@).len(),
        helpers_of(events, "item_purchase"@)[count_named(events.take(j), "item_purchase"@) as int] == sell_back_of(events[j])->Some_0,
    decreases events.len(),
{
    lemma_all_purchases_read(events);
    if j == events.len() - 1 {
        assert(events.take(j) =~= events.drop_last());
        assert(purchases_readable(events.drop_last())) by {
            assert forall|i: int| 0 <= i < events.drop_last().len() && #[trigger] events.drop_last()[i].name@ == "item_purchase"@
                implies sell_back_of(events.drop_last()[i]) is Some by {
                assert(events.drop_last()[i] == events[i]);
            }
        }
        lemma_all_purchases_read(events.drop_last());
    } else {
        assert(purchases_readable(events.drop_last())) by {
            assert forall|i: int| 0 <= i < events.drop_last().len() && #[trigger] events.drop_last()[i].name@ == "item_purchase"@
                implies sell_back_of(events.drop_last()[i]) is Some by {
                assert(events.drop_last()[i] == events[i]);
            }
        }
        assert(events.drop_last()[j] == events[j]);
        assert(events.drop_last().take(j) =~= events.take(j));
        lemma_purchase_at(events.drop_last(), j);
    }
}

/// `after` is event `e` as the sale column leaves it: purchases get a
/// `was_sold` flag, other events are unchanged.
pub open spec fn marked_event(e: GameEvent, after: GameEvent, sold: bool) -> bool {
    if e.name@ == "item_purchase"@ {
        &&& after.name == e.name
        &&& after.tick == e.tick
        &&& after.fields@.len() == e.fields@.len() + 1
        &&& after.fields@.drop_last() == e.fields@
        &&& after.fields@.last().name@ == "was_sold"@
        &&& after.fields@.last().data == Some(Variant::Bool(sold))
    } else {
        after == e
    }
}

/// Marks each purchase with whether the item was sold: the first later sale
/// of its player's slot comes before the first later purchase into it.
pub fn add_item_purchase_sell_column(events: &mut Vec<GameEvent>)
    requires
        purchases_readable(old(events)@),
    ensures
        final(events)@.len() == old(events)@.len(),
        forall|j: int| 0 <= j < old(events)@.len() ==> #[trigger] marked_event(old(events)@[j], final(events)@[j],
            purchase_sold(old(events)@[j], helpers_of(old(events)@, "item_sold"@),
                helpers_of(old(events)@, "item_purchase"@))),
{
    let ghost e0 = events@;
    let purchases = collect_helpers(events, "item_purchase");
    let sells = collect_helpers(events, "item_sold");
    let mut sold: Vec<bool> = Vec::new();
    let mut k: usize = 0;
    while k < purchases.len()
        invariant
            k <= purchases@.len(),
            sold@.len() == k,
            forall|i: int| 0 <= i < k ==> #[trigger] sold@[i] == was_sold(purchases@[i], sells@, purchases@),
        decreases purchases@.len() - k,
    {
        let p = purchases[k];
        let s = earliest_following(&sells, p);
        let b = earliest_following(&purchases, p);
        let flag = match (s, b) {
            (Some(st), Some(bt)) => st < bt,
            (Some(_), None) => true,
            _ => false,
        };
        sold.push(flag);
        k += 1;
    }
    proof {
        lemma_all_purchases_read(e0);
    }
    let mut idx: usize = 0;
    let mut j: usize = 0;
    assert(e0.take(0) =~= Seq::<GameEvent>::empty());
    while j < events.len()
        invariant
            events@.len() == e0.len(),
            j <= e0.len(),
            purchases_readable(e0),
            idx == count_named(e0.take(j as int), "item_purchase"@),
            idx <= sold@.len(),
            sold@.len() == count_named(e0, "item_purchase"@),
            purchases@ == helpers_of(e0, "item_purchase"@),
            sells@ == helpers_of(e0, "item_sold"@),
            forall|i: int| 0 <= i < sold@.len() ==> #[trigger] sold@[i] == was_sold(purchases@[i], sells@, purchases@),
            forall|i: int| 0 <= i < j ==> #[trigger] marked_event(e0[i], events@[i],
                purchase_sold(e0[i], sells@, purchases@)),
            forall|i: int| j <= i < e0.len() ==> #[trigger] events@[i] == e0[i],
        decreases e0.len() - j,
    {
        assert(e0.take(j + 1).drop_last() =~= e0.take(j as int));
        assert(e0.take(j + 1).last() == e0[j as int]);
        let ghost before = events@;
        let is_purchase = str_eq(events[j].name.as_str(), "item_purchase");
        if is_purchase {
            proof {
                lemma_purchase_at(e0, j as int);
                lemma_count_bound(e0, j as int);
            }
            let flag = sold[idx];
            let next = idx + 1;
            let ev = &mut events[j];
            ev.fields.push(EventField { name: "was_sold".to_string(), data: Some(Variant::Bool(flag)) });
            proof {
                assert(ev.fields@.drop_last() =~= before[j as int].fields@);
            }
            idx = next;
        }
        proof {
            assert forall|i: int| 0 <= i < j implies #[trigger] marked_event(e0[i], events@[i],
                purchase_sold(e0[i], sells@, purchases@)) by {
                assert(events@[i] == before[i]);
            }
            assert forall|i: int| j + 1 <= i < e0.len() implies #[trigger] events@[i] == e0[i] by {
                assert(events@[i] == before[i]);
            }
        }
        j += 1;
    }
}

/// Counting up to `j` counts no more than counting all.
proof fn lemma_count_bound(events: Seq<GameEvent>, j: int)
    requires
        0 <= j < events.len(),
        events[j].name@ == "item_purchase"@,
    ensures
        count_named(events.take(j), "item_purchase"@) < count_named(events, "item_purchase"@),
    decreases events.len(),
{
    if j == events.len() - 1 {
        assert(events.take(j) =~= events.drop_last());
    } else {
        assert(events.drop_last()[j] == events[j]);
        assert(events.drop_last().take(j) =~= events.take(j));
        lemma_count_bound(events.drop_last(), j);
    }
}

/// The events without the sales.
pub fn remove_item_sold_events(events: &mut Vec<GameEvent>)
    ensures
        final(events)@ == old(events)@.filter(|e: GameEvent| e.name@ != "item_sold"@),
{
    let mut rest: Vec<GameEvent> = Vec::new();
    std::mem::swap(events, &mut rest);
    let ghost orig = rest@;
    let n = rest.len();
    let mut rev: Vec<GameEvent> = Vec::new();
    while rest.len() > 0
        invariant
            n == orig.len(),
            rest@ == orig.take(rest@.len() as int),
            rev@.len() == n - rest@.len(),
            forall|i: int| 0 <= i < rev@.len() ==> #[trigger] rev@[i] == orig[n - 1 - i],
        decreases rest@.len(),
    {
        let x = rest.pop().unwrap();
        assert(rest@ =~= orig.take(rest@.len() as int));
        rev.push(x);
    }
    let mut p: usize = 0;
    assert(orig.take(0).filter(|e: GameEvent| e.name@ != "item_sold"@) =~= Seq::<GameEvent>::empty());
    while rev.len() > 0
        invariant
            n == orig.len(),
            rev@.len() == n - p,
            p <= n,
            forall|i: int| 0 <= i < rev@.len() ==> #[trigger] rev@[i] == orig[n - 1 - i],
            events@ == orig.take(p as int).filter(|e: GameEvent| e.name@ != "item_sold"@),
        decreases rev@.len(),
    {
        let x = rev.pop().unwrap();
        assert(x == orig[p as int]);
        assert(orig.take(p + 1).drop_last() =~= orig.take(p as int));
        assert(orig.take(p + 1).last() == orig[p as int]);
        proof {
            orig.take(p as int).lemma_filter_push(orig[p as int], |e: GameEvent| e.name@ != "item_sold"@);
            assert(orig.take(p as int).push(orig[p as int]) =~= orig.take(p + 1));
        }
        if !str_eq(x.name.as_str(), "item_sold") {
            events.push(x);
        }
        p += 1;
    }
    assert(orig.take(n as int) =~= orig);
}

} // verus!
