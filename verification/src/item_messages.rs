use vstd::prelude::*;
use crate::game_types::{EconItemPreview, EconItem, PlayerEndMetaData, name_for, create_econ_item};

verus! {

/// The item-drop message: the items handed out.
#[derive(Debug)]
pub struct ItemDropsMsg {
    pub entity_updates: Vec<EconItemPreview>,
}

/// One player's entry in the end-of-match message.
#[derive(Debug)]
pub struct EndOfMatchPlayer {
    pub xuid: Option<u64>,
    pub name: Option<String>,
    pub teamnumber: Option<i32>,
    pub items: Vec<EconItemPreview>,
}

/// The end-of-match message: every player's data.
#[derive(Debug)]
pub struct EndOfMatchMsg {
    pub allplayerdata: Vec<EndOfMatchPlayer>,
}

/// The view of an optional text.
pub open spec fn opt_text(s: Option<String>) -> Option<Seq<char>> {
    match s {
        Some(t) => Some(t@),
        None => None,
    }
}

/// The looked-up name of an optional number.
pub open spec fn opt_name(table: Seq<(u32, String)>, k: Option<u32>) -> Option<Seq<char>> {
    match k {
        Some(k) => name_for(table, k),
        None => None,
    }
}

/// `r` is the item that `input` describes, owned by `steamid`, with its
/// weapon and skin named by the two tables.
pub open spec fn econ_made_from(r: EconItem, input: EconItemPreview, steamid: Option<u64>,
    weapon_names: Seq<(u32, String)>, paint_kits: Seq<(u32, String)>) -> bool {
    &&& r.account_id == input.accountid
    &&& r.item_id == input.itemid
    &&& r.def_index == input.defindex
    &&& r.paint_index == input.paintindex
    &&& r.rarity == input.rarity
    &&& r.quality == input.quality
    &&& r.paint_seed == input.paintseed
    &&& r.paint_wear == input.paintwear
    &&& r.quest_id == input.questid
    &&& r.dropreason == input.dropreason
    &&& r.inventory == input.inventory
    &&& r.ent_idx == input.entindex
    &&& r.steamid == steamid
    &&& opt_text(r.custom_name) == opt_text(input.customname)
    &&& opt_text(r.item_name) == opt_name(weapon_names, input.defindex)
    &&& opt_text(r.skin_name) == opt_name(paint_kits, input.paintindex)
}

/// `out` holds `before`, then one item made from each of `inputs` with the
/// owner given beside it.
pub open spec fn items_appended(out: Seq<EconItem>, before: Seq<EconItem>, inputs: Seq<(EconItemPreview, Option<u64>)>,
    weapon_names: Seq<(u32, String)>, paint_kits: Seq<(u32, String)>) -> bool {
    &&& out.len() == before.len() + inputs.len()
    &&& out.subrange(0, before.len() as int) == before
    &&& forall|j: int| 0 <= j < inputs.len() ==>
        econ_made_from(#[trigger] out[before.len() + j], inputs[j].0, inputs[j].1, weapon_names, paint_kits)
}

/// Each item appended keeps every number of the preview it is made from
/// in the field of the same meaning, takes the owner given beside it, and
/// is named by the two tables from its definition and paint indices.
pub proof fn law_items_keep_their_fields(out: Seq<EconItem>, before: Seq<EconItem>, inputs: Seq<(EconItemPreview, Option<u64>)>,
    weapon_names: Seq<(u32, String)>, paint_kits: Seq<(u32, String)>, j: int)
    requires
        items_appended(out, before, inputs, weapon_names, paint_kits),
        0 <= j < inputs.len(),
    ensures
        out[before.len() + j].account_id == inputs[j].0.accountid,
        out[before.len() + j].item_id == inputs[j].0.itemid,
        out[before.len() + j].def_index == inputs[j].0.defindex,
        out[before.len() + j].paint_index == inputs[j].0.paintindex,
        out[before.len() + j].rarity == inputs[j].0.rarity,
        out[before.len() + j].quality == inputs[j].0.quality,
        out[before.len() + j].paint_seed == inputs[j].0.paintseed,
        out[before.len() + j].paint_wear == inputs[j].0.paintwear,
        out[before.len() + j].quest_id == inputs[j].0.questid,
        out[before.len() + j].dropreason == inputs[j].0.dropreason,
        out[before.len() + j].inventory == inputs[j].0.inventory,
        out[before.len() + j].ent_idx == inputs[j].0.entindex,
        out[before.len() + j].steamid == inputs[j].1,
        (inputs[j].0.defindex is Some && name_for(weapon_names, inputs[j].0.defindex->Some_0) is Some)
            ==> out[before.len() + j].item_name is Some
                && out[before.len() + j].item_name->Some_0@ == name_for(weapon_names, inputs[j].0.defindex->Some_0)->Some_0,
        (inputs[j].0.paintindex is Some && name_for(paint_kits, inputs[j].0.paintindex->Some_0) is Some)
            ==> out[before.len() + j].skin_name is Some
                && out[before.len() + j].skin_name->Some_0@ == name_for(paint_kits, inputs[j].0.paintindex->Some_0)->Some_0,
{
    assert(econ_made_from(out[before.len() + j], inputs[j].0, inputs[j].1, weapon_names, paint_kits));
}

/// What is kept of a player at the end of the match is its own steam id,
/// name and team number.
pub proof fn law_end_data_keeps_the_player(r: PlayerEndMetaData, p: EndOfMatchPlayer)
    requires
        end_data_of(r, p),
    ensures
        r.steamid == p.xuid,
        r.team_number == p.teamnumber,
        r.name is Some <==> p.name is Some,
        r.name is Some ==> r.name->Some_0@ == p.name->Some_0@,
{
}

/// The item previews of a drop message, each without an owner.
pub open spec fn dropped(items: Seq<EconItemPreview>) -> Seq<(EconItemPreview, Option<u64>)> {
    items.map_values(|i: EconItemPreview| (i, None::<u64>))
}

/// Whether the end-of-match message lists an item: its id is set and not 0.
pub open spec fn listed_item(i: EconItemPreview) -> bool {
    i.itemid matches Some(k) && k != 0
}

/// The listed items among `items`, in order, each owned by `owner`.
pub open spec fn listed_items(items: Seq<EconItemPreview>, owner: Option<u64>) -> Seq<(EconItemPreview, Option<u64>)>
    decreases items.len(),
{
    if items.len() == 0 {
        Seq::empty()
    } else {
        let rest = listed_items(items.drop_last(), owner);
        if listed_item(items.last()) {
            rest.push((items.last(), owner))
        } else {
            rest
        }
    }
}

/// The listed items of every player, player by player, each owned by its player.
pub open spec fn end_skins(players: Seq<EndOfMatchPlayer>) -> Seq<(EconItemPreview, Option<u64>)>
    decreases players.len(),
{
    if players.len() == 0 {
        Seq::empty()
    } else {
        end_skins(players.drop_last()) + listed_items(players.last().items@, players.last().xuid)
    }
}

/// `r` is what is kept of player `p` at the end of the match.
pub open spec fn end_data_of(r: PlayerEndMetaData, p: EndOfMatchPlayer) -> bool {
    &&& r.steamid == p.xuid
    &&& opt_text(r.name) == opt_text(p.name)
    &&& r.team_number == p.teamnumber
}

/// Adds an item for each entry of an item-drop message to `item_drops`,
/// with no owner.
pub fn parse_item_drops(drops: &ItemDropsMsg, weapon_names: &Vec<(u32, String)>, paint_kits: &Vec<(u32, String)>,
    item_drops: &mut Vec<EconItem>)
    ensures
        items_appended(final(item_drops)@, old(item_drops)@, dropped(drops.entity_updates@), weapon_names@, paint_kits@),
{
    let ghost before = item_drops@;
    let ghost inputs = dropped(drops.entity_updates@);
    let mut i: usize = 0;
    assert(item_drops@.subrange(0, before.len() as int) =~= before);
    assert(inputs.take(0) =~= Seq::<(EconItemPreview, Option<u64>)>::empty());
    while i < drops.entity_updates.len()
        invariant
            i <= drops.entity_updates@.len(),
            inputs == dropped(drops.entity_updates@),
            items_appended(item_drops@, before, inputs.take(i as int), weapon_names@, paint_kits@),
        decreases drops.entity_updates@.len() - i,
    {
        let item = create_econ_item(&drops.entity_updates[i], None, weapon_names, paint_kits);
        let ghost prev = item_drops@;
        item_drops.push(item);
        proof {
            assert(inputs.take(i + 1) =~= inputs.take(i as int).push(inputs[i as int]));
            assert(item_drops@.subrange(0, before.len() as int) =~= prev.subrange(0, before.len() as int));
            assert forall|j: int| 0 <= j < i + 1 implies
                econ_made_from(#[trigger] item_drops@[before.len() + j], inputs.take(i + 1)[j].0, inputs.take(i + 1)[j].1,
                    weapon_names@, paint_kits@) by {
                if j < i {
                    assert(item_drops@[before.len() + j] == prev[before.len() + j]);
                }
            }
        }
        i += 1;
    }
    proof {
        assert(inputs.take(i as int) =~= inputs);
    }
}

/// Adds one item to `skins` for each listed item of `owner`, as
/// `listed_items` says.
fn push_listed(items: &Vec<EconItemPreview>, owner: Option<u64>, weapon_names: &Vec<(u32, String)>,
    paint_kits: &Vec<(u32, String)>, skins: &mut Vec<EconItem>)
    ensures
        items_appended(final(skins)@, old(skins)@, listed_items(items@, owner), weapon_names@, paint_kits@),
{
    let ghost before = skins@;
    let mut k: usize = 0;
    assert(skins@.subrange(0, before.len() as int) =~= before);
    assert(items@.take(0) =~= Seq::<EconItemPreview>::empty());
    while k < items.len()
        invariant
            k <= items@.len(),
            items_appended(skins@, before, listed_items(items@.take(k as int), owner), weapon_names@, paint_kits@),
        decreases items@.len() - k,
    {
        let ghost done = listed_items(items@.take(k as int), owner);
        assert(items@.take(k + 1).drop_last() =~= items@.take(k as int));
        assert(items@.take(k + 1).last() == items@[k as int]);
        let keep = match items[k].itemid {
            Some(id) => id != 0,
            None => false,
        };
        if keep {
            let item = create_econ_item(&items[k], owner, weapon_names, paint_kits);
            let ghost prev = skins@;
            skins.push(item);
            proof {
                let next = listed_items(items@.take(k + 1), owner);
                assert(next == done.push((items@[k as int], owner)));
                assert(skins@.subrange(0, before.len() as int) =~= prev.subrange(0, before.len() as int));
                assert forall|j: int| 0 <= j < next.len() implies
                    econ_made_from(#[trigger] skins@[before.len() + j], next[j].0, next[j].1,
                        weapon_names@, paint_kits@) by {
                    if j < done.len() {
                        assert(skins@[before.len() + j] == prev[before.len() + j]);
                    }
                }
            }
        }
        k += 1;
    }
    proof {
        assert(items@.take(k as int) =~= items@);
    }
}

/// Reads the end-of-match message: for each player, in order, what is kept
/// of it goes to `player_end_data`, and each of its listed items, owned by
/// it, goes to `skins`.
pub fn parse_player_end_msg(end_data: &EndOfMatchMsg, weapon_names: &Vec<(u32, String)>, paint_kits: &Vec<(u32, String)>,
    player_end_data: &mut Vec<PlayerEndMetaData>, skins: &mut Vec<EconItem>)
    ensures
        final(player_end_data)@.len() == old(player_end_data)@.len() + end_data.allplayerdata@.len(),
        final(player_end_data)@.subrange(0, old(player_end_data)@.len() as int) == old(player_end_data)@,
        forall|j: int| 0 <= j < end_data.allplayerdata@.len() ==>
            end_data_of(#[trigger] final(player_end_data)@[old(player_end_data)@.len() + j], end_data.allplayerdata@[j]),
        items_appended(final(skins)@, old(skins)@, end_skins(end_data.allplayerdata@), weapon_names@, paint_kits@),
{
    let ghost before_p = player_end_data@;
    let ghost before_s = skins@;
    let ghost players = end_data.allplayerdata@;
    let mut i: usize = 0;
    assert(skins@.subrange(0, before_s.len() as int) =~= before_s);
    assert(player_end_data@.subrange(0, before_p.len() as int) =~= before_p);
    assert(players.take(0) =~= Seq::<EndOfMatchPlayer>::empty());
    while i < end_data.allplayerdata.len()
        invariant
            i <= players.len(),
            players == end_data.allplayerdata@,
            player_end_data@.len() == before_p.len() + i,
            player_end_data@.subrange(0, before_p.len() as int) == before_p,
            forall|j: int| 0 <= j < i ==> end_data_of(#[trigger] player_end_data@[before_p.len() + j], players[j]),
            items_appended(skins@, before_s, end_skins(players.take(i as int)), weapon_names@, paint_kits@),
        decreases players.len() - i,
    {
        let player = &end_data.allplayerdata[i];
        let name = match &player.name {
            Some(n) => Some(n.clone()),
            None => None,
        };
        let ghost prev_p = player_end_data@;
        player_end_data.push(PlayerEndMetaData { name, steamid: player.xuid, team_number: player.teamnumber });
        proof {
            assert(player_end_data@.subrange(0, before_p.len() as int) =~= prev_p.subrange(0, before_p.len() as int));
            assert forall|j: int| 0 <= j < i + 1 implies end_data_of(#[trigger] player_end_data@[before_p.len() + j], players[j]) by {
                if j < i {
                    assert(player_end_data@[before_p.len() + j] == prev_p[before_p.len() + j]);
                }
            }
        }
        let ghost mid = skins@;
        let ghost done = end_skins(players.take(i as int));
        push_listed(&player.items, player.xuid, weapon_names, paint_kits, skins);
        proof {
            let added = listed_items(players[i as int].items@, players[i as int].xuid);
            assert(players.take(i + 1).drop_last() =~= players.take(i as int));
            assert(players.take(i + 1).last() == players[i as int]);
            let next = end_skins(players.take(i + 1));
            assert(next == done + added);
            assert(skins@.subrange(0, before_s.len() as int) =~= mid.subrange(0, before_s.len() as int));
            assert forall|j: int| 0 <= j < next.len() implies
                econ_made_from(#[trigger] skins@[before_s.len() + j], next[j].0, next[j].1,
                    weapon_names@, paint_kits@) by {
                if j < done.len() {
                    assert(skins@.subrange(0, mid.len() as int)[before_s.len() + j] == skins@[before_s.len() + j]);
                    assert(skins@[before_s.len() + j] == mid[before_s.len() + j]);
                } else {
                    let k = j - done.len();
                    assert(skins@[mid.len() + k] == skins@[before_s.len() + j]);
                }
            }
        }
        i += 1;
    }
    proof {
        assert(players.take(i as int) =~= players);
    }
}

} // verus!
