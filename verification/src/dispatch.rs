use vstd::prelude::*;
use crate::frames::DemoCommand;

verus! {

/// The kinds of packet message the parser acts on; every other message
/// type is `Other`.
#[derive(Clone, Copy, Debug, PartialEq, Eq, Structural)]
pub enum NetMessageKind {
    PacketEntities,
    CreateStringTable,
    UpdateStringTable,
    ClearAllStringTables,
    ServerInfo,
    VoiceData,
    UserCmds,
    NetTick,
    SetConVar,
    SendPlayerItemDrops,
    EndOfMatchAllPlayersData,
    PlayerStatsUpdate,
    ServerRankUpdate,
    SayText2,
    SayText,
    GameEvent,
    GameEventList,
    Other,
}

/// What to do with one message of a packet.
#[derive(Clone, Copy, Debug, PartialEq, Eq, Structural)]
pub enum PacketAction {
    Skip,
    /// Entity updates: decode them where `parse` is set, and collect the
    /// tick's values afterwards where `collect` is set.
    Entities { parse: bool, collect: bool },
    CreateStringTable,
    UpdateStringTable,
    ClearStringTables,
    ServerInfo,
    VoiceData,
    UserCmds,
    NetTick,
    ConVars,
    ItemDrops,
    PlayerEndData,
    PlayerStatsUpdate,
    RankUpdate,
    ChatMessage,
    ServerMessage,
    GameEvent,
    GameEventList,
}

/// The kind that `table` gives message type `t`: its first entry for `t`,
/// or `Other` where there is none.
pub open spec fn kind_of(table: Seq<(i32, NetMessageKind)>, t: i32) -> NetMessageKind
    decreases table.len(),
{
    if table.len() == 0 {
        NetMessageKind::Other
    } else if table[0].0 == t {
        table[0].1
    } else {
        kind_of(table.drop_first(), t)
    }
}

/// The kind of message type `msg_type`, as `table` names it.
pub fn message_kind(msg_type: i32, table: &Vec<(i32, NetMessageKind)>) -> (r: NetMessageKind)
    ensures
        r == kind_of(table@, msg_type),
{
    let mut i: usize = 0;
    assert(table@.skip(0) =~= table@);
    while i < table.len()
        invariant
            i <= table@.len(),
            kind_of(table@, msg_type) == kind_of(table@.skip(i as int), msg_type),
        decreases table@.len() - i,
    {
        assert(table@.skip(i as int)[0] == table@[i as int]);
        if table[i].0 == msg_type {
            return table[i].1;
        }
        assert(table@.skip(i as int).drop_first() =~= table@.skip(i + 1));
        i += 1;
    }
    NetMessageKind::Other
}

/// What the second pass does with a message of kind `kind`. Entity updates
/// are handled only where `should_parse_entities`: decoded where
/// `parse_entities`, and collected after every packet but a full one. User
/// commands are read only where `parse_usercmd`, game events only where
/// some are wanted; the event list and unknown kinds are skipped.
pub open spec fn spec_packet_action(
    kind: NetMessageKind,
    should_parse_entities: bool,
    is_fullpacket: bool,
    parse_entities: bool,
    parse_usercmd: bool,
    wants_events: bool,
) -> PacketAction {
    match kind {
        NetMessageKind::PacketEntities => if should_parse_entities {
            PacketAction::Entities { parse: parse_entities, collect: !is_fullpacket }
        } else {
            PacketAction::Skip
        },
        NetMessageKind::CreateStringTable => PacketAction::CreateStringTable,
        NetMessageKind::UpdateStringTable => PacketAction::UpdateStringTable,
        NetMessageKind::ClearAllStringTables => PacketAction::ClearStringTables,
        NetMessageKind::ServerInfo => PacketAction::ServerInfo,
        NetMessageKind::VoiceData => PacketAction::VoiceData,
        NetMessageKind::UserCmds => if parse_usercmd { PacketAction::UserCmds } else { PacketAction::Skip },
        NetMessageKind::NetTick => PacketAction::NetTick,
        NetMessageKind::SetConVar => PacketAction::ConVars,
        NetMessageKind::SendPlayerItemDrops => PacketAction::ItemDrops,
        NetMessageKind::EndOfMatchAllPlayersData => PacketAction::PlayerEndData,
        NetMessageKind::PlayerStatsUpdate => PacketAction::PlayerStatsUpdate,
        NetMessageKind::ServerRankUpdate => PacketAction::RankUpdate,
        NetMessageKind::SayText2 => PacketAction::ChatMessage,
        NetMessageKind::SayText => PacketAction::ServerMessage,
        NetMessageKind::GameEvent => if wants_events { PacketAction::GameEvent } else { PacketAction::Skip },
        NetMessageKind::GameEventList => PacketAction::Skip,
        NetMessageKind::Other => PacketAction::Skip,
    }
}

/// What the second pass does with a message of kind `kind`, as
/// `spec_packet_action` says.
pub fn packet_action(
    kind: NetMessageKind,
    should_parse_entities: bool,
    is_fullpacket: bool,
    parse_entities: bool,
    parse_usercmd: bool,
    wants_events: bool,
) -> (a: PacketAction)
    ensures
        a == spec_packet_action(kind, should_parse_entities, is_fullpacket, parse_entities, parse_usercmd, wants_events),
{
    match kind {
        NetMessageKind::PacketEntities => if should_parse_entities {
            PacketAction::Entities { parse: parse_entities, collect: !is_fullpacket }
        } else {
            PacketAction::Skip
        },
        NetMessageKind::CreateStringTable => PacketAction::CreateStringTable,
        NetMessageKind::UpdateStringTable => PacketAction::UpdateStringTable,
        NetMessageKind::ClearAllStringTables => PacketAction::ClearStringTables,
        NetMessageKind::ServerInfo => PacketAction::ServerInfo,
        NetMessageKind::VoiceData => PacketAction::VoiceData,
        NetMessageKind::UserCmds => if parse_usercmd { PacketAction::UserCmds } else { PacketAction::Skip },
        NetMessageKind::NetTick => PacketAction::NetTick,
        NetMessageKind::SetConVar => PacketAction::ConVars,
        NetMessageKind::SendPlayerItemDrops => PacketAction::ItemDrops,
        NetMessageKind::EndOfMatchAllPlayersData => PacketAction::PlayerEndData,
        NetMessageKind::PlayerStatsUpdate => PacketAction::PlayerStatsUpdate,
        NetMessageKind::ServerRankUpdate => PacketAction::RankUpdate,
        NetMessageKind::SayText2 => PacketAction::ChatMessage,
        NetMessageKind::SayText => PacketAction::ServerMessage,
        NetMessageKind::GameEvent => if wants_events { PacketAction::GameEvent } else { PacketAction::Skip },
        NetMessageKind::GameEventList => PacketAction::Skip,
        NetMessageKind::Other => PacketAction::Skip,
    }
}

/// The action for each message of a packet, in order, each by its type as
/// `table` names it and as `spec_packet_action` decides.
pub fn packet_actions(
    msgs: &Vec<(i32, Vec<u8>)>,
    table: &Vec<(i32, NetMessageKind)>,
    should_parse_entities: bool,
    is_fullpacket: bool,
    parse_entities: bool,
    parse_usercmd: bool,
    wants_events: bool,
) -> (r: Vec<PacketAction>)
    ensures
        r@.len() == msgs@.len(),
        forall|i: int| 0 <= i < msgs@.len() ==> #[trigger] r@[i] == spec_packet_action(kind_of(table@, msgs@[i].0),
            should_parse_entities, is_fullpacket, parse_entities, parse_usercmd, wants_events),
{
    let mut r: Vec<PacketAction> = Vec::new();
    let mut i: usize = 0;
    while i < msgs.len()
        invariant
            i <= msgs@.len(),
            r@.len() == i,
            forall|j: int| 0 <= j < i ==> #[trigger] r@[j] == spec_packet_action(kind_of(table@, msgs@[j].0),
                should_parse_entities, is_fullpacket, parse_entities, parse_usercmd, wants_events),
        decreases msgs@.len() - i,
    {
        let kind = message_kind(msgs[i].0, table);
        r.push(packet_action(kind, should_parse_entities, is_fullpacket, parse_entities, parse_usercmd, wants_events));
        i += 1;
    }
    r
}

/// What the first pass does with a message of kind `kind`: it reads the
/// game event list and keeps the string tables, and skips the rest.
pub open spec fn spec_first_pass_action(kind: NetMessageKind) -> PacketAction {
    match kind {
        NetMessageKind::GameEventList => PacketAction::GameEventList,
        NetMessageKind::CreateStringTable => PacketAction::CreateStringTable,
        NetMessageKind::UpdateStringTable => PacketAction::UpdateStringTable,
        NetMessageKind::ClearAllStringTables => PacketAction::ClearStringTables,
        _ => PacketAction::Skip,
    }
}

/// What the first pass does with a message of kind `kind`.
pub fn first_pass_action(kind: NetMessageKind) -> (a: PacketAction)
    ensures
        a == spec_first_pass_action(kind),
{
    match kind {
        NetMessageKind::GameEventList => PacketAction::GameEventList,
        NetMessageKind::CreateStringTable => PacketAction::CreateStringTable,
        NetMessageKind::UpdateStringTable => PacketAction::UpdateStringTable,
        NetMessageKind::ClearAllStringTables => PacketAction::ClearStringTables,
        _ => PacketAction::Skip,
    }
}

/// What a pass does with a frame.
#[derive(Clone, Copy, Debug, PartialEq, Eq, Structural)]
pub enum FrameStep {
    /// The pass ends.
    Stop,
    /// The frame's payload is not read.
    Skip,
    SendTables,
    FileHeader,
    ClassInfo,
    /// A packet, read message by message.
    Packet,
    /// A full packet; its entity updates are handled where
    /// `should_parse_entities` is set.
    FullPacket { should_parse_entities: bool },
}

/// What the first pass does with a frame of command `cmd`: it stops at the
/// end of the demo, reads send tables, the header, class info, sign-on
/// packets and full packets, and skips the rest.
pub open spec fn spec_first_pass_step(cmd: DemoCommand) -> FrameStep {
    match cmd {
        DemoCommand::DemStop => FrameStep::Stop,
        DemoCommand::DemSendTables => FrameStep::SendTables,
        DemoCommand::DemFileHeader => FrameStep::FileHeader,
        DemoCommand::DemClassInfo => FrameStep::ClassInfo,
        DemoCommand::DemSignonPacket => FrameStep::Packet,
        DemoCommand::DemFullPacket => FrameStep::FullPacket { should_parse_entities: false },
        _ => FrameStep::Skip,
    }
}

/// What the first pass does with a frame of command `cmd`.
pub fn first_pass_step(cmd: DemoCommand) -> (s: FrameStep)
    ensures
        s == spec_first_pass_step(cmd),
{
    match cmd {
        DemoCommand::DemStop => FrameStep::Stop,
        DemoCommand::DemSendTables => FrameStep::SendTables,
        DemoCommand::DemFileHeader => FrameStep::FileHeader,
        DemoCommand::DemClassInfo => FrameStep::ClassInfo,
        DemoCommand::DemSignonPacket => FrameStep::Packet,
        DemoCommand::DemFullPacket => FrameStep::FullPacket { should_parse_entities: false },
        _ => FrameStep::Skip,
    }
}

/// What the second pass does with a frame of command `cmd` that ends at
/// `ptr`, and whether a full packet is still needed afterwards. It stops at
/// the end of the demo or past `upper_bound`; it reads packets and sign-on
/// packets; a full packet it reads where it parses all packets or still
/// needs one (handling its entities only in the second case), after which
/// it needs none, and else stops; other frames it skips.
pub open spec fn spec_second_pass_step(
    cmd: DemoCommand,
    ptr: usize,
    upper_bound: usize,
    parse_all_packets: bool,
    need_parse_fullpacket: bool,
) -> (FrameStep, bool) {
    if cmd == DemoCommand::DemStop || ptr > upper_bound {
        (FrameStep::Stop, need_parse_fullpacket)
    } else if cmd == DemoCommand::DemPacket || cmd == DemoCommand::DemSignonPacket {
        (FrameStep::Packet, need_parse_fullpacket)
    } else if cmd == DemoCommand::DemFullPacket {
        if parse_all_packets || need_parse_fullpacket {
            (FrameStep::FullPacket { should_parse_entities: !parse_all_packets }, false)
        } else {
            (FrameStep::Stop, need_parse_fullpacket)
        }
    } else {
        (FrameStep::Skip, need_parse_fullpacket)
    }
}

/// What the second pass does with a frame, as `spec_second_pass_step` says.
pub fn second_pass_step(
    cmd: DemoCommand,
    ptr: usize,
    upper_bound: usize,
    parse_all_packets: bool,
    need_parse_fullpacket: bool,
) -> (r: (FrameStep, bool))
    ensures
        r == spec_second_pass_step(cmd, ptr, upper_bound, parse_all_packets, need_parse_fullpacket),
{
    if cmd == DemoCommand::DemStop || ptr > upper_bound {
        (FrameStep::Stop, need_parse_fullpacket)
    } else if cmd == DemoCommand::DemPacket || cmd == DemoCommand::DemSignonPacket {
        (FrameStep::Packet, need_parse_fullpacket)
    } else if cmd == DemoCommand::DemFullPacket {
        if parse_all_packets || need_parse_fullpacket {
            (FrameStep::FullPacket { should_parse_entities: !parse_all_packets }, false)
        } else {
            (FrameStep::Stop, need_parse_fullpacket)
        }
    } else {
        (FrameStep::Skip, need_parse_fullpacket)
    }
}

} // verus!
