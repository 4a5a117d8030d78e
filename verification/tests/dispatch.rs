use demoparser::dispatch::{
    first_pass_action, first_pass_step, message_kind, packet_action, packet_actions, second_pass_step, FrameStep,
    NetMessageKind, PacketAction,
};
use demoparser::frames::DemoCommand;

fn table() -> Vec<(i32, NetMessageKind)> {
    vec![(55, NetMessageKind::PacketEntities), (76, NetMessageKind::UserCmds), (207, NetMessageKind::GameEvent), (55, NetMessageKind::Other)]
}

#[test]
fn message_kinds_come_from_the_first_entry() {
    assert_eq!(message_kind(55, &table()), NetMessageKind::PacketEntities);
    assert_eq!(message_kind(207, &table()), NetMessageKind::GameEvent);
    assert_eq!(message_kind(1, &table()), NetMessageKind::Other);
}

#[test]
fn entity_updates_follow_the_flags() {
    let k = NetMessageKind::PacketEntities;
    assert_eq!(packet_action(k, true, false, true, false, false), PacketAction::Entities { parse: true, collect: true });
    assert_eq!(packet_action(k, true, true, false, false, false), PacketAction::Entities { parse: false, collect: false });
    assert_eq!(packet_action(k, false, false, true, true, true), PacketAction::Skip);
}

#[test]
fn user_commands_and_events_are_gated() {
    assert_eq!(packet_action(NetMessageKind::UserCmds, true, false, true, false, true), PacketAction::Skip);
    assert_eq!(packet_action(NetMessageKind::UserCmds, true, false, true, true, true), PacketAction::UserCmds);
    assert_eq!(packet_action(NetMessageKind::GameEvent, true, false, true, true, false), PacketAction::Skip);
    assert_eq!(packet_action(NetMessageKind::GameEvent, true, false, true, true, true), PacketAction::GameEvent);
    assert_eq!(packet_action(NetMessageKind::SayText2, false, false, false, false, false), PacketAction::ChatMessage);
    assert_eq!(packet_action(NetMessageKind::GameEventList, true, true, true, true, true), PacketAction::Skip);
    assert_eq!(packet_action(NetMessageKind::Other, true, true, true, true, true), PacketAction::Skip);
}

#[test]
fn each_message_of_a_packet_gets_its_action() {
    let msgs = vec![(55, vec![1u8]), (9, vec![]), (207, vec![2, 3])];
    assert_eq!(
        packet_actions(&msgs, &table(), true, false, true, false, true),
        vec![PacketAction::Entities { parse: true, collect: true }, PacketAction::Skip, PacketAction::GameEvent]
    );
}

#[test]
fn first_pass_keeps_tables_and_the_event_list() {
    assert_eq!(first_pass_action(NetMessageKind::GameEventList), PacketAction::GameEventList);
    assert_eq!(first_pass_action(NetMessageKind::ClearAllStringTables), PacketAction::ClearStringTables);
    assert_eq!(first_pass_action(NetMessageKind::GameEvent), PacketAction::Skip);
    assert_eq!(first_pass_step(DemoCommand::DemStop), FrameStep::Stop);
    assert_eq!(first_pass_step(DemoCommand::DemSendTables), FrameStep::SendTables);
    assert_eq!(first_pass_step(DemoCommand::DemPacket), FrameStep::Skip);
    assert_eq!(first_pass_step(DemoCommand::DemSignonPacket), FrameStep::Packet);
}

#[test]
fn second_pass_reads_one_full_packet_unless_it_reads_all() {
    assert_eq!(second_pass_step(DemoCommand::DemPacket, 10, 100, false, true), (FrameStep::Packet, true));
    assert_eq!(second_pass_step(DemoCommand::DemPacket, 101, 100, false, true), (FrameStep::Stop, true));
    assert_eq!(
        second_pass_step(DemoCommand::DemFullPacket, 10, 100, false, true),
        (FrameStep::FullPacket { should_parse_entities: true }, false)
    );
    assert_eq!(second_pass_step(DemoCommand::DemFullPacket, 10, 100, false, false), (FrameStep::Stop, false));
    assert_eq!(
        second_pass_step(DemoCommand::DemFullPacket, 10, 100, true, false),
        (FrameStep::FullPacket { should_parse_entities: false }, false)
    );
    assert_eq!(second_pass_step(DemoCommand::DemFileHeader, 10, 100, true, false), (FrameStep::Skip, false));
    assert_eq!(second_pass_step(DemoCommand::DemStop, 10, 100, true, true), (FrameStep::Stop, true));
}
