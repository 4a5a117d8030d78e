//! A verified core for reading Counter-Strike 2 demo files: varints and demo
//! frames, a bit reader, field paths, send-table fields, string tables and
//! property columns.
use vstd::prelude::*;

pub mod error;
pub mod varint;
pub mod bitreader;
pub mod field_path;
pub mod frames;
pub mod compression;
pub mod strings;
pub mod props;
pub mod sendtables;
pub mod numtext;
pub mod field_builder;
pub mod serializer_msg;
pub mod variants;
pub mod lookup;
pub mod prop_controller;
pub mod sendtable_parse;
pub mod player_info;
pub mod stringtables;
pub mod voice;
pub mod game_types;
pub mod translations;
pub mod laws;
pub mod purchases;
pub mod sales;
pub mod packet;
pub mod player_meta;
pub mod entity_state;
pub mod event_fields;
pub mod custom_events;
pub mod collect;
pub mod event_parse;
pub mod message_events;
pub mod entity_updates;
pub mod demo_header;
pub mod outputs;
pub mod item_messages;
pub mod coordinates;
pub mod projectiles;
pub mod equality;
pub mod class_info;
pub mod full_packet;
pub mod tick_collect;
pub mod combine;
pub mod dispatch;
pub mod paths;
pub mod entity_ops;

verus! {
} // verus!
