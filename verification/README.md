# demoparser

A library for reading Counter-Strike 2 demo files, written in Verus: each
function states what it does in `requires` / `ensures`, and Verus proves the
code against it.

## Layout

- `src/` — the verified library.
  - Reading: `varint`, `bitreader`, `frames`, `compression`, `packet`,
    `full_packet`, `demo_header`, and `dispatch` (what each pass does with a
    frame and with each message of a packet).
  - Entity data: `field_path`, `sendtables`, `sendtable_parse`,
    `field_builder`, `serializer_msg`, `class_info`, `paths` (field paths
    of an entity update), `entity_ops` (entity headers, creation and
    deletion), `entity_updates`, `entity_state`, `player_meta`.
  - Tables: `stringtables`, `player_info`, `translations`, `game_types`.
  - Output: `variants`, `prop_controller`, `collect`, `tick_collect`,
    `outputs`, `combine`, and the event modules (`event_parse`,
    `event_fields`, `custom_events`, `purchases`, `sales`,
    `message_events`, `item_messages`, `projectiles`, `coordinates`).
  - `laws` — properties that span several functions, stated as proof
    functions.
- `tests/` — tests on concrete values.
- `app/` — the parts that need floating point or outside traits.

Calls into `bitter`, `snap` and `regex` stand behind small trusted wrappers,
each with a doc comment that says what its contract claims of the call.
