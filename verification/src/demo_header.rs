use vstd::prelude::*;
use crate::strings::{signed_decimal, i32_to_decimal};

verus! {

/// The file header message of a demo; a missing part reads as 0, false or
/// empty.
#[derive(Debug)]
pub struct DemoFileHeader {
    pub demo_file_stamp: String,
    pub network_protocol: Option<i32>,
    pub server_name: Option<String>,
    pub client_name: Option<String>,
    pub map_name: Option<String>,
    pub game_directory: Option<String>,
    pub fullpackets_version: Option<i32>,
    pub allow_clientside_entities: Option<bool>,
    pub allow_clientside_particles: Option<bool>,
    pub addons: Option<String>,
    pub demo_version_name: Option<String>,
    pub demo_version_guid: Option<String>,
    pub build_num: Option<i32>,
    pub game: Option<String>,
    pub server_start_tick: Option<i32>,
}

/// A text that may be missing, missing read as empty.
pub open spec fn text_of(t: Option<String>) -> Seq<char> {
    match t {
        Some(t) => t@,
        None => Seq::empty(),
    }
}

/// A number that may be missing (read as 0), in decimal.
pub open spec fn number_text(v: Option<i32>) -> Seq<char> {
    signed_decimal(match v { Some(x) => x, None => 0 } as int)
}

/// A flag that may be missing (read as false), as `true` or `false`.
pub open spec fn flag_text(v: Option<bool>) -> Seq<char> {
    if v == Some(true) { "true"@ } else { "false"@ }
}

/// The header as names and texts, in the order the parser records them.
pub open spec fn header_entries(h: DemoFileHeader) -> Seq<(Seq<char>, Seq<char>)> {
    seq![
        ("demo_file_stamp"@, h.demo_file_stamp@),
        ("demo_version_guid"@, text_of(h.demo_version_guid)),
        ("network_protocol"@, number_text(h.network_protocol)),
        ("server_name"@, text_of(h.server_name)),
        ("client_name"@, text_of(h.client_name)),
        ("map_name"@, text_of(h.map_name)),
        ("game_directory"@, text_of(h.game_directory)),
        ("fullpackets_version"@, number_text(h.fullpackets_version)),
        ("allow_clientside_entities"@, flag_text(h.allow_clientside_entities)),
        ("allow_clientside_particles"@, flag_text(h.allow_clientside_particles)),
        ("addons"@, text_of(h.addons)),
        ("build_num"@, number_text(h.build_num)),
        ("game"@, text_of(h.game)),
        ("server_start_tick"@, number_text(h.server_start_tick)),
        ("demo_version_name"@, text_of(h.demo_version_name)),
    ]
}

/// Name-text pairs as mathematical values.
pub open spec fn entries_view(v: Seq<(String, String)>) -> Seq<(Seq<char>, Seq<char>)> {
    v.map_values(|p: (String, String)| (p.0@, p.1@))
}

/// A text that may be missing, missing read as empty.
fn text_or_empty(t: &Option<String>) -> (r: String)
    ensures
        r@ == text_of(*t),
{
    match t {
        Some(s) => s.clone(),
        None => String::new(),
    }
}

/// A number that may be missing (read as 0), in decimal.
fn number_string(v: Option<i32>) -> (r: String)
    ensures
        r@ == number_text(v),
{
    i32_to_decimal(match v { Some(x) => x, None => 0 })
}

/// A flag that may be missing (read as false), as `true` or `false`.
fn flag_string(v: Option<bool>) -> (r: String)
    ensures
        r@ == flag_text(v),
{
    if v == Some(true) {
        "true".to_string()
    } else {
        "false".to_string()
    }
}

/// The header of a demo as names and texts, as `header_entries` says.
pub fn parse_header(h: &DemoFileHeader) -> (r: Vec<(String, String)>)
    ensures
        entries_view(r@) == header_entries(*h),
{
    let r = vec![
        ("demo_file_stamp".to_string(), h.demo_file_stamp.clone()),
        ("demo_version_guid".to_string(), text_or_empty(&h.demo_version_guid)),
        ("network_protocol".to_string(), number_string(h.network_protocol)),
        ("server_name".to_string(), text_or_empty(&h.server_name)),
        ("client_name".to_string(), text_or_empty(&h.client_name)),
        ("map_name".to_string(), text_or_empty(&h.map_name)),
        ("game_directory".to_string(), text_or_empty(&h.game_directory)),
        ("fullpackets_version".to_string(), number_string(h.fullpackets_version)),
        ("allow_clientside_entities".to_string(), flag_string(h.allow_clientside_entities)),
        ("allow_clientside_particles".to_string(), flag_string(h.allow_clientside_particles)),
        ("addons".to_string(), text_or_empty(&h.addons)),
        ("build_num".to_string(), number_string(h.build_num)),
        ("game".to_string(), text_or_empty(&h.game)),
        ("server_start_tick".to_string(), number_string(h.server_start_tick)),
        ("demo_version_name".to_string(), text_or_empty(&h.demo_version_name)),
    ];
    assert(entries_view(r@) =~= header_entries(*h));
    r
}

/// The entries name `name` exactly once in effect: some entry pairs it with
/// `value`, and every entry named `name` holds `value`.
pub open spec fn holds_entry(r: Seq<(Seq<char>, Seq<char>)>, name: Seq<char>, value: Seq<char>) -> bool {
    &&& exists|i: int| 0 <= i < r.len() && #[trigger] r[i] == (name, value)
    &&& forall|j: int| 0 <= j < r.len() && #[trigger] r[j].0 == name ==> r[j].1 == value
}

/// The names of the header entries, in order.
pub open spec fn header_names() -> Seq<Seq<char>> {
    seq![
        "demo_file_stamp"@, "demo_version_guid"@, "network_protocol"@, "server_name"@, "client_name"@,
        "map_name"@, "game_directory"@, "fullpackets_version"@, "allow_clientside_entities"@,
        "allow_clientside_particles"@, "addons"@, "build_num"@, "game"@, "server_start_tick"@,
        "demo_version_name"@,
    ]
}

/// No two header entries share a name.
proof fn lemma_header_names_distinct()
    ensures
        forall|i: int, j: int| 0 <= i < j < 15 ==> #[trigger] header_names()[i] != #[trigger] header_names()[j],
{
    reveal_strlit("demo_file_stamp");
    reveal_strlit("demo_version_guid");
    reveal_strlit("network_protocol");
    reveal_strlit("server_name");
    reveal_strlit("client_name");
    reveal_strlit("map_name");
    reveal_strlit("game_directory");
    reveal_strlit("fullpackets_version");
    reveal_strlit("allow_clientside_entities");
    reveal_strlit("allow_clientside_particles");
    reveal_strlit("addons");
    reveal_strlit("build_num");
    reveal_strlit("game");
    reveal_strlit("server_start_tick");
    reveal_strlit("demo_version_name");
    let n = header_names();
    assert(n[0].len() == 15);
    assert(n[1].len() == 17);
    assert(n[2].len() == 16);
    assert(n[3].len() == 11);
    assert(n[4].len() == 11);
    assert(n[5].len() == 8);
    assert(n[6].len() == 14);
    assert(n[7].len() == 19);
    assert(n[8].len() == 25);
    assert(n[9].len() == 26);
    assert(n[10].len() == 6);
    assert(n[11].len() == 9);
    assert(n[12].len() == 4);
    assert(n[13].len() == 17);
    assert(n[14].len() == 17);
    assert(n[1][0] != n[13][0]);
    assert(n[1][13] != n[14][13]);
    assert(n[3][0] != n[4][0]);
    assert(n[13][0] != n[14][0]);
}

/// Each entry of the header holds the header field of its name: a text
/// field its text (empty where missing), a number its decimal digits (0
/// where missing), a flag `true` or `false` (false where missing).
pub proof fn law_header_entries_hold_their_fields(h: DemoFileHeader, r: Vec<(String, String)>)
    requires
        entries_view(r@) == header_entries(h),
    ensures
        holds_entry(entries_view(r@), "demo_file_stamp"@, h.demo_file_stamp@),
        holds_entry(entries_view(r@), "demo_version_guid"@,
            match h.demo_version_guid { Some(t) => t@, None => Seq::<char>::empty() }),
        holds_entry(entries_view(r@), "network_protocol"@,
            signed_decimal(match h.network_protocol { Some(x) => x as int, None => 0 })),
        holds_entry(entries_view(r@), "server_name"@,
            match h.server_name { Some(t) => t@, None => Seq::<char>::empty() }),
        holds_entry(entries_view(r@), "client_name"@,
            match h.client_name { Some(t) => t@, None => Seq::<char>::empty() }),
        holds_entry(entries_view(r@), "map_name"@,
            match h.map_name { Some(t) => t@, None => Seq::<char>::empty() }),
        holds_entry(entries_view(r@), "game_directory"@,
            match h.game_directory { Some(t) => t@, None => Seq::<char>::empty() }),
        holds_entry(entries_view(r@), "fullpackets_version"@,
            signed_decimal(match h.fullpackets_version { Some(x) => x as int, None => 0 })),
        holds_entry(entries_view(r@), "allow_clientside_entities"@,
            if h.allow_clientside_entities == Some(true) { "true"@ } else { "false"@ }),
        holds_entry(entries_view(r@), "allow_clientside_particles"@,
            if h.allow_clientside_particles == Some(true) { "true"@ } else { "false"@ }),
        holds_entry(entries_view(r@), "addons"@,
            match h.addons { Some(t) => t@, None => Seq::<char>::empty() }),
        holds_entry(entries_view(r@), "build_num"@,
            signed_decimal(match h.build_num { Some(x) => x as int, None => 0 })),
        holds_entry(entries_view(r@), "game"@,
            match h.game { Some(t) => t@, None => Seq::<char>::empty() }),
        holds_entry(entries_view(r@), "server_start_tick"@,
            signed_decimal(match h.server_start_tick { Some(x) => x as int, None => 0 })),
        holds_entry(entries_view(r@), "demo_version_name"@,
            match h.demo_version_name { Some(t) => t@, None => Seq::<char>::empty() }),
{
    let e = entries_view(r@);
    lemma_header_names_distinct();
    assert(e.len() == 15);
    assert forall|j: int| 0 <= j < 15 implies #[trigger] e[j].0 == header_names()[j] by {}
    assert(e[0] == ("demo_file_stamp"@, h.demo_file_stamp@));
    assert(e[1] == ("demo_version_guid"@, match h.demo_version_guid { Some(t) => t@, None => Seq::<char>::empty() }));
    assert(e[2] == ("network_protocol"@, signed_decimal(match h.network_protocol { Some(x) => x as int, None => 0 })));
    assert(e[3] == ("server_name"@, match h.server_name { Some(t) => t@, None => Seq::<char>::empty() }));
    assert(e[4] == ("client_name"@, match h.client_name { Some(t) => t@, None => Seq::<char>::empty() }));
    assert(e[5] == ("map_name"@, match h.map_name { Some(t) => t@, None => Seq::<char>::empty() }));
    assert(e[6] == ("game_directory"@, match h.game_directory { Some(t) => t@, None => Seq::<char>::empty() }));
    assert(e[7] == ("fullpackets_version"@, signed_decimal(match h.fullpackets_version { Some(x) => x as int, None => 0 })));
    assert(e[8] == ("allow_clientside_entities"@, if h.allow_clientside_entities == Some(true) { "true"@ } else { "false"@ }));
    assert(e[9] == ("allow_clientside_particles"@, if h.allow_clientside_particles == Some(true) { "true"@ } else { "false"@ }));
    assert(e[10] == ("addons"@, match h.addons { Some(t) => t@, None => Seq::<char>::empty() }));
    assert(e[11] == ("build_num"@, signed_decimal(match h.build_num { Some(x) => x as int, None => 0 })));
    assert(e[12] == ("game"@, match h.game { Some(t) => t@, None => Seq::<char>::empty() }));
    assert(e[13] == ("server_start_tick"@, signed_decimal(match h.server_start_tick { Some(x) => x as int, None => 0 })));
    assert(e[14] == ("demo_version_name"@, match h.demo_version_name { Some(t) => t@, None => Seq::<char>::empty() }));
}

} // verus!
