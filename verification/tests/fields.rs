use demoparser::error::DemoParserError;
use demoparser::field_builder::{
    create_field, find_category, find_field_type, ConstructorField, QfMapper, QfParams,
};
use demoparser::field_path::FieldPath;
use demoparser::prop_controller::{PropController, PropTables, PropType};
use demoparser::props::{add_velocity_props, contains_usercmd_prop, needs_velocity, MY_WEAPONS_OFFSET, ITEM_PURCHASE_COST};
use demoparser::sendtable_parse::{create_fields, sendtable_payload};
use demoparser::sendtables::{
    ArrayField, Decoder, Field, FieldCategory, FieldType, PointerField, Serializer, SerializerField, ValueField, VectorField,
};
use demoparser::serializer_msg::{FlattenedSerializerMsg, SerializerFieldMsg, SerializerMsg};

fn constructor(var_name: &str, base: &str) -> ConstructorField {
    ConstructorField {
        var_name: var_name.to_string(),
        var_type: base.to_string(),
        send_node: String::new(),
        serializer_name: None,
        encoder: String::new(),
        encode_flags: 0,
        bitcount: 0,
        low_value_bits: 0,
        high_value_bits: 0,
        field_type: FieldType { base_type: base.to_string(), pointer: false, count: None },
        decoder: Decoder::BaseDecoder,
        category: FieldCategory::Value,
        field_enum_type: None,
        serializer: None,
        base_decoder: None,
        child_decoder: None,
    }
}

fn value(name: &str) -> Field {
    Field::Value(ValueField::new(Decoder::UnsignedDecoder, name))
}

fn tables() -> PropTables {
    PropTables {
        buttons: vec!["FORWARD".to_string(), "JUMP".to_string()],
        custom_ids: vec![("is_alive".to_string(), 100000001)],
        types: vec![("CCSPlayerPawn.m_iHealth".to_string(), PropType::Player), ("m_iClip1".to_string(), PropType::Weapon)],
    }
}

fn controller(wanted: &[&str]) -> PropController {
    PropController::new(
        wanted.iter().map(|s| s.to_string()).collect(),
        vec![],
        vec![],
        vec![("CCSPlayerPawn.m_iHealth".to_string(), "health".to_string())],
        false,
        tables(),
    )
}

#[test]
fn field_types_are_read_from_their_names() {
    let t = find_field_type("float32[3]").unwrap();
    assert_eq!(t.base_type, "float32");
    assert!(!t.pointer);
    assert_eq!(t.count, Some(3));
    let t = find_field_type("CPlayer*").unwrap();
    assert_eq!(t.base_type, "CPlayer");
    assert!(t.pointer);
    let t = find_field_type("CBodyComponent").unwrap();
    assert!(t.pointer);
    let t = find_field_type("CNetworkUtlVectorBase< CHandle< CBaseEntity > >").unwrap();
    assert_eq!(t.base_type, "CNetworkUtlVectorBase");
    assert_eq!(t.count, None);
    let t = find_field_type("char[x]").unwrap();
    assert_eq!(t.count, Some(0));
}

#[test]
fn categories_follow_pointer_vector_array_order() {
    let mut f = constructor("m_a", "CBodyComponent");
    assert_eq!(find_category(&f), FieldCategory::Pointer);
    f = constructor("m_a", "CUtlVector");
    assert_eq!(find_category(&f), FieldCategory::Vector);
    f = constructor("m_a", "int32");
    f.field_type.count = Some(4);
    assert_eq!(find_category(&f), FieldCategory::Array);
    f = constructor("m_a", "char");
    f.field_type.count = Some(4);
    assert_eq!(find_category(&f), FieldCategory::Value);
}

#[test]
fn decoders_follow_names_and_types() {
    let table = vec![("int32".to_string(), Decoder::SignedDecoder)];
    let mut qf = QfMapper::new();
    assert_eq!(constructor("m_iClip1", "int32").find_decoder(&table, &mut qf), Decoder::AmmoDecoder);
    assert_eq!(constructor("m_x", "int32").find_decoder(&table, &mut qf), Decoder::SignedDecoder);
    assert_eq!(constructor("m_x", "CHandle").find_decoder(&table, &mut qf), Decoder::UnsignedDecoder);
    assert_eq!(constructor("m_angEyeAngles", "QAngle").find_decoder(&table, &mut qf), Decoder::QanglePitchYawDecoder);
    let mut f = constructor("m_x", "uint64");
    f.encoder = "fixed64".to_string();
    assert_eq!(f.find_decoder(&table, &mut qf), Decoder::Fixed64Decoder);
    assert_eq!(qf.idx, 0);
}

#[test]
fn quantized_floats_are_numbered_in_order() {
    let mut qf = QfMapper::new();
    let mut f = constructor("m_flX", "float32");
    f.bitcount = 10;
    f.encode_flags = 2;
    f.low_value_bits = 1;
    f.high_value_bits = 7;
    assert_eq!(f.find_float_decoder(&mut qf), Decoder::QuantalizedFloatDecoder(0));
    assert_eq!(f.find_vector_type(3, &mut qf), Decoder::VectorNormalDecoder);
    assert_eq!(qf.idx, 2);
    assert_eq!(qf.map[1], QfParams { bitcount: 10, encode_flags: 2, low_value_bits: 1, high_value_bits: 7 });
    f.bitcount = 40;
    assert_eq!(f.find_vector_type(2, &mut qf), Decoder::VectorNoscaleDecoder);
    f.encoder = "coord".to_string();
    assert_eq!(f.find_float_decoder(&mut qf), Decoder::FloatCoordDecoder);
    assert_eq!(qf.idx, 2);
}

#[test]
fn value_fields_start_unparsed() {
    let v = ValueField::new(Decoder::BooleanDecoder, "m_bAlive");
    assert_eq!(v.full_name, "None m_bAlive");
    assert_eq!(v.prop_id, 0);
    assert!(!v.should_parse);
    let vec = VectorField::new(value("x"));
    assert_eq!(vec.decoder, Decoder::UnsignedDecoder);
    let arr = ArrayField::new(value("x"), 3);
    assert_eq!(arr.length, 3);
}

#[test]
fn pointers_to_game_mode_rules_get_their_decoder() {
    let rules = Serializer { name: "CCSGameModeRules".to_string(), fields: vec![value("a")] };
    assert_eq!(PointerField::new(&rules).decoder, Decoder::GameModeRulesDecoder);
    let other = Serializer { name: "CBodyComponent".to_string(), fields: vec![] };
    assert_eq!(PointerField::new(&other).decoder, Decoder::BooleanDecoder);
    let nested = SerializerField::new(&rules);
    assert_eq!(nested.serializer.name, "CCSGameModeRules");
    assert_eq!(nested.serializer.fields.len(), 1);
}

#[test]
fn paths_lead_through_nested_fields() {
    let inner = Serializer { name: "Inner".to_string(), fields: vec![value("a"), value("b")] };
    let ser = Serializer {
        name: "Outer".to_string(),
        fields: vec![value("x"), Field::Serializer(SerializerField::new(&inner))],
    };
    let fp = FieldPath { path: [1, 1, 0, 0, 0, 0, 0], last: 1 };
    match ser.get_field(&fp).unwrap() {
        Field::Value(v) => assert_eq!(v.name, "b"),
        _ => panic!("expected a value"),
    }
    let bad = FieldPath { path: [1, 5, 0, 0, 0, 0, 0], last: 1 };
    assert!(matches!(ser.get_field(&bad), Err(DemoParserError::IllegalPathOp)));
    let too_long = FieldPath { path: [0; 7], last: 6 };
    assert!(matches!(ser.get_field(&too_long), Err(DemoParserError::IllegalPathOp)));
    assert_eq!(ser.fields[1].get_decoder(), Err(DemoParserError::FieldNoDecoder));
    assert_eq!(ser.fields[0].get_decoder(), Ok(Decoder::UnsignedDecoder));
}

#[test]
fn inner_fields_can_be_changed_in_place() {
    let mut f = Field::Vector(VectorField::new(value("x")));
    match f.get_inner_mut(0).unwrap() {
        Field::Value(v) => v.prop_id = 12,
        _ => panic!("expected a value"),
    }
    match f.get_inner(0).unwrap() {
        Field::Value(v) => assert_eq!(v.prop_id, 12),
        _ => panic!("expected a value"),
    }
    let mut e = Field::Empty;
    assert!(e.get_inner_mut(0).is_err());
}

#[test]
fn vector_props_are_flattened_by_path() {
    let mut v = ValueField::new(Decoder::UnsignedDecoder, "m_hMyWeapons");
    v.prop_id = MY_WEAPONS_OFFSET;
    let f = Field::Value(v);
    let fp = FieldPath { path: [0, 0, 5, 0, 0, 0, 0], last: 2 };
    let fi = f.get_field_info(&fp).unwrap();
    assert_eq!(fi.prop_id, MY_WEAPONS_OFFSET + 5 + 1);
    let mut c = ValueField::new(Decoder::UnsignedDecoder, "m_nCost");
    c.prop_id = ITEM_PURCHASE_COST;
    let fp = FieldPath { path: [0, 2, 7, 0, 0, 0, 0], last: 2 };
    assert_eq!(Field::Value(c).get_field_info(&fp).unwrap().prop_id, ITEM_PURCHASE_COST + 7);
    assert!(Field::Empty.get_field_info(&fp).is_none());
}

#[test]
fn created_fields_wrap_their_base() {
    let sers = vec![
        Serializer { name: "S".to_string(), fields: vec![] },
        Serializer { name: "S".to_string(), fields: vec![value("late")] },
    ];
    let mut fd = constructor("m_list", "CUtlVector");
    fd.serializer_name = Some("S".to_string());
    fd.category = FieldCategory::Vector;
    match create_field(&fd, &sers).unwrap() {
        Field::Vector(v) => match *v.field_enum {
            Field::Serializer(s) => assert_eq!(s.serializer.fields.len(), 1),
            _ => panic!("expected a serializer"),
        },
        _ => panic!("expected a vector"),
    }
    fd.serializer_name = Some("Missing".to_string());
    assert!(matches!(create_field(&fd, &sers), Err(DemoParserError::MalformedMessage)));
    let mut arr = constructor("m_a", "int32");
    arr.category = FieldCategory::Array;
    arr.field_type.count = Some(4);
    match create_field(&arr, &sers).unwrap() {
        Field::Array(a) => assert_eq!(a.length, 4),
        _ => panic!("expected an array"),
    }
}

#[test]
fn props_get_ids_once() {
    let mut pc = controller(&["CCSPlayerPawn.m_iHealth", "m_iClip1"]);
    let mut a = ValueField::new(Decoder::UnsignedDecoder, "m_iHealth");
    pc.handle_prop("CCSPlayerPawn", &mut a);
    assert!(a.should_parse);
    assert_eq!(a.prop_id, 1000);
    assert_eq!(pc.prop_infos.len(), 1);
    assert_eq!(pc.prop_infos[0].prop_friendly_name, "health");
    let mut again = ValueField::new(Decoder::UnsignedDecoder, "m_iHealth");
    pc.handle_prop("CCSPlayerPawn", &mut again);
    assert_eq!(again.prop_id, 1000);
    assert_eq!(pc.id, 1001);
    let mut clip = ValueField::new(Decoder::UnsignedDecoder, "m_iClip1");
    pc.handle_prop("CAK47", &mut clip);
    let mut clip2 = ValueField::new(Decoder::UnsignedDecoder, "m_iClip1");
    pc.handle_prop("CWeaponSCAR20", &mut clip2);
    assert_eq!(clip.prop_id, 1001);
    assert_eq!(clip2.prop_id, 1001);
    assert_eq!(pc.prop_infos.len(), 2);
    assert_eq!(pc.prop_infos[1].prop_name, "m_iClip1");
}

#[test]
fn flattened_props_keep_their_base_ids() {
    let mut pc = controller(&[]);
    let mut w = ValueField::new(Decoder::UnsignedDecoder, "m_hMyWeapons");
    pc.handle_prop("CCSPlayerPawn.CCSPlayer_WeaponServices", &mut w);
    assert_eq!(w.prop_id, MY_WEAPONS_OFFSET);
}

#[test]
fn custom_props_are_described_last() {
    let mut pc = controller(&["JUMP", "is_alive", "game_time"]);
    pc.set_custom_propinfos();
    let ids: Vec<u32> = pc.prop_infos.iter().map(|p| p.id).collect();
    assert_eq!(ids, vec![100000, 100000001, 100000002, 100000013, 100000014, 100000015]);
    assert_eq!(pc.prop_infos[1].prop_type, PropType::Custom);
    assert_eq!(pc.prop_infos[0].prop_name, "JUMP");
}

#[test]
fn traversal_marks_reached_values() {
    let mut pc = controller(&[]);
    let inner = Serializer { name: "CBodyComponent".to_string(), fields: vec![value("m_cellX")] };
    let mut ser = Serializer {
        name: "CCSPlayerPawn".to_string(),
        fields: vec![value("m_iHealth"), Field::Pointer(PointerField::new(&inner)), Field::Empty],
    };
    pc.find_prop_name_paths(&mut ser);
    match &ser.fields[0] {
        Field::Value(v) => assert!(v.should_parse),
        _ => panic!(),
    }
    match &ser.fields[1] {
        Field::Pointer(p) => match &p.serializer.fields[0] {
            Field::Value(v) => {
                assert!(v.should_parse);
                assert_eq!(v.prop_id, 1001);
            },
            _ => panic!(),
        },
        _ => panic!(),
    }
    assert_eq!(pc.id_to_name[1].1, "CCSPlayerPawn.CBodyComponent.m_cellX");
}

#[test]
fn send_tables_are_built_from_the_message() {
    let msg = FlattenedSerializerMsg {
        serializers: vec![SerializerMsg { serializer_name_sym: Some(0), serializer_version: None, fields_index: vec![0, 9] }],
        symbols: vec!["CCSPlayerPawn".to_string(), "int32".to_string(), "m_iHealth".to_string(), "node".to_string()],
        fields: vec![SerializerFieldMsg {
            var_type_sym: Some(1),
            var_name_sym: Some(2),
            bit_count: None,
            low_value_bits: None,
            high_value_bits: None,
            encode_flags: None,
            field_serializer_name_sym: None,
            field_serializer_version: None,
            send_node_sym: Some(3),
            var_encoder_sym: None,
            var_serializer_sym: None,
        }],
    };
    let mut pc = controller(&["CCSPlayerPawn.m_iHealth"]);
    let mut qf = QfMapper::new();
    let table = vec![("int32".to_string(), Decoder::SignedDecoder)];
    let sers = create_fields(&msg, &mut pc, &mut qf, &table).unwrap();
    assert_eq!(sers.len(), 1);
    assert_eq!(sers[0].name, "CCSPlayerPawn");
    match &sers[0].fields[0] {
        Field::Value(v) => {
            assert_eq!(v.decoder, Decoder::SignedDecoder);
            assert!(v.should_parse);
            assert_eq!(v.prop_id, 1000);
        },
        _ => panic!(),
    }
    assert!(matches!(sers[0].fields[1], Field::Empty));
    assert_eq!(pc.prop_infos.len(), 4);
}

#[test]
fn send_table_message_bytes_follow_their_length() {
    assert_eq!(sendtable_payload(&[2, 7, 8, 9]), Ok(vec![7, 8]));
    assert!(matches!(sendtable_payload(&[5, 1]), Err(DemoParserError::FailedByteRead(_))));
}

#[test]
fn velocity_and_usercmd_props_are_noticed() {
    let wanted = vec!["velocity_X".to_string(), "Y".to_string()];
    assert!(needs_velocity(&wanted));
    assert!(!contains_usercmd_prop(&wanted));
    let (all, added) = add_velocity_props(&wanted);
    assert_eq!(added, vec!["X".to_string(), "Z".to_string()]);
    assert_eq!(all, vec!["velocity_X".to_string(), "Y".to_string(), "X".to_string(), "Z".to_string()]);
    assert!(contains_usercmd_prop(&["usercmd_mouse_dx".to_string()]));
}
