use vstd::prelude::*;
use crate::error::DemoParserError;
use crate::sendtables::{Decoder, FieldCategory, FieldType, Field, Serializer, same_field};
use crate::field_builder::{
    ConstructorField, QfMapper, qf_params, qf_registered, spec_find_decoder, spec_category,
    find_category, find_field_type, regex_captures, type_from_groups, FIELD_TYPE_PATTERN,
    can_create_field, created_field, create_field,
};
use crate::strings::str_eq;

verus! {

/// One field as the flattened-serializer message lists it. Each `_sym` is
/// an index into the message's symbols; float bounds are `f32` bit
/// patterns. A missing entry reads as 0.
#[derive(Debug, Clone, Copy, PartialEq, Eq, Structural)]
pub struct SerializerFieldMsg {
    pub var_type_sym: Option<i32>,
    pub var_name_sym: Option<i32>,
    pub bit_count: Option<i32>,
    pub low_value_bits: Option<u32>,
    pub high_value_bits: Option<u32>,
    pub encode_flags: Option<i32>,
    pub field_serializer_name_sym: Option<i32>,
    pub field_serializer_version: Option<i32>,
    pub send_node_sym: Option<i32>,
    pub var_encoder_sym: Option<i32>,
    pub var_serializer_sym: Option<i32>,
}

/// One serializer as the message lists it: its name and the indices of its
/// fields in the message's field list.
#[derive(Debug)]
pub struct SerializerMsg {
    pub serializer_name_sym: Option<i32>,
    pub serializer_version: Option<i32>,
    pub fields_index: Vec<i32>,
}

/// The flattened-serializer message: serializers, the symbols their names
/// refer to, and the fields they share.
#[derive(Debug)]
pub struct FlattenedSerializerMsg {
    pub serializers: Vec<SerializerMsg>,
    pub symbols: Vec<String>,
    pub fields: Vec<SerializerFieldMsg>,
}

/// A message entry, 0 where it is missing.
pub open spec fn or_zero(x: Option<i32>) -> i32 {
    match x {
        Some(v) => v,
        None => 0,
    }
}

/// A message entry, 0 where it is missing.
pub open spec fn or_zero_u32(x: Option<u32>) -> u32 {
    match x {
        Some(v) => v,
        None => 0,
    }
}

/// A message entry, 0 where it is missing.
pub fn get_or_zero(x: Option<i32>) -> (r: i32)
    ensures
        r == or_zero(x),
{
    match x {
        Some(v) => v,
        None => 0,
    }
}

/// The symbol with index `sym`, read as an unsigned index.
pub open spec fn symbol_at(symbols: Seq<String>, sym: i32) -> Option<Seq<char>> {
    let i = (sym as usize) as int;
    if i < symbols.len() {
        Some(symbols[i]@)
    } else {
        None
    }
}

/// The symbol with index `sym`.
pub fn get_symbol(symbols: &Vec<String>, sym: i32) -> (r: Option<String>)
    ensures
        match symbol_at(symbols@, sym) {
            Some(s) => r matches Some(t) && t@ == s,
            None => r is None,
        },
{
    let i = sym as usize;
    if i < symbols.len() {
        Some(symbols[i].clone())
    } else {
        None
    }
}

/// Every symbol that field `fm` refers to exists.
pub open spec fn symbols_known(fm: SerializerFieldMsg, symbols: Seq<String>) -> bool {
    &&& (fm.field_serializer_name_sym matches Some(x) ==> symbol_at(symbols, x) is Some)
    &&& (fm.var_encoder_sym matches Some(x) ==> symbol_at(symbols, x) is Some)
    &&& symbol_at(symbols, or_zero(fm.var_name_sym)) is Some
    &&& symbol_at(symbols, or_zero(fm.var_type_sym)) is Some
    &&& symbol_at(symbols, or_zero(fm.send_node_sym)) is Some
}

/// `c` carries what message field `fm` says, with type `t` and nothing
/// worked out yet but its decoder and category.
pub open spec fn from_msg(fm: SerializerFieldMsg, symbols: Seq<String>, t: FieldType, c: ConstructorField) -> bool {
    &&& c.var_name@ == symbol_at(symbols, or_zero(fm.var_name_sym)).unwrap()
    &&& c.var_type@ == symbol_at(symbols, or_zero(fm.var_type_sym)).unwrap()
    &&& c.send_node@ == symbol_at(symbols, or_zero(fm.send_node_sym)).unwrap()
    &&& (match fm.field_serializer_name_sym {
        Some(x) => c.serializer_name matches Some(n) && n@ == symbol_at(symbols, x).unwrap(),
        None => c.serializer_name is None,
    })
    &&& c.encoder@ == (match fm.var_encoder_sym {
        Some(x) => symbol_at(symbols, x).unwrap(),
        None => Seq::<char>::empty(),
    })
    &&& c.encode_flags == or_zero(fm.encode_flags)
    &&& c.bitcount == or_zero(fm.bit_count)
    &&& c.low_value_bits == or_zero_u32(fm.low_value_bits)
    &&& c.high_value_bits == or_zero_u32(fm.high_value_bits)
    &&& c.field_type == t
    &&& c.field_enum_type is None
    &&& c.serializer is None
    &&& c.base_decoder is None
    &&& c.child_decoder is None
}

/// Builds the description of message field `fm` with type `field_type`;
/// a symbol it refers to that does not exist makes the message malformed.
pub fn field_from_msg(fm: &SerializerFieldMsg, msg: &FlattenedSerializerMsg, field_type: FieldType) -> (r: Result<ConstructorField, DemoParserError>)
    ensures
        symbols_known(*fm, msg.symbols@) ==> r is Ok && from_msg(*fm, msg.symbols@, field_type, r->Ok_0)
            && r->Ok_0.decoder == Decoder::BaseDecoder && r->Ok_0.category == FieldCategory::Value,
        !symbols_known(*fm, msg.symbols@) ==> r == Err::<ConstructorField, DemoParserError>(DemoParserError::MalformedMessage),
{
    let ser_name = match fm.field_serializer_name_sym {
        Some(x) => match get_symbol(&msg.symbols, x) {
            Some(s) => Some(s),
            None => return Err(DemoParserError::MalformedMessage),
        },
        None => None,
    };
    let enc_name = match fm.var_encoder_sym {
        Some(x) => match get_symbol(&msg.symbols, x) {
            Some(s) => s,
            None => return Err(DemoParserError::MalformedMessage),
        },
        None => String::new(),
    };
    let var_name = match get_symbol(&msg.symbols, get_or_zero(fm.var_name_sym)) {
        Some(s) => s,
        None => return Err(DemoParserError::MalformedMessage),
    };
    let var_type = match get_symbol(&msg.symbols, get_or_zero(fm.var_type_sym)) {
        Some(s) => s,
        None => return Err(DemoParserError::MalformedMessage),
    };
    let send_node = match get_symbol(&msg.symbols, get_or_zero(fm.send_node_sym)) {
        Some(s) => s,
        None => return Err(DemoParserError::MalformedMessage),
    };
    Ok(ConstructorField {
        field_enum_type: None,
        bitcount: get_or_zero(fm.bit_count),
        var_name,
        var_type,
        send_node,
        serializer_name: ser_name,
        encoder: enc_name,
        encode_flags: get_or_zero(fm.encode_flags),
        low_value_bits: match fm.low_value_bits { Some(v) => v, None => 0 },
        high_value_bits: match fm.high_value_bits { Some(v) => v, None => 0 },
        field_type,
        serializer: None,
        decoder: Decoder::BaseDecoder,
        base_decoder: None,
        child_decoder: None,
        category: FieldCategory::Value,
    })
}

/// The decoder a field gets by its name alone: the predicted float and
/// vector variables and the game-mode rules.
pub open spec fn named_decoder(name: Seq<char>) -> Option<Decoder> {
    if name == "m_PredFloatVariables"@ || name == "m_OwnerOnlyPredNetFloatVariables"@ {
        Some(Decoder::NoscaleDecoder)
    } else if name == "m_OwnerOnlyPredNetVectorVariables"@ || name == "m_PredVectorVariables"@ {
        Some(Decoder::VectorNoscaleDecoder)
    } else if name == "m_pGameModeRules"@ {
        Some(Decoder::GameModeRulesDecoder)
    } else {
        None
    }
}

/// The decoder field `c` ends with, and whether it takes the number of a
/// quantized float: by name, then precise angles, then as
/// `spec_find_decoder` says.
pub open spec fn chosen_decoder(c: ConstructorField, table: Seq<(String, Decoder)>, next: u32) -> (Decoder, bool) {
    match named_decoder(c.var_name@) {
        Some(d) => (d, false),
        None => if c.encoder@ == "qangle_precise"@ {
            (Decoder::QanglePresDecoder, false)
        } else {
            spec_find_decoder(c, table, next)
        },
    }
}

/// `c` is the finished description of message field `fm` with type `t`:
/// what the message says, its category, and its decoder.
pub open spec fn field_data_done(fm: SerializerFieldMsg, symbols: Seq<String>, t: FieldType, table: Seq<(String, Decoder)>, next: u32, c: ConstructorField) -> bool {
    &&& from_msg(fm, symbols, t, c)
    &&& c.category == spec_category(c)
    &&& c.decoder == chosen_decoder(c, table, next).0
}

/// Describes message field `fm` given its type: category and decoder are
/// worked out, and a quantized float it needs is added to `qf_map`.
pub fn field_data_from_type(
    fm: &SerializerFieldMsg,
    msg: &FlattenedSerializerMsg,
    field_type: FieldType,
    table: &[(String, Decoder)],
    qf_map: &mut QfMapper,
) -> (r: Result<ConstructorField, DemoParserError>)
    requires
        old(qf_map).wf(),
        old(qf_map).idx < u32::MAX,
    ensures
        final(qf_map).wf(),
        symbols_known(*fm, msg.symbols@) ==> r is Ok
            && field_data_done(*fm, msg.symbols@, field_type, table@, old(qf_map).idx, r->Ok_0)
            && qf_registered(*old(qf_map), *final(qf_map), chosen_decoder(r->Ok_0, table@, old(qf_map).idx).1, qf_params(r->Ok_0)),
        !symbols_known(*fm, msg.symbols@) ==> r == Err::<ConstructorField, DemoParserError>(DemoParserError::MalformedMessage)
            && *final(qf_map) == *old(qf_map),
{
    let mut field = field_from_msg(fm, msg, field_type)?;
    field.category = find_category(&field);
    let name = field.var_name.as_str();
    field.decoder = if str_eq(name, "m_PredFloatVariables") || str_eq(name, "m_OwnerOnlyPredNetFloatVariables") {
        Decoder::NoscaleDecoder
    } else if str_eq(name, "m_OwnerOnlyPredNetVectorVariables") || str_eq(name, "m_PredVectorVariables") {
        Decoder::VectorNoscaleDecoder
    } else if str_eq(name, "m_pGameModeRules") {
        Decoder::GameModeRulesDecoder
    } else if str_eq(field.encoder.as_str(), "qangle_precise") {
        Decoder::QanglePresDecoder
    } else {
        field.find_decoder(table, qf_map)
    };
    Ok(field)
}

/// Describes message field `fm`: its type name is looked up and read with
/// `FIELD_TYPE_PATTERN`, then `field_data_from_type` does the rest.
pub fn generate_field_data(
    fm: &SerializerFieldMsg,
    msg: &FlattenedSerializerMsg,
    table: &[(String, Decoder)],
    qf_map: &mut QfMapper,
) -> (r: Result<ConstructorField, DemoParserError>)
    requires
        old(qf_map).wf(),
        old(qf_map).idx < u32::MAX,
    ensures
        final(qf_map).wf(),
        match symbol_at(msg.symbols@, or_zero(fm.var_type_sym)) {
            None => r == Err::<ConstructorField, DemoParserError>(DemoParserError::MalformedMessage)
                && *final(qf_map) == *old(qf_map),
            Some(tn) => match regex_captures(FIELD_TYPE_PATTERN@, tn) {
                None => r == Err::<ConstructorField, DemoParserError>(DemoParserError::MalformedMessage)
                    && *final(qf_map) == *old(qf_map),
                Some(g) => {
                    &&& symbols_known(*fm, msg.symbols@) ==> r is Ok
                        && field_data_done(*fm, msg.symbols@, r->Ok_0.field_type, table@, old(qf_map).idx, r->Ok_0)
                        && qf_registered(*old(qf_map), *final(qf_map), chosen_decoder(r->Ok_0, table@, old(qf_map).idx).1, qf_params(r->Ok_0))
                        && exists|v: Seq<Option<String>>|
                            v.map_values(|x: Option<String>| match x { Some(t) => Some(t@), None => None }) == g
                            && #[trigger] type_from_groups(tn, v, r->Ok_0.field_type)
                    &&& !symbols_known(*fm, msg.symbols@) ==> r == Err::<ConstructorField, DemoParserError>(DemoParserError::MalformedMessage)
                        && *final(qf_map) == *old(qf_map)
                },
            },
        },
{
    let name = match get_symbol(&msg.symbols, get_or_zero(fm.var_type_sym)) {
        Some(n) => n,
        None => return Err(DemoParserError::MalformedMessage),
    };
    let field_type = find_field_type(name.as_str())?;
    let ghost t = field_type;
    let r = field_data_from_type(fm, msg, field_type, table, qf_map);
    proof {
        if symbols_known(*fm, msg.symbols@) {
            assert(r->Ok_0.field_type == t);
        }
    }
    r
}

/// The entry of the field list that index `i` selects, read as an unsigned
/// index; `None` past the end.
pub open spec fn entry_at(data: Seq<Option<ConstructorField>>, i: i32) -> Option<ConstructorField> {
    let j = (i as usize) as int;
    if j < data.len() {
        data[j]
    } else {
        None
    }
}

/// Entry `a` is entry `b`, possibly given the field built from it: a field
/// once built stays, and a new one is what `create_field` builds.
pub open spec fn entry_grown(b: Option<ConstructorField>, a: Option<ConstructorField>, sers: Seq<Serializer>) -> bool {
    match b {
        None => a is None,
        Some(f) => a matches Some(g) && g == (ConstructorField { field_enum_type: g.field_enum_type, ..f })
            && (f.field_enum_type is Some ==> g.field_enum_type == f.field_enum_type)
            && (f.field_enum_type is None && g.field_enum_type is Some ==> can_create_field(f, sers)
                && created_field(f, sers, g.field_enum_type->Some_0)),
    }
}

/// Every entry of `after` is the same entry of `before`, possibly given its
/// field.
pub open spec fn cache_grown(before: Seq<Option<ConstructorField>>, after: Seq<Option<ConstructorField>>, sers: Seq<Serializer>) -> bool {
    &&& after.len() == before.len()
    &&& forall|j: int| 0 <= j < before.len() ==> #[trigger] entry_grown(before[j], after[j], sers)
}

/// The entry that `i` selects, if it needs its field built, can have it
/// built.
pub open spec fn entry_buildable(data: Seq<Option<ConstructorField>>, i: i32, sers: Seq<Serializer>) -> bool {
    entry_at(data, i) matches Some(f) ==> (f.field_enum_type is None ==> can_create_field(f, sers))
}

/// Field `f` of a serializer, listed as entry `i`: a copy of the entry's
/// built field, or nothing where the entry is missing.
pub open spec fn listed_field(data: Seq<Option<ConstructorField>>, i: i32, f: Field) -> bool {
    match entry_at(data, i) {
        Some(c) => c.field_enum_type matches Some(x) && same_field(x, f),
        None => f is Empty,
    }
}

/// Builds serializer `sm` of the message. Each field it lists is built from
/// its entry in `field_data` the first time it is needed and kept there for
/// the serializers that list it later; `serializers` are the ones built so
/// far. An unknown name or a field that cannot be built makes the message
/// malformed.
pub fn generate_serializer(
    sm: &SerializerMsg,
    field_data: &mut Vec<Option<ConstructorField>>,
    big: &FlattenedSerializerMsg,
    serializers: &[Serializer],
) -> (r: Result<Serializer, DemoParserError>)
    ensures
        cache_grown(old(field_data)@, final(field_data)@, serializers@),
        r is Ok <==> (symbol_at(big.symbols@, or_zero(sm.serializer_name_sym)) is Some
            && forall|k: int| 0 <= k < sm.fields_index@.len()
                ==> entry_buildable(old(field_data)@, #[trigger] sm.fields_index@[k], serializers@)),
        r is Err ==> r == Err::<Serializer, DemoParserError>(DemoParserError::MalformedMessage),
        r matches Ok(ser) ==> {
            &&& ser.name@ == symbol_at(big.symbols@, or_zero(sm.serializer_name_sym)).unwrap()
            &&& ser.fields@.len() == sm.fields_index@.len()
            &&& forall|k: int| 0 <= k < sm.fields_index@.len()
                ==> listed_field(final(field_data)@, #[trigger] sm.fields_index@[k], ser.fields@[k])
        },
{
    let name = match get_symbol(&big.symbols, get_or_zero(sm.serializer_name_sym)) {
        Some(n) => n,
        None => return Err(DemoParserError::MalformedMessage),
    };
    let ghost start = field_data@;
    let mut fields: Vec<Field> = Vec::new();
    let mut k: usize = 0;
    while k < sm.fields_index.len()
        invariant
            k <= sm.fields_index@.len(),
            fields@.len() == k,
            start == old(field_data)@,
            cache_grown(start, field_data@, serializers@),
            forall|k2: int| 0 <= k2 < k ==> entry_buildable(start, #[trigger] sm.fields_index@[k2], serializers@),
            forall|k2: int| 0 <= k2 < k ==> listed_field(field_data@, #[trigger] sm.fields_index@[k2], fields@[k2]),
        decreases sm.fields_index@.len() - k,
    {
        let i = sm.fields_index[k];
        let j = i as usize;
        let mut item = Field::Empty;
        let ghost before = field_data@;
        if j < field_data.len() {
            let needs = match &field_data[j] {
                Some(f) => f.field_enum_type.is_none(),
                None => false,
            };
            if needs {
                let made = match &field_data[j] {
                    Some(f) => create_field(f, serializers),
                    None => Err(DemoParserError::MalformedMessage),
                };
                let c = match made {
                    Ok(c) => c,
                    Err(e) => {
                        proof {
                            assert(entry_grown(start[j as int], before[j as int], serializers@));
                            assert(!entry_buildable(start, i, serializers@));
                        }
                        return Err(e);
                    },
                };
                let ghost built = c;
                let slot = &mut field_data[j];
                match slot {
                    Some(f) => {
                        f.field_enum_type = Some(c);
                    },
                    None => {},
                }
                proof {
                    assert(entry_grown(start[j as int], before[j as int], serializers@));
                    assert(created_field(before[j as int]->Some_0, serializers@, built));
                    assert(entry_grown(start[j as int], field_data@[j as int], serializers@));
                }
            }
            match &field_data[j] {
                Some(f) => match &f.field_enum_type {
                    Some(x) => {
                        item = x.clone_field();
                    },
                    None => {},
                },
                None => {},
            }
        }
        proof {
            if j < start.len() {
                assert(entry_grown(start[j as int], field_data@[j as int], serializers@));
            }
            assert(entry_buildable(start, i, serializers@));
            assert forall|j2: int| 0 <= j2 < start.len() implies #[trigger] entry_grown(start[j2], field_data@[j2], serializers@) by {
                if j2 != j as int {
                    assert(field_data@[j2] == before[j2]);
                }
            }
            assert forall|k2: int| 0 <= k2 < k implies listed_field(field_data@, #[trigger] sm.fields_index@[k2], fields@[k2]) by {
                let j2 = (sm.fields_index@[k2] as usize) as int;
                if j2 < start.len() && j2 != j as int {
                    assert(field_data@[j2] == before[j2]);
                }
            }
        }
        fields.push(item);
        k += 1;
    }
    Ok(Serializer { name, fields })
}

} // verus!
