use vstd::prelude::*;
use crate::error::DemoParserError;
use crate::sendtables::{
    Decoder, FieldCategory, FieldType, Field, Serializer, ArrayField, VectorField, ValueField,
    SerializerField, PointerField, same_serializer, pointer_decoder, is_new_value_field,
};
use crate::strings::str_eq;
use crate::numtext::{parse_i32, spec_parse_i32};

verus! {

/// The parameters a quantized-float decoder is built from; the two bounds
/// are the bit patterns of `f32` values.
#[derive(Debug, Clone, Copy, PartialEq, Eq, Structural)]
pub struct QfParams {
    pub bitcount: u32,
    pub encode_flags: i32,
    pub low_value_bits: u32,
    pub high_value_bits: u32,
}

/// The quantized-float decoders met so far; decoder `i` is built from
/// `map[i]`, and `idx` is the number the next one gets.
#[derive(Debug)]
pub struct QfMapper {
    pub idx: u32,
    pub map: Vec<QfParams>,
}

impl QfMapper {
    /// Every number below `idx` has its parameters.
    pub open spec fn wf(&self) -> bool {
        self.map@.len() == self.idx
    }

    /// A mapper with no decoders yet.
    pub fn new() -> (r: QfMapper)
        ensures
            r.wf(),
            r.idx == 0,
    {
        QfMapper { idx: 0, map: Vec::new() }
    }
}

/// A field of the send tables as the message describes it, with what is
/// worked out of it: its type, category and decoder, and the field built
/// from it once that is done. Float bounds are kept as `f32` bit patterns.
#[derive(Debug)]
pub struct ConstructorField {
    pub var_name: String,
    pub var_type: String,
    pub send_node: String,
    pub serializer_name: Option<String>,
    pub encoder: String,
    pub encode_flags: i32,
    pub bitcount: i32,
    pub low_value_bits: u32,
    pub high_value_bits: u32,
    pub field_type: FieldType,
    pub decoder: Decoder,
    pub category: FieldCategory,
    pub field_enum_type: Option<Field>,
    pub serializer: Option<Serializer>,
    pub base_decoder: Option<Decoder>,
    pub child_decoder: Option<Decoder>,
}

/// The decoder a float field gets when it does not need a quantized one.
pub open spec fn float_choice(f: ConstructorField) -> Option<Decoder> {
    if f.encoder@ == "coord"@ {
        Some(Decoder::FloatCoordDecoder)
    } else if f.var_name@ == "m_flSimulationTime"@ || f.var_name@ == "m_flAnimTime"@
        || f.encoder@ == "m_flSimulationTime"@ {
        Some(Decoder::FloatSimulationTimeDecoder)
    } else if f.bitcount <= 0 || f.bitcount >= 32 {
        Some(Decoder::NoscaleDecoder)
    } else {
        None
    }
}

/// The parameters of the quantized float that field `f` needs.
pub open spec fn qf_params(f: ConstructorField) -> QfParams {
    QfParams {
        bitcount: f.bitcount as u32,
        encode_flags: f.encode_flags,
        low_value_bits: f.low_value_bits,
        high_value_bits: f.high_value_bits,
    }
}

/// The decoder of a float field when the next quantized float is numbered
/// `next`, and whether it takes that number.
pub open spec fn float_decoder(f: ConstructorField, next: u32) -> (Decoder, bool) {
    match float_choice(f) {
        Some(d) => (d, false),
        None => (Decoder::QuantalizedFloatDecoder(next as u8), true),
    }
}

/// The decoder of a vector of `n` floats, and whether it takes a quantized
/// float's number.
pub open spec fn vector_decoder(f: ConstructorField, n: u32, next: u32) -> (Decoder, bool) {
    if n == 3 && f.encoder@ == "normal"@ {
        (Decoder::VectorNormalDecoder, false)
    } else {
        let (d, took) = float_decoder(f, next);
        let v = match d {
            Decoder::NoscaleDecoder => Decoder::VectorNoscaleDecoder,
            Decoder::FloatCoordDecoder => Decoder::VectorFloatCoordDecoder,
            _ => Decoder::VectorNormalDecoder,
        };
        (v, took)
    }
}

/// The decoder of a 64-bit unsigned field.
pub open spec fn uint_decoder(f: ConstructorField) -> Decoder {
    if f.encoder@ == "fixed64"@ { Decoder::Fixed64Decoder } else { Decoder::Unsigned64Decoder }
}

/// The decoder of an angle field.
pub open spec fn qangle_decoder(f: ConstructorField) -> Decoder {
    if f.var_name@ == "m_angEyeAngles"@ {
        Decoder::QanglePitchYawDecoder
    } else if f.bitcount != 0 {
        Decoder::Qangle3Decoder
    } else {
        Decoder::QangleVarDecoder
    }
}

/// The decoder the table gives type `name`: the first entry for it.
pub open spec fn table_decoder(table: Seq<(String, Decoder)>, name: Seq<char>) -> Option<Decoder>
    decreases table.len(),
{
    if table.len() == 0 {
        None
    } else if table[0].0@ == name {
        Some(table[0].1)
    } else {
        table_decoder(table.drop_first(), name)
    }
}

/// The decoder of field `f`, given the table of decoders by base type and
/// the number of the next quantized float, and whether it takes that number.
pub open spec fn spec_find_decoder(f: ConstructorField, table: Seq<(String, Decoder)>, next: u32) -> (Decoder, bool) {
    let b = f.field_type.base_type@;
    if f.var_name@ == "m_iClip1"@ {
        (Decoder::AmmoDecoder, false)
    } else {
        match table_decoder(table, b) {
            Some(d) => (d, false),
            None => if b == "float32"@ {
                float_decoder(f, next)
            } else if b == "Vector"@ {
                vector_decoder(f, 3, next)
            } else if b == "Vector2D"@ {
                vector_decoder(f, 2, next)
            } else if b == "Vector4D"@ {
                vector_decoder(f, 4, next)
            } else if b == "uint64"@ {
                (uint_decoder(f), false)
            } else if b == "QAngle"@ {
                (qangle_decoder(f), false)
            } else if b == "CHandle"@ {
                (Decoder::UnsignedDecoder, false)
            } else if b == "CNetworkedQuantizedFloat"@ {
                float_decoder(f, next)
            } else if b == "CStrongHandle"@ || b == "CEntityHandle"@ {
                (uint_decoder(f), false)
            } else {
                (Decoder::UnsignedDecoder, false)
            },
        }
    }
}

/// `after` is `before` with the quantized float of `p` added when `took`,
/// and unchanged otherwise.
pub open spec fn qf_registered(before: QfMapper, after: QfMapper, took: bool, p: QfParams) -> bool {
    if took {
        after.idx == before.idx + 1 && after.map@ == before.map@.push(p)
    } else {
        after.idx == before.idx && after.map@ == before.map@
    }
}

/// The decoder the table gives type `name`.
pub fn lookup_decoder(table: &[(String, Decoder)], name: &str) -> (r: Option<Decoder>)
    ensures
        r == table_decoder(table@, name@),
{
    let mut i: usize = 0;
    assert(table@.skip(0) =~= table@);
    while i < table.len()
        invariant
            i <= table@.len(),
            table_decoder(table@, name@) == table_decoder(table@.skip(i as int), name@),
        decreases table@.len() - i,
    {
        assert(table@.skip(i as int)[0] == table@[i as int]);
        if str_eq(table[i].0.as_str(), name) {
            return Some(table[i].1);
        }
        assert(table@.skip(i as int).drop_first() =~= table@.skip(i + 1));
        i += 1;
    }
    assert(table@.skip(i as int).len() == 0);
    None
}

impl ConstructorField {
    /// The decoder of this field, as `spec_find_decoder` says; a quantized
    /// float it needs is added to `qf_map`.
    pub fn find_decoder(&self, table: &[(String, Decoder)], qf_map: &mut QfMapper) -> (r: Decoder)
        requires
            old(qf_map).wf(),
            old(qf_map).idx < u32::MAX,
        ensures
            final(qf_map).wf(),
            r == spec_find_decoder(*self, table@, old(qf_map).idx).0,
            qf_registered(*old(qf_map), *final(qf_map), spec_find_decoder(*self, table@, old(qf_map).idx).1, qf_params(*self)),
    {
        if str_eq(self.var_name.as_str(), "m_iClip1") {
            return Decoder::AmmoDecoder;
        }
        match lookup_decoder(table, self.field_type.base_type.as_str()) {
            Some(decoder) => decoder,
            None => {
                let b = self.field_type.base_type.as_str();
                if str_eq(b, "float32") {
                    self.find_float_decoder(qf_map)
                } else if str_eq(b, "Vector") {
                    self.find_vector_type(3, qf_map)
                } else if str_eq(b, "Vector2D") {
                    self.find_vector_type(2, qf_map)
                } else if str_eq(b, "Vector4D") {
                    self.find_vector_type(4, qf_map)
                } else if str_eq(b, "uint64") {
                    self.find_uint_decoder()
                } else if str_eq(b, "QAngle") {
                    self.find_qangle_decoder()
                } else if str_eq(b, "CHandle") {
                    Decoder::UnsignedDecoder
                } else if str_eq(b, "CNetworkedQuantizedFloat") {
                    self.find_float_decoder(qf_map)
                } else if str_eq(b, "CStrongHandle") || str_eq(b, "CEntityHandle") {
                    self.find_uint_decoder()
                } else {
                    Decoder::UnsignedDecoder
                }
            },
        }
    }

    /// The decoder of an angle field.
    pub fn find_qangle_decoder(&self) -> (r: Decoder)
        ensures
            r == qangle_decoder(*self),
    {
        if str_eq(self.var_name.as_str(), "m_angEyeAngles") {
            Decoder::QanglePitchYawDecoder
        } else if self.bitcount != 0 {
            Decoder::Qangle3Decoder
        } else {
            Decoder::QangleVarDecoder
        }
    }

    /// The decoder of a float field; a quantized one is numbered with the
    /// mapper's next number and its parameters are kept there.
    pub fn find_float_decoder(&self, qf_map: &mut QfMapper) -> (r: Decoder)
        requires
            old(qf_map).wf(),
            old(qf_map).idx < u32::MAX,
        ensures
            final(qf_map).wf(),
            r == float_decoder(*self, old(qf_map).idx).0,
            qf_registered(*old(qf_map), *final(qf_map), float_decoder(*self, old(qf_map).idx).1, qf_params(*self)),
    {
        if str_eq(self.encoder.as_str(), "coord") {
            return Decoder::FloatCoordDecoder;
        }
        if str_eq(self.var_name.as_str(), "m_flSimulationTime") || str_eq(self.var_name.as_str(), "m_flAnimTime")
            || str_eq(self.encoder.as_str(), "m_flSimulationTime") {
            return Decoder::FloatSimulationTimeDecoder;
        }
        if self.bitcount <= 0 || self.bitcount >= 32 {
            return Decoder::NoscaleDecoder;
        }
        let qf = QfParams {
            bitcount: self.bitcount as u32,
            encode_flags: self.encode_flags,
            low_value_bits: self.low_value_bits,
            high_value_bits: self.high_value_bits,
        };
        let idx = qf_map.idx;
        qf_map.map.push(qf);
        qf_map.idx += 1;
        Decoder::QuantalizedFloatDecoder(idx as u8)
    }

    /// The decoder of a 64-bit unsigned field.
    pub fn find_uint_decoder(&self) -> (r: Decoder)
        ensures
            r == uint_decoder(*self),
    {
        if str_eq(self.encoder.as_str(), "fixed64") {
            Decoder::Fixed64Decoder
        } else {
            Decoder::Unsigned64Decoder
        }
    }

    /// The decoder of a vector of `n` floats.
    pub fn find_vector_type(&self, n: u32, qf_map: &mut QfMapper) -> (r: Decoder)
        requires
            old(qf_map).wf(),
            old(qf_map).idx < u32::MAX,
        ensures
            final(qf_map).wf(),
            r == vector_decoder(*self, n, old(qf_map).idx).0,
            qf_registered(*old(qf_map), *final(qf_map), vector_decoder(*self, n, old(qf_map).idx).1, qf_params(*self)),
    {
        if n == 3 && str_eq(self.encoder.as_str(), "normal") {
            return Decoder::VectorNormalDecoder;
        }
        let float_type = self.find_float_decoder(qf_map);
        match float_type {
            Decoder::NoscaleDecoder => Decoder::VectorNoscaleDecoder,
            Decoder::FloatCoordDecoder => Decoder::VectorFloatCoordDecoder,
            _ => Decoder::VectorNormalDecoder,
        }
    }
}

/// The types that are always read through a pointer.
pub open spec fn pointer_type_name(s: Seq<char>) -> bool {
    s == "CBodyComponent"@ || s == "CLightComponent"@ || s == "CPhysicsComponent"@
        || s == "CRenderComponent"@ || s == "CPlayerLocalData"@
}

/// Whether `s` names a type that is always read through a pointer.
pub fn is_pointer_type_name(s: &str) -> (r: bool)
    ensures
        r == pointer_type_name(s@),
{
    str_eq(s, "CBodyComponent") || str_eq(s, "CLightComponent") || str_eq(s, "CPhysicsComponent")
        || str_eq(s, "CRenderComponent") || str_eq(s, "CPlayerLocalData")
}

/// The field is a pointer: its type says so, or its base type is one of
/// the pointer types.
pub open spec fn spec_is_pointer(f: ConstructorField) -> bool {
    f.field_type.pointer || pointer_type_name(f.field_type.base_type@)
}

/// The field is a vector: it names a serializer, or its base type is a
/// vector type.
pub open spec fn spec_is_vector(f: ConstructorField) -> bool {
    f.serializer_name is Some || f.field_type.base_type@ == "CUtlVector"@
        || f.field_type.base_type@ == "CNetworkUtlVectorBase"@
}

/// The field is an array: its type has a length and it is not a string.
pub open spec fn spec_is_array(f: ConstructorField) -> bool {
    f.field_type.count is Some && f.field_type.base_type@ != "char"@
}

/// The category of a field: pointer before vector before array.
pub open spec fn spec_category(f: ConstructorField) -> FieldCategory {
    if spec_is_pointer(f) {
        FieldCategory::Pointer
    } else if spec_is_vector(f) {
        FieldCategory::Vector
    } else if spec_is_array(f) {
        FieldCategory::Array
    } else {
        FieldCategory::Value
    }
}

/// The category of a field.
pub fn find_category(field: &ConstructorField) -> (r: FieldCategory)
    ensures
        r == spec_category(*field),
{
    if is_pointer(field) {
        FieldCategory::Pointer
    } else if is_vector(field) {
        FieldCategory::Vector
    } else if is_array(field) {
        FieldCategory::Array
    } else {
        FieldCategory::Value
    }
}

/// Whether the field is a pointer.
pub fn is_pointer(field: &ConstructorField) -> (r: bool)
    ensures
        r == spec_is_pointer(*field),
{
    field.field_type.pointer || is_pointer_type_name(field.field_type.base_type.as_str())
}

/// Whether the field is a vector.
pub fn is_vector(field: &ConstructorField) -> (r: bool)
    ensures
        r == spec_is_vector(*field),
{
    field.serializer_name.is_some() || str_eq(field.field_type.base_type.as_str(), "CUtlVector")
        || str_eq(field.field_type.base_type.as_str(), "CNetworkUtlVectorBase")
}

/// Whether the field is an array.
pub fn is_array(field: &ConstructorField) -> (r: bool)
    ensures
        r == spec_is_array(*field),
{
    field.field_type.count.is_some() && !str_eq(field.field_type.base_type.as_str(), "char")
}

/// The pattern a field's type name is read with: a base type, an optional
/// generic argument, an optional `*` and an optional `[count]`.
pub const FIELD_TYPE_PATTERN: &'static str = r"([^<\[\*]+)(<\s(.*)\s>)?(\*)?(\[(.*)\])?";

/// The groups of the first match of regular expression `pattern` in `text`,
/// group 0 being the whole match and an unmatched group `None`; `None` when
/// nothing matches or the pattern is not a valid expression.
pub uninterp spec fn regex_captures(pattern: Seq<char>, text: Seq<char>) -> Option<Seq<Option<Seq<char>>>>;

/// Runs `regex::Regex::captures` of `pattern` on `text`: its result is
/// `regex_captures` of the two, each group as its text. What the engine
/// matches is not restated here.
#[verifier::external_body]
fn capture_groups(pattern: &str, text: &str) -> (r: Option<Vec<Option<String>>>)
    ensures
        regex_captures(pattern@, text@) == (match r {
            Some(g) => Some(g@.map_values(|x: Option<String>| match x { Some(t) => Some(t@), None => None })),
            None => None,
        }),
{
    match regex::Regex::new(pattern) {
        Ok(re) => re.captures(text).map(|c| c.iter().map(|m| m.map(|m| m.as_str().to_string())).collect()),
        Err(_) => None,
    }
}

/// Group `i` of a match, `None` where the match has no such group.
pub open spec fn group_at(groups: Seq<Option<String>>, i: int) -> Option<Seq<char>> {
    if 0 <= i < groups.len() {
        match groups[i] {
            Some(t) => Some(t@),
            None => None,
        }
    } else {
        None
    }
}

/// The type that the match `groups` of type name `name` describes: group 1
/// is the base type, group 4 the `*` of a pointer, group 6 the count, read
/// as a number and as 0 where it is none.
pub open spec fn type_from_groups(name: Seq<char>, groups: Seq<Option<String>>, t: FieldType) -> bool {
    &&& t.base_type@ == (match group_at(groups, 1) { Some(b) => b, None => Seq::<char>::empty() })
    &&& t.pointer == (pointer_type_name(name) || group_at(groups, 4) == Some("*"@))
    &&& t.count == (match group_at(groups, 6) {
        Some(c) => Some(match spec_parse_i32(c) { Some(v) => v, None => 0i32 }),
        None => None,
    })
}

/// The type of a field from the match of its type name against
/// `FIELD_TYPE_PATTERN`: no match is a malformed message.
pub fn field_type_from_groups(name: &str, groups: Option<Vec<Option<String>>>) -> (r: Result<FieldType, DemoParserError>)
    ensures
        match groups {
            None => r == Err::<FieldType, DemoParserError>(DemoParserError::MalformedMessage),
            Some(g) => r is Ok && type_from_groups(name@, g@, r->Ok_0),
        },
{
    let g = match groups {
        Some(g) => g,
        None => return Err(DemoParserError::MalformedMessage),
    };
    let base_type = if g.len() > 1 {
        match &g[1] {
            Some(b) => b.clone(),
            None => String::new(),
        }
    } else {
        String::new()
    };
    let star = if g.len() > 4 {
        match &g[4] {
            Some(p) => str_eq(p.as_str(), "*"),
            None => false,
        }
    } else {
        false
    };
    let pointer = is_pointer_type_name(name) || star;
    let count = if g.len() > 6 {
        match &g[6] {
            Some(c) => Some(match parse_i32(c.as_str()) {
                Some(v) => v,
                None => 0,
            }),
            None => None,
        }
    } else {
        None
    };
    Ok(FieldType { base_type, pointer, count })
}

/// The type of a field from its type name, read with `FIELD_TYPE_PATTERN`.
pub fn find_field_type(name: &str) -> (r: Result<FieldType, DemoParserError>)
    ensures
        match regex_captures(FIELD_TYPE_PATTERN@, name@) {
            None => r == Err::<FieldType, DemoParserError>(DemoParserError::MalformedMessage),
            Some(g) => r is Ok && exists|v: Seq<Option<String>>|
                v.map_values(|x: Option<String>| match x { Some(t) => Some(t@), None => None }) == g
                && #[trigger] type_from_groups(name@, v, r->Ok_0),
        },
{
    let groups = capture_groups(FIELD_TYPE_PATTERN, name);
    let ghost gs = groups;
    let r = field_type_from_groups(name, groups);
    proof {
        if let Some(g) = gs {
            assert(type_from_groups(name@, g@, r->Ok_0));
        }
    }
    r
}

/// The index of the last serializer named `name`: later serializers of a
/// name replace earlier ones.
pub open spec fn last_named(sers: Seq<Serializer>, name: Seq<char>) -> Option<int>
    decreases sers.len(),
{
    if sers.len() == 0 {
        None
    } else if sers.last().name@ == name {
        Some(sers.len() - 1)
    } else {
        last_named(sers.drop_last(), name)
    }
}

/// The index of the last serializer named `name`.
pub fn find_serializer(sers: &[Serializer], name: &str) -> (r: Option<usize>)
    ensures
        r matches Some(i) ==> last_named(sers@, name@) == Some(i as int) && i < sers@.len(),
        r is None ==> last_named(sers@, name@) is None,
{
    let mut i: usize = sers.len();
    assert(sers@.take(i as int) =~= sers@);
    while i > 0
        invariant
            i <= sers@.len(),
            last_named(sers@, name@) == last_named(sers@.take(i as int), name@),
        decreases i,
    {
        assert(sers@.take(i as int).last() == sers@[i - 1]);
        if str_eq(sers[i - 1].name.as_str(), name) {
            return Some(i - 1);
        }
        assert(sers@.take(i as int).drop_last() =~= sers@.take(i - 1));
        i -= 1;
    }
    None
}

/// A field can be built from `fd`: a serializer it names is known.
pub open spec fn can_create_field(fd: ConstructorField, sers: Seq<Serializer>) -> bool {
    fd.serializer_name matches Some(n) ==> last_named(sers, n@) is Some
}

/// `b` is what `fd` holds before any array or vector around it: the
/// serializer it names, nested or behind a pointer, or else a plain value.
pub open spec fn created_base(fd: ConstructorField, sers: Seq<Serializer>, b: Field) -> bool {
    match fd.serializer_name {
        Some(n) => {
            let s = sers[last_named(sers, n@).unwrap()];
            if fd.category == FieldCategory::Pointer {
                b matches Field::Pointer(p) && p.decoder == pointer_decoder(s.name@)
                    && same_serializer(s, p.serializer)
            } else {
                b matches Field::Serializer(x) && same_serializer(s, x.serializer)
            }
        },
        None => b matches Field::Value(v) && is_new_value_field(v, fd.decoder, fd.var_name@),
    }
}

/// `f` is the field built from `fd`: arrays hold as many elements as the
/// type's count (0 without one), vectors are read with an unsigned length.
pub open spec fn created_field(fd: ConstructorField, sers: Seq<Serializer>, f: Field) -> bool {
    match fd.category {
        FieldCategory::Array => f matches Field::Array(a)
            && a.length == (match fd.field_type.count { Some(c) => c, None => 0i32 }) as usize
            && created_base(fd, sers, *a.field_enum),
        FieldCategory::Vector => f matches Field::Vector(v) && v.decoder == Decoder::UnsignedDecoder
            && created_base(fd, sers, *v.field_enum),
        _ => created_base(fd, sers, f),
    }
}

/// Builds the field `fd` describes; the serializers it may name are
/// `serializers`.
pub fn create_field(fd: &ConstructorField, serializers: &[Serializer]) -> (r: Result<Field, DemoParserError>)
    ensures
        can_create_field(*fd, serializers@) ==> r is Ok && created_field(*fd, serializers@, r->Ok_0),
        !can_create_field(*fd, serializers@) ==> r == Err::<Field, DemoParserError>(DemoParserError::MalformedMessage),
{
    let field = match &fd.serializer_name {
        Some(name) => {
            let i = match find_serializer(serializers, name.as_str()) {
                Some(i) => i,
                None => return Err(DemoParserError::MalformedMessage),
            };
            let serializer = &serializers[i];
            if fd.category == FieldCategory::Pointer {
                Field::Pointer(PointerField::new(serializer))
            } else {
                Field::Serializer(SerializerField::new(serializer))
            }
        },
        None => Field::Value(ValueField::new(fd.decoder, fd.var_name.as_str())),
    };
    match fd.category {
        FieldCategory::Array => {
            let n: i32 = match fd.field_type.count {
                Some(c) => c,
                None => 0,
            };
            Ok(Field::Array(ArrayField::new(field, n as usize)))
        },
        FieldCategory::Vector => Ok(Field::Vector(VectorField::new(field))),
        _ => Ok(field),
    }
}

} // verus!
