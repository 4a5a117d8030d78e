use vstd::prelude::*;
use crate::error::DemoParserError;
use crate::field_path::FieldPath;
use crate::props::{
    MY_WEAPONS_OFFSET, WEAPON_SKIN_ID, ITEM_PURCHASE_COUNT, ITEM_PURCHASE_DEF_IDX, ITEM_PURCHASE_COST,
    ITEM_PURCHASE_HANDLE, ITEM_PURCHASE_NEW_DEF_IDX, FLATTENED_VEC_MAX_LEN,
};
use crate::strings::{str_eq, concat_str};

verus! {

/// How the value of a field is decoded from the entity stream.
#[derive(Debug, Clone, Copy, PartialEq, Eq, Structural)]
pub enum Decoder {
    QuantalizedFloatDecoder(u8),
    VectorNormalDecoder,
    VectorNoscaleDecoder,
    VectorFloatCoordDecoder,
    Unsigned64Decoder,
    CentityHandleDecoder,
    NoscaleDecoder,
    BooleanDecoder,
    StringDecoder,
    SignedDecoder,
    UnsignedDecoder,
    ComponentDecoder,
    FloatCoordDecoder,
    FloatSimulationTimeDecoder,
    Fixed64Decoder,
    QanglePitchYawDecoder,
    Qangle3Decoder,
    QangleVarDecoder,
    BaseDecoder,
    AmmoDecoder,
    QanglePresDecoder,
    GameModeRulesDecoder,
}

/// A named list of fields, the layout of one entity class.
#[derive(Debug)]
pub struct Serializer {
    pub name: String,
    pub fields: Vec<Field>,
}

/// What the entity decoder needs of a field: its decoder, whether its value
/// is kept and the id it is kept under.
#[derive(Debug, Clone, Copy, PartialEq, Eq, Structural)]
pub struct FieldInfo {
    pub decoder: Decoder,
    pub should_parse: bool,
    pub prop_id: u32,
}

/// The kind of a field in the send tables.
#[derive(Debug, Clone, Copy, PartialEq, Eq, Structural)]
pub enum FieldCategory {
    Pointer,
    Vector,
    Array,
    Value,
}

/// A field of a serializer: a fixed array, a growable vector, a nested
/// serializer, a pointer to one, a plain value, or nothing.
#[derive(Debug)]
pub enum Field {
    Array(ArrayField),
    Vector(VectorField),
    Serializer(SerializerField),
    Pointer(PointerField),
    Value(ValueField),
    Empty,
}

/// A fixed-length array of one kind of field.
#[derive(Debug)]
pub struct ArrayField {
    pub field_enum: Box<Field>,
    pub length: usize,
}

/// A growable vector of one kind of field.
#[derive(Debug)]
pub struct VectorField {
    pub field_enum: Box<Field>,
    pub decoder: Decoder,
}

/// A plain value.
#[derive(Debug)]
pub struct ValueField {
    pub decoder: Decoder,
    pub name: String,
    pub should_parse: bool,
    pub prop_id: u32,
    pub full_name: String,
}

/// A nested serializer.
#[derive(Debug)]
pub struct SerializerField {
    pub serializer: Serializer,
}

/// A pointer to a nested serializer.
#[derive(Debug)]
pub struct PointerField {
    pub decoder: Decoder,
    pub serializer: Serializer,
}

/// The type of a field as its name spells it: base type, whether it is a
/// pointer, and an array length when it has one.
#[derive(Debug, Clone)]
pub struct FieldType {
    pub base_type: String,
    pub pointer: bool,
    pub count: Option<i32>,
}

/// The field that `idx` selects inside `f`: arrays and vectors have one
/// element type, serializers and pointers select among their fields.
pub open spec fn spec_inner(f: Field, idx: int) -> Option<Field> {
    match f {
        Field::Array(a) => Some(*a.field_enum),
        Field::Vector(v) => Some(*v.field_enum),
        Field::Serializer(s) => if 0 <= idx < s.serializer.fields@.len() {
            Some(s.serializer.fields@[idx])
        } else {
            None
        },
        Field::Pointer(p) => if 0 <= idx < p.serializer.fields@.len() {
            Some(p.serializer.fields@[idx])
        } else {
            None
        },
        _ => None,
    }
}

/// A path entry used as an index, as `as usize` converts it.
pub open spec fn path_index(x: i32) -> int {
    (x as usize) as int
}

/// Follows entries `i..=last` of `path` down from field `f`.
pub open spec fn spec_walk(f: Field, path: Seq<i32>, i: int, last: int) -> Option<Field>
    decreases last + 1 - i,
{
    if i > last {
        Some(f)
    } else {
        match spec_inner(f, path_index(path[i])) {
            Some(g) => spec_walk(g, path, i + 1, last),
            None => None,
        }
    }
}

/// The field a path leads to in a serializer; paths longer than six entries
/// are not followed.
pub open spec fn spec_get_field(ser: Serializer, path: Seq<i32>, last: int) -> Option<Field> {
    if last > 5 {
        None
    } else if 0 <= path_index(path[0]) < ser.fields@.len() {
        spec_walk(ser.fields@[path_index(path[0])], path, 1, last)
    } else {
        None
    }
}

impl Field {
    /// The field that `idx` selects inside this one.
    pub fn get_inner(&self, idx: usize) -> (res: Result<&Field, DemoParserError>)
        ensures
            match spec_inner(*self, idx as int) {
                Some(g) => res.is_ok() && *res.unwrap() == g,
                None => res == Err::<&Field, DemoParserError>(DemoParserError::IllegalPathOp),
            },
    {
        match self {
            Field::Array(inner) => Ok(&*inner.field_enum),
            Field::Vector(inner) => Ok(&*inner.field_enum),
            Field::Serializer(inner) => {
                if idx < inner.serializer.fields.len() {
                    Ok(&inner.serializer.fields[idx])
                } else {
                    Err(DemoParserError::IllegalPathOp)
                }
            },
            Field::Pointer(inner) => {
                if idx < inner.serializer.fields.len() {
                    Ok(&inner.serializer.fields[idx])
                } else {
                    Err(DemoParserError::IllegalPathOp)
                }
            },
            _ => Err(DemoParserError::IllegalPathOp),
        }
    }

    /// The decoder of a value, vector or pointer field; other fields have
    /// none.
    pub fn get_decoder(&self) -> (res: Result<Decoder, DemoParserError>)
        ensures
            match *self {
                Field::Value(v) => res == Ok::<Decoder, DemoParserError>(v.decoder),
                Field::Vector(_) => res == Ok::<Decoder, DemoParserError>(Decoder::UnsignedDecoder),
                Field::Pointer(p) => res == Ok::<Decoder, DemoParserError>(p.decoder),
                _ => res == Err::<Decoder, DemoParserError>(DemoParserError::FieldNoDecoder),
            },
    {
        match self {
            Field::Value(inner) => Ok(inner.decoder),
            Field::Vector(_) => Ok(Decoder::UnsignedDecoder),
            Field::Pointer(inner) => Ok(inner.decoder),
            _ => Err(DemoParserError::FieldNoDecoder),
        }
    }
}

/// `after` is `before` with the field that `idx` selects replaced by `g`.
pub open spec fn inner_replaced(before: Field, after: Field, idx: int, g: Field) -> bool {
    match before {
        Field::Array(a) => after == Field::Array(ArrayField { field_enum: Box::new(g), length: a.length }),
        Field::Vector(v) => after == Field::Vector(VectorField { field_enum: Box::new(g), decoder: v.decoder }),
        Field::Serializer(s) => match after {
            Field::Serializer(t) => t.serializer.name == s.serializer.name
                && t.serializer.fields@ == s.serializer.fields@.update(idx, g),
            _ => false,
        },
        Field::Pointer(p) => match after {
            Field::Pointer(t) => t.decoder == p.decoder && t.serializer.name == p.serializer.name
                && t.serializer.fields@ == p.serializer.fields@.update(idx, g),
            _ => false,
        },
        _ => false,
    }
}

impl Field {
    /// The field that `idx` selects inside this one, to be changed in place.
    pub fn get_inner_mut(&mut self, idx: usize) -> (res: Result<&mut Field, DemoParserError>)
        ensures
            match spec_inner(*old(self), idx as int) {
                Some(g) => res is Ok && *res->Ok_0 == g
                    && inner_replaced(*old(self), *final(self), idx as int, *final(res->Ok_0)),
                None => res == Err::<&mut Field, DemoParserError>(DemoParserError::IllegalPathOp)
                    && *final(self) == *old(self),
            },
    {
        match self {
            Field::Array(inner) => Ok(&mut *inner.field_enum),
            Field::Vector(inner) => Ok(&mut *inner.field_enum),
            Field::Serializer(inner) => {
                if idx < inner.serializer.fields.len() {
                    Ok(&mut inner.serializer.fields[idx])
                } else {
                    Err(DemoParserError::IllegalPathOp)
                }
            },
            Field::Pointer(inner) => {
                if idx < inner.serializer.fields.len() {
                    Ok(&mut inner.serializer.fields[idx])
                } else {
                    Err(DemoParserError::IllegalPathOp)
                }
            },
            _ => Err(DemoParserError::IllegalPathOp),
        }
    }
}

impl Serializer {
    /// The field that a path leads to.
    pub fn get_field<'b>(&'b self, path: &FieldPath) -> (res: Result<&'b Field, DemoParserError>)
        ensures
            match spec_get_field(*self, path.path@, path.last as int) {
                Some(f) => res.is_ok() && *res.unwrap() == f,
                None => res == Err::<&Field, DemoParserError>(DemoParserError::IllegalPathOp),
            },
    {
        if path.last > 5 {
            return Err(DemoParserError::IllegalPathOp);
        }
        let first = path.path[0] as usize;
        if first >= self.fields.len() {
            return Err(DemoParserError::IllegalPathOp);
        }
        let mut field: &Field = &self.fields[first];
        let ghost target = spec_get_field(*self, path.path@, path.last as int);
        let mut idx: usize = 1;
        while idx <= path.last
            invariant
                path.last <= 5,
                1 <= idx <= path.last + 1,
                target == spec_get_field(*self, path.path@, path.last as int),
                target == spec_walk(*field, path.path@, idx as int, path.last as int),
            decreases path.last + 1 - idx,
        {
            field = field.get_inner(path.path[idx] as usize)?;
            idx += 1;
        }
        Ok(field)
    }
}

/// Wrapping `u32` addition.
pub open spec fn add32(a: int, b: int) -> u32 {
    ((a + b) % 0x1_0000_0000) as u32
}

/// A path entry as `as u32` converts it.
pub open spec fn entry32(x: i32) -> u32 {
    x as u32
}

/// Moves `id` to its slot when it lies in the flattened range that starts at
/// `base`: the slot is `base` plus the path's third entry.
pub open spec fn flatten_range(id: u32, base: u32, path: Seq<i32>) -> u32 {
    if base <= id && id < base + FLATTENED_VEC_MAX_LEN {
        add32(base as int, entry32(path[2]) as int)
    } else {
        id
    }
}

/// The prop id of a field after vector props are flattened: each weapon
/// slot, skin attribute and purchase entry gets an id of its own, from the
/// path entries that select it.
pub open spec fn flatten_prop_id(id: u32, path: Seq<i32>, last: int) -> u32 {
    let id1 = if id == MY_WEAPONS_OFFSET && last != 1 {
        add32(MY_WEAPONS_OFFSET as int + entry32(path[2]) as int, 1)
    } else {
        id
    };
    let id2 = if id1 == WEAPON_SKIN_ID { add32(WEAPON_SKIN_ID as int, entry32(path[1]) as int) } else { id1 };
    if path[1] != 1 {
        let a = flatten_range(id2, ITEM_PURCHASE_COUNT, path);
        let b = flatten_range(a, ITEM_PURCHASE_DEF_IDX, path);
        let c = flatten_range(b, ITEM_PURCHASE_COST, path);
        let d = flatten_range(c, ITEM_PURCHASE_HANDLE, path);
        flatten_range(d, ITEM_PURCHASE_NEW_DEF_IDX, path)
    } else {
        id2
    }
}

/// What the entity decoder needs of a field at `path`: for a value its own
/// decoder, flag and id; for a vector of values the vector's decoder with
/// the element's flag and id; others have nothing. The id is flattened.
pub open spec fn spec_field_info(f: Field, path: Seq<i32>, last: int) -> Option<FieldInfo> {
    let base: Option<FieldInfo> = match f {
        Field::Value(v) => Some(FieldInfo { decoder: v.decoder, should_parse: v.should_parse, prop_id: v.prop_id }),
        Field::Vector(v) => match *v.field_enum {
            Field::Value(inner) => Some(FieldInfo { decoder: v.decoder, should_parse: inner.should_parse, prop_id: inner.prop_id }),
            _ => None,
        },
        _ => None,
    };
    match base {
        Some(fi) => Some(FieldInfo { prop_id: flatten_prop_id(fi.prop_id, path, last), ..fi }),
        None => None,
    }
}

/// Moves `id` into its flattened slot as `flatten_range` says.
fn flatten_range_exec(id: u32, base: u32, entry: i32) -> (r: u32)
    requires
        base <= 600000000,
    ensures
        forall|path: Seq<i32>| path.len() == 7 && path[2] == entry ==> r == #[trigger] flatten_range(id, base, path),
{
    if id >= base && id < base + FLATTENED_VEC_MAX_LEN {
        base.wrapping_add(entry as u32)
    } else {
        id
    }
}

impl Field {
    /// What the entity decoder needs of this field at `path`, as
    /// `spec_field_info` says.
    pub fn get_field_info(&self, path: &FieldPath) -> (r: Option<FieldInfo>)
        ensures
            r == spec_field_info(*self, path.path@, path.last as int),
    {
        let mut fi = match self {
            Field::Value(v) => FieldInfo { decoder: v.decoder, should_parse: v.should_parse, prop_id: v.prop_id },
            Field::Vector(v) => match self.get_inner(0) {
                Ok(Field::Value(inner)) => FieldInfo { decoder: v.decoder, should_parse: inner.should_parse, prop_id: inner.prop_id },
                _ => return None,
            },
            _ => return None,
        };
        if fi.prop_id == MY_WEAPONS_OFFSET {
            if path.last != 1 {
                fi.prop_id = MY_WEAPONS_OFFSET.wrapping_add(path.path[2] as u32).wrapping_add(1);
            }
        }
        if fi.prop_id == WEAPON_SKIN_ID {
            fi.prop_id = WEAPON_SKIN_ID.wrapping_add(path.path[1] as u32);
        }
        if path.path[1] != 1 {
            fi.prop_id = flatten_range_exec(fi.prop_id, ITEM_PURCHASE_COUNT, path.path[2]);
            fi.prop_id = flatten_range_exec(fi.prop_id, ITEM_PURCHASE_DEF_IDX, path.path[2]);
            fi.prop_id = flatten_range_exec(fi.prop_id, ITEM_PURCHASE_COST, path.path[2]);
            fi.prop_id = flatten_range_exec(fi.prop_id, ITEM_PURCHASE_HANDLE, path.path[2]);
            fi.prop_id = flatten_range_exec(fi.prop_id, ITEM_PURCHASE_NEW_DEF_IDX, path.path[2]);
        }
        Some(fi)
    }
}


broadcast use vstd::std_specs::vec::axiom_vec_index_decreases;

/// `b` is a copy of `a`: the same shape, with equal names, decoders, flags,
/// ids and lengths all the way down.
pub open spec fn same_field(a: Field, b: Field) -> bool
    decreases a,
{
    match a {
        Field::Array(x) => match b {
            Field::Array(y) => x.length == y.length && same_field(*x.field_enum, *y.field_enum),
            _ => false,
        },
        Field::Vector(x) => match b {
            Field::Vector(y) => x.decoder == y.decoder && same_field(*x.field_enum, *y.field_enum),
            _ => false,
        },
        Field::Serializer(x) => match b {
            Field::Serializer(y) => {
                &&& x.serializer.name@ == y.serializer.name@
                &&& x.serializer.fields@.len() == y.serializer.fields@.len()
                &&& forall|i: int| 0 <= i < x.serializer.fields@.len() ==> same_field(
                    #[trigger] x.serializer.fields@[i],
                    y.serializer.fields@[i],
                )
            },
            _ => false,
        },
        Field::Pointer(x) => match b {
            Field::Pointer(y) => {
                &&& x.decoder == y.decoder
                &&& x.serializer.name@ == y.serializer.name@
                &&& x.serializer.fields@.len() == y.serializer.fields@.len()
                &&& forall|i: int| 0 <= i < x.serializer.fields@.len() ==> same_field(
                    #[trigger] x.serializer.fields@[i],
                    y.serializer.fields@[i],
                )
            },
            _ => false,
        },
        Field::Value(x) => match b {
            Field::Value(y) => {
                &&& x.decoder == y.decoder
                &&& x.name@ == y.name@
                &&& x.should_parse == y.should_parse
                &&& x.prop_id == y.prop_id
                &&& x.full_name@ == y.full_name@
            },
            _ => false,
        },
        Field::Empty => b is Empty,
    }
}

/// `b` holds copies of the fields of `a`, in order.
pub open spec fn same_fields(a: Seq<Field>, b: Seq<Field>) -> bool {
    a.len() == b.len() && forall|i: int| 0 <= i < a.len() ==> same_field(#[trigger] a[i], b[i])
}

/// `b` is a copy of serializer `a`.
pub open spec fn same_serializer(a: Serializer, b: Serializer) -> bool {
    a.name@ == b.name@ && same_fields(a.fields@, b.fields@)
}

impl Field {
    /// A copy of this field.
    pub fn clone_field(&self) -> (r: Field)
        ensures
            same_field(*self, r),
        decreases *self,
    {
        match self {
            Field::Array(a) => Field::Array(ArrayField { field_enum: Box::new((&*a.field_enum).clone_field()), length: a.length }),
            Field::Vector(v) => Field::Vector(VectorField { field_enum: Box::new((&*v.field_enum).clone_field()), decoder: v.decoder }),
            Field::Serializer(s) => Field::Serializer(SerializerField { serializer: Serializer { name: s.serializer.name.clone(), fields: clone_fields(&s.serializer.fields) } }),
            Field::Pointer(p) => Field::Pointer(PointerField { decoder: p.decoder, serializer: Serializer { name: p.serializer.name.clone(), fields: clone_fields(&p.serializer.fields) } }),
            Field::Value(v) => Field::Value(ValueField {
                decoder: v.decoder,
                name: v.name.clone(),
                should_parse: v.should_parse,
                prop_id: v.prop_id,
                full_name: v.full_name.clone(),
            }),
            Field::Empty => Field::Empty,
        }
    }
}

/// A copy of a list of fields.
pub fn clone_fields(fields: &Vec<Field>) -> (r: Vec<Field>)
    ensures
        same_fields(fields@, r@),
    decreases fields,
{
    let mut out: Vec<Field> = Vec::new();
    let mut i: usize = 0;
    while i < fields.len()
        invariant
            i <= fields@.len(),
            out@.len() == i,
            forall|j: int| 0 <= j < i ==> same_field(#[trigger] fields@[j], out@[j]),
        decreases fields@.len() - i,
    {
        proof {
            assert(decreases_to!(fields => fields[i as int]));
        }
        let c = fields[i].clone_field();
        out.push(c);
        i += 1;
    }
    out
}

impl Serializer {
    /// A copy of this serializer.
    pub fn clone_serializer(&self) -> (r: Serializer)
        ensures
            same_serializer(*self, r),
    {
        Serializer { name: self.name.clone(), fields: clone_fields(&self.fields) }
    }
}

/// The decoder of a pointer to serializer `name`: the game-mode rules have
/// their own, other pointers are read as a flag.
pub open spec fn pointer_decoder(name: Seq<char>) -> Decoder {
    if name == "CCSGameModeRules"@ { Decoder::GameModeRulesDecoder } else { Decoder::BooleanDecoder }
}

/// `v` is the plain value field that `ValueField::new` makes.
pub open spec fn is_new_value_field(v: ValueField, decoder: Decoder, name: Seq<char>) -> bool {
    &&& v.decoder == decoder
    &&& v.name@ == name
    &&& v.prop_id == 0
    &&& !v.should_parse
    &&& v.full_name@ == "None "@ + name
}

impl ArrayField {
    /// An array of `length` copies of `field`.
    pub fn new(field: Field, length: usize) -> (r: ArrayField)
        ensures
            *r.field_enum == field,
            r.length == length,
    {
        ArrayField { field_enum: Box::new(field), length }
    }
}

impl PointerField {
    /// A pointer to a copy of `serializer`.
    pub fn new(serializer: &Serializer) -> (r: PointerField)
        ensures
            r.decoder == pointer_decoder(serializer.name@),
            same_serializer(*serializer, r.serializer),
    {
        let decoder = if str_eq(serializer.name.as_str(), "CCSGameModeRules") {
            Decoder::GameModeRulesDecoder
        } else {
            Decoder::BooleanDecoder
        };
        PointerField { serializer: serializer.clone_serializer(), decoder }
    }
}

impl SerializerField {
    /// A copy of `serializer` nested as a field.
    pub fn new(serializer: &Serializer) -> (r: SerializerField)
        ensures
            same_serializer(*serializer, r.serializer),
    {
        SerializerField { serializer: serializer.clone_serializer() }
    }
}

impl ValueField {
    /// A plain value named `name`, not yet given an id nor marked for
    /// parsing; its full name is "None " and the name.
    pub fn new(decoder: Decoder, name: &str) -> (r: ValueField)
        ensures
            is_new_value_field(r, decoder, name@),
    {
        ValueField {
            decoder,
            name: name.to_owned(),
            prop_id: 0,
            should_parse: false,
            full_name: concat_str("None ", name),
        }
    }
}

impl VectorField {
    /// A vector of `field`, its length read as an unsigned number.
    pub fn new(field: Field) -> (r: VectorField)
        ensures
            *r.field_enum == field,
            r.decoder == Decoder::UnsignedDecoder,
    {
        VectorField { field_enum: Box::new(field), decoder: Decoder::UnsignedDecoder }
    }
}

} // verus!
