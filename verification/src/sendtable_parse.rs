use vstd::prelude::*;
use crate::error::DemoParserError;
use crate::bitreader::{Bitreader, spec_bit_varint, bytes_at};
use crate::sendtables::{Decoder, Serializer};
use crate::field_builder::{ConstructorField, QfMapper};
use crate::serializer_msg::{FlattenedSerializerMsg, generate_field_data, generate_serializer, symbol_at, or_zero};
use crate::prop_controller::{PropController, controller_kept};
use crate::strings::{str_contains, contains_seq};
use crate::props::BUTTONS_BASEID;

verus! {

/// The bytes of the flattened-serializer message inside a send-tables
/// packet: a varint length, then that many bytes. `Err(None)` is a packet
/// shorter than its length says.
pub open spec fn spec_sendtable_payload(data: Seq<u8>) -> Result<Seq<u8>, Option<DemoParserError>> {
    match spec_bit_varint(data, 0) {
        Err(e) => Err(Some(e)),
        Ok((n, p)) => if p + 8 * (n as usize) <= 8 * data.len() {
            Ok(bytes_at(data, p, (n as usize) as nat))
        } else {
            Err(None)
        },
    }
}

/// The message bytes inside send-tables packet `data`. Too few bytes after
/// the length is a failed byte read.
pub fn sendtable_payload(data: &[u8]) -> (r: Result<Vec<u8>, DemoParserError>)
    ensures
        match spec_sendtable_payload(data@) {
            Ok(b) => r matches Ok(v) && v@ == b,
            Err(None) => r matches Err(DemoParserError::FailedByteRead(_)),
            Err(Some(e)) => r == Err::<Vec<u8>, DemoParserError>(e),
        },
{
    let mut bitreader = Bitreader::new(data);
    let n_bytes = bitreader.read_varint()?;
    bitreader.read_n_bytes(n_bytes as usize)
}

/// The serializers whose properties get ids: players, controllers, teams,
/// weapons, projectiles, grenades, the game rules and a few more, by name.
pub open spec fn tracked_serializer(name: Seq<char>) -> bool {
    contains_seq(name, "Player"@) || contains_seq(name, "Controller"@) || contains_seq(name, "Team"@)
        || contains_seq(name, "Weapon"@) || contains_seq(name, "AK"@) || contains_seq(name, "cell"@)
        || contains_seq(name, "vec"@) || contains_seq(name, "Projectile"@) || contains_seq(name, "Knife"@)
        || contains_seq(name, "CDEagle"@) || contains_seq(name, "Rules"@) || contains_seq(name, "C4"@)
        || contains_seq(name, "Grenade"@) || contains_seq(name, "Flash"@) || contains_seq(name, "Molo"@)
        || contains_seq(name, "Inc"@) || contains_seq(name, "Infer"@)
}

/// Whether the properties of serializer `name` get ids.
pub fn is_tracked_serializer(name: &str) -> (r: bool)
    ensures
        r == tracked_serializer(name@),
{
    str_contains(name, "Player") || str_contains(name, "Controller") || str_contains(name, "Team")
        || str_contains(name, "Weapon") || str_contains(name, "AK") || str_contains(name, "cell")
        || str_contains(name, "vec") || str_contains(name, "Projectile") || str_contains(name, "Knife")
        || str_contains(name, "CDEagle") || str_contains(name, "Rules") || str_contains(name, "C4")
        || str_contains(name, "Grenade") || str_contains(name, "Flash") || str_contains(name, "Molo")
        || str_contains(name, "Inc") || str_contains(name, "Infer")
}

/// Builds every serializer of the message, in order: the fields are
/// described first, then each serializer is built from them; the properties
/// of the tracked serializers get ids, and the custom properties are
/// described last. A later serializer of a name replaces an earlier one.
pub fn create_fields(
    msg: &FlattenedSerializerMsg,
    pc: &mut PropController,
    qf_map: &mut QfMapper,
    table: &[(String, Decoder)],
) -> (r: Result<Vec<Serializer>, DemoParserError>)
    requires
        old(qf_map).wf(),
        old(qf_map).idx + msg.fields@.len() < u32::MAX,
        old(pc).tables.buttons@.len() + BUTTONS_BASEID <= u32::MAX,
    ensures
        final(qf_map).wf(),
        r is Err ==> r == Err::<Vec<Serializer>, DemoParserError>(DemoParserError::MalformedMessage),
        r matches Ok(sers) ==> {
            &&& sers@.len() == msg.serializers@.len()
            &&& forall|k: int| 0 <= k < sers@.len() ==> {
                &&& #[trigger] sers@[k].name@ == symbol_at(msg.symbols@, or_zero(msg.serializers@[k].serializer_name_sym)).unwrap()
                &&& sers@[k].fields@.len() == msg.serializers@[k].fields_index@.len()
            }
            &&& controller_kept(*old(pc), *final(pc))
        },
{
    let mut fields: Vec<Option<ConstructorField>> = Vec::new();
    let mut i: usize = 0;
    while i < msg.fields.len()
        invariant
            i <= msg.fields@.len(),
            fields@.len() == i,
            qf_map.wf(),
            qf_map.idx <= old(qf_map).idx + i,
            old(qf_map).idx + msg.fields@.len() < u32::MAX,
        decreases msg.fields@.len() - i,
    {
        let f = match generate_field_data(&msg.fields[i], msg, table, qf_map) {
            Ok(f) => f,
            Err(_) => return Err(DemoParserError::MalformedMessage),
        };
        fields.push(Some(f));
        i += 1;
    }
    let ghost pc0 = *pc;
    let mut serializers: Vec<Serializer> = Vec::new();
    let mut k: usize = 0;
    while k < msg.serializers.len()
        invariant
            k <= msg.serializers@.len(),
            serializers@.len() == k,
            forall|j: int| 0 <= j < k ==> {
                &&& #[trigger] serializers@[j].name@ == symbol_at(msg.symbols@, or_zero(msg.serializers@[j].serializer_name_sym)).unwrap()
                &&& serializers@[j].fields@.len() == msg.serializers@[j].fields_index@.len()
            },
            controller_kept(pc0, *pc),
            pc0 == *old(pc),
            qf_map.wf(),
        decreases msg.serializers@.len() - k,
    {
        let mut ser = match generate_serializer(&msg.serializers[k], &mut fields, msg, serializers.as_slice()) {
            Ok(s) => s,
            Err(_) => return Err(DemoParserError::MalformedMessage),
        };
        if is_tracked_serializer(ser.name.as_str()) {
            pc.find_prop_name_paths(&mut ser);
        }
        serializers.push(ser);
        k += 1;
    }
    let ghost pc1 = *pc;
    pc.set_custom_propinfos();
    assert(controller_kept(pc1, *pc));
    Ok(serializers)
}

} // verus!
