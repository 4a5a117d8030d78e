use vstd::prelude::*;
use crate::error::DemoParserError;
use crate::bitreader::{Bitreader, spec_u_bit_var, spec_bit_varint, spec_bit_varint_from, spec_nbits, bytes_at};

verus! {

/// Reading a number of variable bit length moves on by at least six bits,
/// and not past the end.
pub proof fn lemma_u_bit_var_advances(d: Seq<u8>, p: int)
    ensures
        spec_u_bit_var(d, p) matches Ok((v, q)) ==> p + 6 <= q <= 8 * d.len(),
{
}

/// Reading a varint moves on by at least eight bits, and not past the end.
pub proof fn lemma_bit_varint_advances(d: Seq<u8>, p: int, count: nat, acc: u32)
    requires
        count < 5,
    ensures
        spec_bit_varint_from(d, p, count, acc) matches Ok((v, q)) ==> p + 8 <= q <= 8 * d.len(),
    decreases 5 - count,
{
    match spec_nbits(d, p, 8) {
        Err(_) => {},
        Ok((b, p1)) => {
            let acc2 = acc | ((b & 127u32) << ((7 * count) as u32));
            if b & 0x80u32 != 0 && count + 1 < 5 {
                lemma_bit_varint_advances(d, p1, count + 1, acc2);
            }
        },
    }
}

/// The messages of a packet from bit `p` on: while more than eight bits
/// are left, a message type (a number of variable bit length), a size (a
/// varint) and that many bytes. `Err(None)` is a message longer than the
/// bytes left.
pub open spec fn spec_messages(d: Seq<u8>, p: int) -> Result<Seq<(i32, Seq<u8>)>, Option<DemoParserError>>
    decreases 8 * d.len() - p,
{
    if 8 * d.len() - p <= 8 || p < 0 {
        Ok(Seq::empty())
    } else {
        match spec_u_bit_var(d, p) {
            Err(e) => Err(Some(e)),
            Ok((t, p1)) => match spec_bit_varint(d, p1) {
                Err(e) => Err(Some(e)),
                Ok((n, p2)) => {
                    let end = p2 + 8 * (n as usize);
                    if end > 8 * d.len() {
                        Err(None)
                    } else {
                        proof {
                            lemma_u_bit_var_advances(d, p);
                            lemma_bit_varint_advances(d, p1, 0, 0);
                        }
                        match spec_messages(d, end) {
                            Err(e) => Err(e),
                            Ok(rest) => Ok(seq![(t as i32, bytes_at(d, p2, (n as usize) as nat))] + rest),
                        }
                    }
                },
            },
        }
    }
}

/// The messages of a packet's data, in order, as `spec_messages` says.
pub fn packet_messages(data: &[u8]) -> (r: Result<Vec<(i32, Vec<u8>)>, DemoParserError>)
    requires
        8 * data@.len() + 8 <= usize::MAX,
    ensures
        match spec_messages(data@, 0) {
            Ok(ms) => r matches Ok(v) && v@.map_values(|m: (i32, Vec<u8>)| (m.0, m.1@)) == ms,
            Err(Some(e)) => r == Err::<Vec<(i32, Vec<u8>)>, DemoParserError>(e),
            Err(None) => r matches Err(DemoParserError::FailedByteRead(_)),
        },
{
    let mut br = Bitreader::new(data);
    let ghost d = data@;
    let mut out: Vec<(i32, Vec<u8>)> = Vec::new();
    assert(out@.map_values(|m: (i32, Vec<u8>)| (m.0, m.1@)) =~= Seq::empty());
    loop
        invariant
            br.wf(),
            br.data() == d,
            d == data@,
            0 <= br.pos() <= 8 * d.len(),
            8 * d.len() + 8 <= usize::MAX,
            match spec_messages(d, 0) {
                Ok(ms) => spec_messages(d, br.pos()) matches Ok(rest)
                    && ms == out@.map_values(|m: (i32, Vec<u8>)| (m.0, m.1@)) + rest,
                Err(e) => spec_messages(d, br.pos()) == Err::<Seq<(i32, Seq<u8>)>, Option<DemoParserError>>(e),
            },
        decreases 8 * d.len() - br.pos(),
    {
        let left = match br.bits_remaining() {
            Some(n) => n,
            None => 0,
        };
        if left <= 8 {
            proof {
                if spec_messages(d, 0) is Ok {
                    assert(out@.map_values(|m: (i32, Vec<u8>)| (m.0, m.1@)) + Seq::empty() =~= out@.map_values(|m: (i32, Vec<u8>)| (m.0, m.1@)));
                }
            }
            return Ok(out);
        }
        let ghost p = br.pos();
        proof {
            lemma_u_bit_var_advances(d, p);
        }
        let t = br.read_u_bit_var()?;
        proof {
            lemma_bit_varint_advances(d, br.pos(), 0, 0);
        }
        let n = br.read_varint()?;
        let bytes = br.read_n_bytes(n as usize)?;
        let ghost before = out@.map_values(|m: (i32, Vec<u8>)| (m.0, m.1@));
        out.push((t as i32, bytes));
        proof {
            assert(out@.map_values(|m: (i32, Vec<u8>)| (m.0, m.1@)) =~= before.push((t as i32, bytes@)));
            if let Ok(ms) = spec_messages(d, 0) {
                let rest = spec_messages(d, br.pos())->Ok_0;
                assert(before + (seq![(t as i32, bytes@)] + rest) =~= before.push((t as i32, bytes@)) + rest);
            }
        }
    }
}

} // verus!
