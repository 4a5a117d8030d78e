use vstd::prelude::*;

verus! {

/// What `snap::raw::decompress_len` gives for `input`: the length of the
/// decompressed data, or the text of its error.
pub uninterp spec fn snappy_len(input: Seq<u8>) -> Result<usize, Seq<char>>;

/// What `snap::raw::Decoder::decompress` makes of `input` when the output is
/// large enough: the decompressed bytes, or the text of its error.
pub uninterp spec fn snappy_decompress(input: Seq<u8>) -> Result<Seq<u8>, Seq<char>>;

/// The length that a Snappy block's header gives: nothing for no bytes,
/// else a varint of at most five bytes, seven bits each, least significant
/// first, whose value fits in a `u32`; `None` where it does not.
pub open spec fn snappy_header(b: Seq<u8>) -> Option<nat> {
    if b.len() == 0 {
        Some(0)
    } else {
        snappy_header_from(b, 0, 0, 1)
    }
}

/// The rest of a Snappy header from byte `i` on, the bytes before it having
/// given `acc`, the next seven bits worth `w` each.
pub open spec fn snappy_header_from(b: Seq<u8>, i: nat, acc: nat, w: nat) -> Option<nat>
    decreases 5 - i,
{
    if i >= 5 || i >= b.len() {
        None
    } else if b[i as int] < 128 {
        let v: nat = (acc + b[i as int] * w) as nat;
        if v <= u32::MAX { Some(v) } else { None }
    } else {
        snappy_header_from(b, i + 1, acc + (b[i as int] - 128) as nat * w, w * 128)
    }
}

/// Calls `snap::raw::decompress_len`. The contract claims that the result
/// is the one named `snappy_len(input)`, the error turned into its display
/// text, and what snap's source shows of its success: it reads the header
/// as `snappy_header` says and gives that length.
#[verifier::external_body]
pub(crate) fn snap_decompress_len(input: &[u8]) -> (r: Result<usize, String>)
    ensures
        r is Ok <==> snappy_header(input@) is Some,
        r matches Ok(n) ==> snappy_header(input@) == Some(n as nat),
        match snappy_len(input@) {
            Ok(n) => r == Ok::<usize, String>(n),
            Err(t) => r matches Err(s) && s@ == t,
        },
{
    match snap::raw::decompress_len(input) {
        Ok(n) => Ok(n),
        Err(e) => Err(format!("{}", e)),
    }
}

/// Calls `snap::raw::Decoder::decompress` with `output` as the buffer, which
/// must hold at least `decompress_len(input)` bytes. The contract claims what
/// snap's source shows: the length of the buffer is kept; on success exactly
/// `decompress_len(input)` bytes, the ones named `snappy_decompress(input)`,
/// are written to its front, the rest is untouched, and their number is
/// returned; on failure the error text is the named one and nothing is said
/// of the buffer.
#[verifier::external_body]
pub(crate) fn snap_decompress(input: &[u8], output: &mut Vec<u8>) -> (r: Result<usize, String>)
    requires
        snappy_len(input@) matches Ok(n) && n <= old(output)@.len(),
    ensures
        final(output)@.len() == old(output)@.len(),
        match snappy_decompress(input@) {
            Ok(b) => {
                &&& b.len() <= old(output)@.len()
                &&& r == Ok::<usize, String>(b.len() as usize)
                &&& snappy_len(input@) == Ok::<usize, Seq<char>>(b.len() as usize)
                &&& final(output)@.take(b.len() as int) == b
                &&& final(output)@.skip(b.len() as int) == old(output)@.skip(b.len() as int)
            },
            Err(t) => r matches Err(s) && s@ == t,
        },
{
    match snap::raw::Decoder::new().decompress(input, output.as_mut_slice()) {
        Ok(n) => Ok(n),
        Err(e) => Err(format!("{}", e)),
    }
}

/// Calls `snap::raw::Decoder::decompress_vec`, which in snap's source first
/// asks `decompress_len` and then decompresses into a buffer of that size.
/// The contract claims exactly that, over the two names above.
#[verifier::external_body]
pub(crate) fn snap_decompress_vec(input: &[u8]) -> (r: Result<Vec<u8>, String>)
    ensures
        match snappy_len(input@) {
            Err(t) => r matches Err(s) && s@ == t,
            Ok(n) => match snappy_decompress(input@) {
                Ok(b) => r is Ok && r.unwrap()@ == b,
                Err(t) => r matches Err(s) && s@ == t,
            },
        },
{
    match snap::raw::Decoder::new().decompress_vec(input) {
        Ok(v) => Ok(v),
        Err(e) => Err(format!("{}", e)),
    }
}

} // verus!
