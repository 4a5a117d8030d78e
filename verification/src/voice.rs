use vstd::prelude::*;

verus! {

/// The four bytes of `x`, least significant first.
pub open spec fn le32_bytes(x: u32) -> Seq<u8> {
    seq![(x & 0xff) as u8, ((x >> 8) & 0xff) as u8, ((x >> 16) & 0xff) as u8, ((x >> 24) & 0xff) as u8]
}

/// The two bytes of `x`, least significant first.
pub open spec fn le16_bytes(x: u16) -> Seq<u8> {
    seq![(x & 0xff) as u8, ((x >> 8) & 0xff) as u8]
}

/// The 44-byte header of a PCM WAV file holding `data_size` bytes of
/// samples: the RIFF chunk, the format chunk (PCM, channels, rate, byte
/// rate, block size, bits per sample) and the head of the data chunk. Sums
/// and products wrap as machine words do.
pub open spec fn wav_header(num_channels: u16, sample_rate: u32, bits_per_sample: u16, data_size: u32) -> Seq<u8> {
    let byte_rate = (sample_rate.wrapping_mul(num_channels as u32).wrapping_mul(bits_per_sample as u32)) / 8;
    let block_align = num_channels.wrapping_mul(bits_per_sample) / 8;
    seq![82u8, 73u8, 70u8, 70u8] + le32_bytes(36u32.wrapping_add(data_size)) + seq![87u8, 65u8, 86u8, 69u8]
        + seq![102u8, 109u8, 116u8, 32u8] + le32_bytes(16) + le16_bytes(1) + le16_bytes(num_channels)
        + le32_bytes(sample_rate) + le32_bytes(byte_rate) + le16_bytes(block_align) + le16_bytes(bits_per_sample)
        + seq![100u8, 97u8, 116u8, 97u8] + le32_bytes(data_size)
}

/// Appends the four bytes of `x`, least significant first.
fn push_le32(v: &mut Vec<u8>, x: u32)
    ensures
        final(v)@ == old(v)@ + le32_bytes(x),
{
    v.push((x & 0xff) as u8);
    v.push(((x >> 8) & 0xff) as u8);
    v.push(((x >> 16) & 0xff) as u8);
    v.push(((x >> 24) & 0xff) as u8);
    assert(v@ =~= old(v)@ + le32_bytes(x));
}

/// Appends the two bytes of `x`, least significant first.
fn push_le16(v: &mut Vec<u8>, x: u16)
    ensures
        final(v)@ == old(v)@ + le16_bytes(x),
{
    v.push((x & 0xff) as u8);
    v.push(((x >> 8) & 0xff) as u8);
    assert(v@ =~= old(v)@ + le16_bytes(x));
}

/// Appends the bytes of a four-letter tag.
fn push_tag(v: &mut Vec<u8>, a: u8, b: u8, c: u8, d: u8)
    ensures
        final(v)@ == old(v)@ + seq![a, b, c, d],
{
    v.push(a);
    v.push(b);
    v.push(c);
    v.push(d);
    assert(v@ =~= old(v)@ + seq![a, b, c, d]);
}

/// The header of a PCM WAV file, as `wav_header` says.
pub fn generate_wav_header(num_channels: u16, sample_rate: u32, bits_per_sample: u16, data_size: u32) -> (r: Vec<u8>)
    ensures
        r@ == wav_header(num_channels, sample_rate, bits_per_sample, data_size),
        r@.len() == 44,
{
    let mut header: Vec<u8> = Vec::new();
    push_tag(&mut header, 82, 73, 70, 70);
    push_le32(&mut header, 36u32.wrapping_add(data_size));
    push_tag(&mut header, 87, 65, 86, 69);
    push_tag(&mut header, 102, 109, 116, 32);
    push_le32(&mut header, 16);
    push_le16(&mut header, 1);
    push_le16(&mut header, num_channels);
    push_le32(&mut header, sample_rate);
    push_le32(&mut header, sample_rate.wrapping_mul(num_channels as u32).wrapping_mul(bits_per_sample as u32) / 8);
    push_le16(&mut header, num_channels.wrapping_mul(bits_per_sample) / 8);
    push_le16(&mut header, bits_per_sample);
    push_tag(&mut header, 100, 97, 116, 97);
    push_le32(&mut header, data_size);
    assert(header@ =~= wav_header(num_channels, sample_rate, bits_per_sample, data_size));
    header
}

} // verus!
