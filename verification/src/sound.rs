//! The header of the beeps' sound data: a mono 16-bit PCM WAV file.  The
//! samples themselves are floating-point sine values and are made by the
//! caller.
use vstd::prelude::*;

verus! {

/// `x` as two little-endian bytes.
pub open spec fn le16(x: u16) -> Seq<u8> {
    seq![(x % 256) as u8, (x / 256) as u8]
}

/// `x` as four little-endian bytes.
pub open spec fn le32(x: u32) -> Seq<u8> {
    seq![(x % 256) as u8, ((x / 256) % 256) as u8, ((x / 65536) % 256) as u8, (x / 16777216) as u8]
}

/// The 44 header bytes of a mono 16-bit PCM WAV file whose sample data
/// takes `data_size` bytes: the `RIFF` size, the `fmt ` chunk (PCM, one
/// channel, the sample rate, two bytes a sample) and the `data` chunk's size.
pub open spec fn wav_header_bytes(data_size: u32, sample_rate: u32) -> Seq<u8> {
    seq![82u8, 73, 70, 70] + le32((36 + data_size) as u32) + seq![87u8, 65, 86, 69] + seq![102u8, 109, 116, 32]
        + le32(16) + le16(1) + le16(1) + le32(sample_rate) + le32((sample_rate * 2) as u32) + le16(2) + le16(16)
        + seq![100u8, 97, 116, 97] + le32(data_size)
}

fn push_le16(v: &mut Vec<u8>, x: u16)
    ensures
        final(v)@ == old(v)@ + le16(x),
{
    v.push((x % 256) as u8);
    v.push((x / 256) as u8);
}

fn push_le32(v: &mut Vec<u8>, x: u32)
    ensures
        final(v)@ == old(v)@ + le32(x),
{
    v.push((x % 256) as u8);
    v.push(((x / 256) % 256) as u8);
    v.push(((x / 65536) % 256) as u8);
    v.push((x / 16777216) as u8);
}

fn push_tag(v: &mut Vec<u8>, a: u8, b: u8, c: u8, d: u8)
    ensures
        final(v)@ == old(v)@ + seq![a, b, c, d],
{
    v.push(a);
    v.push(b);
    v.push(c);
    v.push(d);
}

/// The header of a beep of `num_samples` 16-bit samples at `sample_rate`.
pub fn wav_header(num_samples: usize, sample_rate: u32) -> (h: Vec<u8>)
    requires
        2 * num_samples + 36 <= u32::MAX,
        2 * sample_rate <= u32::MAX,
    ensures
        h@ == wav_header_bytes((2 * num_samples) as u32, sample_rate),
        h@.len() == 44,
{
    let data_size = (num_samples * 2) as u32;
    assert(data_size == (2 * num_samples) as u32);
    let riff = 36 + data_size;
    let byte_rate = sample_rate * 2;
    let mut wav: Vec<u8> = Vec::new();
    push_tag(&mut wav, 82, 73, 70, 70);
    push_le32(&mut wav, riff);
    push_tag(&mut wav, 87, 65, 86, 69);
    push_tag(&mut wav, 102, 109, 116, 32);
    let ghost a = wav@;
    assert(a =~= seq![82u8, 73, 70, 70] + le32((36 + data_size) as u32) + seq![87u8, 65, 86, 69] + seq![
        102u8,
        109,
        116,
        32,
    ]);
    push_le32(&mut wav, 16);
    push_le16(&mut wav, 1);
    push_le16(&mut wav, 1);
    push_le32(&mut wav, sample_rate);
    push_le32(&mut wav, byte_rate);
    let ghost b = wav@;
    assert(b =~= a + le32(16) + le16(1) + le16(1) + le32(sample_rate) + le32((sample_rate * 2) as u32));
    push_le16(&mut wav, 2);
    push_le16(&mut wav, 16);
    push_tag(&mut wav, 100, 97, 116, 97);
    push_le32(&mut wav, data_size);
    assert(wav@ =~= b + le16(2) + le16(16) + seq![100u8, 97, 116, 97] + le32(data_size));
    wav
}

} // verus!
