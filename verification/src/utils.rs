//! The constants of the audio format, the header of the container, and the
//! encoding of one sample.

use crate::number::Number;
use vstd::prelude::*;

verus! {

// the portions of the RIFF header corresponding to ASCII text
pub const RIFF: [u8; 4] = [0x52, 0x49, 0x46, 0x46];

pub const WAVE: [u8; 4] = [0x57, 0x41, 0x56, 0x45];

pub const FMT: [u8; 4] = [0x66, 0x6D, 0x74, 0x20];

pub const DATA: [u8; 4] = [0x64, 0x61, 0x74, 0x61];

// basic format constants (PCM, mono, 44.1kHz, 16-bit samples)
pub const CHUNK_SIZE: u32 = 16;

pub const FORMAT: u16 = 1;

pub const CHANNELS: u16 = 1;

pub const SAMPLE_RATE: u32 = 44100;

pub const BITS_PER_SAMPLE: u16 = 16;

/// Bytes per sample frame: one channel of two bytes.
pub const BLOCK_ALIGN: u16 = 2;

/// Bytes per second of audio.
pub const BYTES_PER_SEC: u32 = 88200;

/// The length of the header in bytes.
pub const HEADER_SIZE: usize = 44;

/// The tempo of a piece that names none: 100 beats per minute, as the bits of
/// a `Number`.
pub const DEFAULT_BPM_BITS: u64 = 0x4059_0000_0000_0000;

/// The master amplitude of a piece that names none.
pub const DEFAULT_AMPL: u16 = 2048;

/// The tempo of a piece that names none: 100 beats per minute.
pub open spec fn default_bpm() -> Number {
    Number { bits: DEFAULT_BPM_BITS }
}

/// The fields of the header that follow from others: a sample frame holds
/// every channel's sample, and a second of audio holds the sample rate in
/// frames.
pub proof fn lemma_derived_fields()
    ensures
        BLOCK_ALIGN == CHANNELS * BITS_PER_SAMPLE / 8,
        BYTES_PER_SEC == SAMPLE_RATE * BLOCK_ALIGN,
{
}

/// The two bytes of `x`, the low byte first.
pub open spec fn le16(x: u16) -> Seq<u8> {
    seq![(x % 256) as u8, (x / 256) as u8]
}

/// The four bytes of `x`, the lowest byte first.
pub open spec fn le32(x: u32) -> Seq<u8> {
    seq![
        (x % 256) as u8,
        (x / 0x100 % 256) as u8,
        (x / 0x1_0000 % 256) as u8,
        (x / 0x100_0000) as u8,
    ]
}

/// The header of an audio file that holds `data_size` bytes of samples: the
/// canonical 44 bytes for one channel of 16-bit linear PCM at 44100 Hz.
pub open spec fn header_bytes(data_size: u32) -> Seq<u8> {
    RIFF@ + le32((36 + data_size) as u32) + WAVE@ + FMT@ + le32(CHUNK_SIZE) + le16(FORMAT) + le16(
        CHANNELS,
    ) + le32(SAMPLE_RATE) + le32(BYTES_PER_SEC) + le16(BLOCK_ALIGN) + le16(BITS_PER_SAMPLE) + DATA@
        + le32(data_size)
}

/// The sample that stands for the level `level`: the level itself where a
/// signed 16-bit integer can hold it, else the nearest that one can hold.
pub open spec fn clamped(level: int) -> i16 {
    if level > i16::MAX {
        i16::MAX
    } else if level < i16::MIN {
        i16::MIN
    } else {
        level as i16
    }
}

/// The two bytes of a sample: its 16 bits in two's complement, the low byte
/// first.
pub open spec fn sample_bytes(sample: i16) -> Seq<u8> {
    if sample < 0 {
        le16((sample + 0x1_0000) as u16)
    } else {
        le16(sample as u16)
    }
}

fn push_tag(out: &mut Vec<u8>, tag: &[u8; 4])
    ensures
        final(out)@ == old(out)@ + tag@,
{
    out.push(tag[0]);
    out.push(tag[1]);
    out.push(tag[2]);
    out.push(tag[3]);
    assert(out@ == old(out)@ + tag@);
}

fn push_le16(out: &mut Vec<u8>, x: u16)
    ensures
        final(out)@ == old(out)@ + le16(x),
{
    out.push((x % 256) as u8);
    out.push((x / 256) as u8);
    assert(out@ == old(out)@ + le16(x));
}

fn push_le32(out: &mut Vec<u8>, x: u32)
    ensures
        final(out)@ == old(out)@ + le32(x),
{
    out.push((x % 256) as u8);
    out.push((x / 0x100 % 256) as u8);
    out.push((x / 0x1_0000 % 256) as u8);
    out.push((x / 0x100_0000) as u8);
    assert(out@ == old(out)@ + le32(x));
}

/// The header of an audio file that holds `data_size` bytes of samples.
pub fn header(data_size: u32) -> (output: Vec<u8>)
    requires
        36 + data_size <= u32::MAX,
    ensures
        output@ == header_bytes(data_size),
        output@.len() == HEADER_SIZE,
{
    let mut output: Vec<u8> = Vec::new();
    let file_size: u32 = 36u32 + data_size;
    push_tag(&mut output, &RIFF);
    push_le32(&mut output, file_size);
    push_tag(&mut output, &WAVE);
    push_tag(&mut output, &FMT);
    push_le32(&mut output, CHUNK_SIZE);
    push_le16(&mut output, FORMAT);
    push_le16(&mut output, CHANNELS);
    push_le32(&mut output, SAMPLE_RATE);
    push_le32(&mut output, BYTES_PER_SEC);
    push_le16(&mut output, BLOCK_ALIGN);
    push_le16(&mut output, BITS_PER_SAMPLE);
    push_tag(&mut output, &DATA);
    push_le32(&mut output, data_size);
    assert(output@ == header_bytes(data_size));
    output
}

/// A whole audio file: the header for `data`, then `data` as it is. `None`
/// where `data` is longer than the size fields of the header can tell.
pub fn encode(data: &Vec<u8>) -> (file: Option<Vec<u8>>)
    ensures
        36 + data.len() <= u32::MAX ==> file is Some && file->Some_0@ == header_bytes(
            data.len() as u32,
        ) + data@,
        36 + data.len() > u32::MAX ==> file is None,
{
    if data.len() > 0xffff_ffff - 36 {
        return None;
    }
    let mut output = header(data.len() as u32);
    let mut i: usize = 0;
    while i < data.len()
        invariant
            i <= data.len(),
            output@ == header_bytes(data.len() as u32) + data@.take(i as int),
        decreases data.len() - i,
    {
        output.push(data[i]);
        assert(data@.take(i + 1) == data@.take(i as int).push(data@[i as int]));
        i += 1;
    }
    assert(data@.take(data.len() as int) == data@);
    Some(output)
}

/// The sample that stands for `level`, the rounded sum of what sounds.
pub fn clamp_sample(level: i64) -> (sample: i16)
    ensures
        sample == clamped(level as int),
{
    if level > 32767 {
        i16::MAX
    } else if level < -32768 {
        i16::MIN
    } else {
        level as i16
    }
}

/// Appends the two bytes of `sample` to `data`.
pub fn push_sample(data: &mut Vec<u8>, sample: i16)
    ensures
        final(data)@ == old(data)@ + sample_bytes(sample),
{
    let word: u16 = if sample < 0 {
        (sample as i32 + 0x1_0000) as u16
    } else {
        sample as u16
    };
    push_le16(data, word);
}

} // verus!
