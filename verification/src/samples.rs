//! The inspector's view of PCM audio: decoding one sample of a PCM or
//! IEEE-float WAVE file from its bytes, the bit view of a frame with each
//! channel's bits and padding, and the lines that describe the playhead's
//! frame.
use vstd::prelude::*;
use vstd::arithmetic::power2::{pow2, lemma_pow2_adds, lemma2_to64, lemma_pow2_pos};
use vstd::bits::{lemma_u64_shr_is_div, lemma_u64_shl_is_mul, lemma_u64_pow2_no_overflow};

use crate::badges::{rgb, Rgb};
use crate::metadata::AudioByteMapping;
use crate::text::{
    decimal, hex_upper, push_char, push_decimal, push_hex_padded, push_hex_upper, push_signed_decimal,
    signed_decimal, zero_padded,
};

verus! {

/// `WAVE_FORMAT_EXTENSIBLE`: the real format is in the sub-format.
pub const FORMAT_EXTENSIBLE: u16 = 0xfffe;
/// `WAVE_FORMAT_PCM`.
pub const FORMAT_PCM: u16 = 1;
/// `WAVE_FORMAT_IEEE_FLOAT`.
pub const FORMAT_IEEE_FLOAT: u16 = 3;

/// One decoded sample.
#[derive(Clone, Copy, Debug, PartialEq, Eq, Structural)]
pub enum WaveSample {
    /// The bits of a little-endian `f32` sample.
    Float32Bits(u32),
    /// The bits of a little-endian `f64` sample.
    Float64Bits(u64),
    /// An unsigned 8-bit PCM sample.
    Unsigned8(u8),
    /// A signed PCM sample, the raw little-endian container value it was
    /// read from, and how many hex digits the raw value is shown with.
    Integer { signed: i128, raw: u64, hex_digits: usize },
}

/// The little-endian value of `bytes`.
pub open spec fn le_value(bytes: Seq<u8>) -> nat
    decreases bytes.len(),
{
    if bytes.len() == 0 {
        0
    } else {
        le_value(bytes.drop_last()) + (bytes.last() as nat) * pow2((8 * (bytes.len() - 1)) as nat)
    }
}

/// The format a mapping's samples are in, looking through
/// `WAVE_FORMAT_EXTENSIBLE` to its sub-format.
pub open spec fn effective_format(mapping: AudioByteMapping) -> Option<u16> {
    if mapping.format_tag == FORMAT_EXTENSIBLE {
        mapping.format_subtype
    } else {
        Some(mapping.format_tag)
    }
}

/// The container width in bits, taken into `1..=64`.
pub open spec fn container_width(mapping: AudioByteMapping) -> nat {
    if mapping.container_bits > 64 {
        64
    } else if mapping.container_bits < 1 {
        1
    } else {
        mapping.container_bits as nat
    }
}

/// The number of valid (significant) bits, taken into `1..=container`.
pub open spec fn valid_width(mapping: AudioByteMapping) -> nat {
    let c = container_width(mapping);
    if mapping.valid_bits as nat > c {
        c
    } else if mapping.valid_bits < 1 {
        1
    } else {
        mapping.valid_bits as nat
    }
}

/// The signed value of a PCM sample: the container value with its padding
/// bits shifted out, read as two's complement over the valid bits.
pub open spec fn pcm_signed(mapping: AudioByteMapping, raw: nat) -> int {
    let vb = valid_width(mapping);
    let padding = (container_width(mapping) - vb) as nat;
    let valid = raw / pow2(padding);
    if (valid / pow2((vb - 1) as nat)) % 2 == 1 {
        valid - pow2(vb)
    } else {
        valid as int
    }
}

/// The sample that `bytes` hold under `mapping`, if it is one the hex view
/// can decode: a 4- or 8-byte IEEE float, or PCM of 1 to 8 bytes.
pub open spec fn decoded_sample(mapping: AudioByteMapping, bytes: Seq<u8>) -> Option<WaveSample> {
    match effective_format(mapping) {
        None => None,
        Some(tag) => if tag == FORMAT_IEEE_FLOAT {
            if bytes.len() == 4 {
                Some(WaveSample::Float32Bits(le_value(bytes) as u32))
            } else if bytes.len() == 8 {
                Some(WaveSample::Float64Bits(le_value(bytes) as u64))
            } else {
                None
            }
        } else if tag != FORMAT_PCM || bytes.len() == 0 || bytes.len() > 8 {
            None
        } else if mapping.container_bits == 8 {
            Some(WaveSample::Unsigned8(bytes[0]))
        } else {
            Some(
                WaveSample::Integer {
                    signed: pcm_signed(mapping, le_value(bytes)) as i128,
                    raw: le_value(bytes) as u64,
                    hex_digits: (bytes.len() * 2) as usize,
                },
            )
        },
    }
}

/// Decodes one sample of a WAVE file from its bytes.
pub fn decode_wave_sample(mapping: &AudioByteMapping, bytes: &[u8]) -> (sample: Option<WaveSample>)
    ensures
        sample == decoded_sample(*mapping, bytes@),
        sample matches Some(WaveSample::Integer { signed, .. }) ==> -0x8000_0000_0000_0000 <= signed
            < 0x1_0000_0000_0000_0000,
{
    let effective_tag = if mapping.format_tag == FORMAT_EXTENSIBLE {
        match mapping.format_subtype {
            Some(t) => t,
            None => return None,
        }
    } else {
        mapping.format_tag
    };
    let len = bytes.len();
    if effective_tag == FORMAT_IEEE_FLOAT {
        if len != 4 && len != 8 {
            return None;
        }
    } else if effective_tag != FORMAT_PCM || len == 0 || len > 8 {
        return None;
    } else if mapping.container_bits == 8 {
        return Some(WaveSample::Unsigned8(bytes[0]));
    }
    // The little-endian value of all the bytes.
    let mut raw: u64 = 0;
    let mut scale: u64 = 1;
    let mut i: usize = 0;
    proof {
        lemma2_to64();
    }
    while i < len
        invariant
            len == bytes@.len() <= 8,
            i <= len,
            raw == le_value(bytes@.take(i as int)),
            i < len ==> scale == pow2((8 * i) as nat),
            raw < pow2((8 * i) as nat),
            pow2((8 * i) as nat) <= 0x1_0000_0000_0000_0000,
        decreases len - i,
    {
        proof {
            assert(bytes@.take(i + 1).drop_last() =~= bytes@.take(i as int));
            lemma_pow2_adds((8 * i) as nat, 8);
            lemma2_to64();
            lemma_pow2_pos((8 * i) as nat);
            if i + 1 < 8 {
                vstd::arithmetic::power2::lemma_pow2_strictly_increases((8 * (i + 1)) as nat, 64);
            }
        }
        let b = bytes[i] as u64;
        assert(raw + b * scale < scale * 256) by (nonlinear_arith)
            requires
                raw < scale,
                b < 256,
        ;
        raw = raw + b * scale;
        if i + 1 < len {
            scale = scale * 256;
        }
        i = i + 1;
    }
    proof {
        assert(bytes@.take(len as int) =~= bytes@);
    }
    if effective_tag == FORMAT_IEEE_FLOAT {
        if len == 4 {
            return Some(WaveSample::Float32Bits(raw as u32));
        }
        return Some(WaveSample::Float64Bits(raw));
    }
    let container_bits: u16 = if mapping.container_bits > 64 {
        64
    } else if mapping.container_bits < 1 {
        1
    } else {
        mapping.container_bits
    };
    let valid_bits: u16 = if mapping.valid_bits > container_bits {
        container_bits
    } else if mapping.valid_bits < 1 {
        1
    } else {
        mapping.valid_bits
    };
    let padding: u64 = (container_bits - valid_bits) as u64;
    let valid_raw = raw >> padding;
    let sign_shift: u64 = (valid_bits - 1) as u64;
    proof {
        lemma_u64_shr_is_div(raw, padding);
        lemma_u64_pow2_no_overflow(sign_shift as nat);
        lemma_u64_shl_is_mul(1, sign_shift);
    }
    let sign_bit: u64 = 1u64 << sign_shift;
    let set = valid_raw & sign_bit != 0;
    proof {
        assert((valid_raw & (1u64 << sign_shift) != 0) == ((valid_raw >> sign_shift) % 2 == 1))
            by (bit_vector)
            requires
                sign_shift < 64,
        ;
        lemma_u64_shr_is_div(valid_raw, sign_shift);
        lemma_pow2_adds(sign_shift as nat, 1);
        lemma2_to64();
    }
    proof {
        assert((valid_raw & (1u64 << sign_shift) != 0) ==> valid_raw >= (1u64 << sign_shift))
            by (bit_vector);
        assert((1u64 << sign_shift) <= 0x8000_0000_0000_0000u64) by (bit_vector)
            requires
                sign_shift < 64,
        ;
    }
    let signed: i128 = if set {
        (valid_raw as i128) - (sign_bit as i128) * 2
    } else {
        valid_raw as i128
    };
    Some(WaveSample::Integer { signed, raw, hex_digits: len * 2 })
}

/// How the hex view writes an integer sample: an 8-bit sample as its
/// unsigned value; a wider one as its signed value followed by the raw
/// container value in hex, `-2 (0xFFFE)`. Float samples are written by the
/// caller, which owns the float formatting.
pub open spec fn sample_text(sample: WaveSample) -> Option<Seq<char>> {
    match sample {
        WaveSample::Unsigned8(v) => Some(decimal(v as nat)),
        WaveSample::Integer { signed, raw, hex_digits } => Some(
            signed_decimal(signed as int) + " (0x"@ + zero_padded(hex_upper(raw as nat), hex_digits as nat)
                + ")"@,
        ),
        _ => None,
    }
}

/// The text of an integer sample.
pub fn wave_sample_text(sample: WaveSample) -> (text: Option<String>)
    ensures
        match text {
            Some(t) => sample_text(sample) == Some(t@),
            None => sample_text(sample) is None,
        },
{
    match sample {
        WaveSample::Unsigned8(v) => {
            let mut t = String::new();
            push_decimal(&mut t, v as u64);
            Some(t)
        },
        WaveSample::Integer { signed, raw, hex_digits } => {
            let mut t = String::new();
            push_signed_decimal(&mut t, signed);
            t.append(" (0x");
            push_hex_padded(&mut t, raw, hex_digits);
            t.append(")");
            Some(t)
        },
        _ => None,
    }
}


/// The colors that tell the channels of a frame apart in the bit view,
/// repeating after eight channels.
pub open spec fn channel_palette() -> Seq<Rgb> {
    seq![
        rgb(35, 113, 91),
        rgb(46, 89, 142),
        rgb(111, 67, 145),
        rgb(151, 76, 70),
        rgb(135, 103, 38),
        rgb(42, 113, 128),
        rgb(122, 71, 109),
        rgb(80, 104, 58),
    ]
}

/// The color of channel `channel` in the bit view.
pub fn channel_color(channel: usize) -> (color: Rgb)
    ensures
        color == channel_palette()[channel as int % 8],
{
    match channel % 8 {
        0 => Rgb { r: 35, g: 113, b: 91 },
        1 => Rgb { r: 46, g: 89, b: 142 },
        2 => Rgb { r: 111, g: 67, b: 145 },
        3 => Rgb { r: 151, g: 76, b: 70 },
        4 => Rgb { r: 135, g: 103, b: 38 },
        5 => Rgb { r: 42, g: 113, b: 128 },
        6 => Rgb { r: 122, g: 71, b: 109 },
        _ => Rgb { r: 80, g: 104, b: 58 },
    }
}


// ---------------------------------------------------------------------
// The bit view of a frame
// ---------------------------------------------------------------------

/// One piece of the bit view of a frame.
#[derive(Clone, Debug, PartialEq, Eq)]
pub enum BitViewItem {
    /// The label in front of a channel's bits, `Ch1 `, `Ch2 `, ...
    ChannelLabel(String),
    /// One bit, `set` or not, of channel `channel`; `padding` marks the
    /// container's padding bits, which come first in the file.
    Bit { channel: usize, set: bool, padding: bool },
    /// The space between two bytes of a sample.
    ByteGap,
    /// The space between two channels.
    ChannelGap,
}

/// A bit view item as plain values: `(kind, channel, set, padding, label)`
/// with kind 0 for a label, 1 for a bit, 2 for a byte gap, 3 for a channel
/// gap.
pub open spec fn bit_item_view(item: BitViewItem) -> (int, nat, bool, bool, Seq<char>) {
    match item {
        BitViewItem::ChannelLabel(label) => (0, 0, false, false, label@),
        BitViewItem::Bit { channel, set, padding } => (1, channel as nat, set, padding, Seq::empty()),
        BitViewItem::ByteGap => (2, 0, false, false, Seq::empty()),
        BitViewItem::ChannelGap => (3, 0, false, false, Seq::empty()),
    }
}

/// Bit view items as plain values.
pub open spec fn bit_items_view(items: Seq<BitViewItem>) -> Seq<(int, nat, bool, bool, Seq<char>)> {
    items.map_values(|i: BitViewItem| bit_item_view(i))
}

/// `a + b`, at most `usize::MAX`.
pub open spec fn sat_add_usize(a: nat, b: nat) -> nat {
    if a + b > usize::MAX { usize::MAX as nat } else { a + b }
}

/// `a * b`, at most `usize::MAX`.
pub open spec fn sat_mul_usize(a: nat, b: nat) -> nat {
    if a * b > usize::MAX { usize::MAX as nat } else { a * b }
}

/// How many bytes each channel's sample takes in a frame.
pub open spec fn bytes_per_channel(mapping: AudioByteMapping) -> nat {
    mapping.block_align as nat / (if mapping.channels >= 1 { mapping.channels as nat } else { 1 })
}

/// How many padding bits a sample's container has.
pub open spec fn padding_bits(mapping: AudioByteMapping) -> nat {
    if mapping.container_bits >= mapping.valid_bits {
        (mapping.container_bits - mapping.valid_bits) as nat
    } else {
        0
    }
}

/// The first `j` bits of byte `i` of a sample, the highest first.
pub open spec fn bit_items(channel: nat, byte: u8, i: nat, pad: nat, j: nat) -> Seq<(int, nat, bool, bool, Seq<char>)>
    decreases j,
{
    if j == 0 || j > 8 {
        Seq::empty()
    } else {
        let bit = (8 - j) as nat;
        bit_items(channel, byte, i, pad, (j - 1) as nat).push(
            (1, channel, byte & (1u8 << (bit as u8)) != 0, i * 8 + bit < pad, Seq::empty()),
        )
    }
}

/// The bits of the first `n` bytes of a channel's sample, with a gap
/// after each byte but the last.
pub open spec fn sample_items(channel: nat, sample: Seq<u8>, pad: nat, n: nat) -> Seq<(int, nat, bool, bool, Seq<char>)>
    decreases n,
{
    if n == 0 || n > sample.len() {
        Seq::empty()
    } else {
        let i = (n - 1) as nat;
        sample_items(channel, sample, pad, i) + bit_items(channel, sample[i as int], i, pad, 8) + if n
            < sample.len() {
            seq![(2, 0nat, false, false, Seq::<char>::empty())]
        } else {
            Seq::empty()
        }
    }
}

/// The channel label `Ch{n} ` of channel `c` (counted from 0).
pub open spec fn channel_label(c: nat) -> Seq<char> {
    "Ch"@ + decimal(c + 1) + seq![' ']
}

/// The items of channel `c` of a frame: its label, its sample's bits and,
/// unless it is the last channel, a gap; nothing when its sample is not in
/// the bytes.
pub open spec fn channel_items(mapping: AudioByteMapping, bytes: Seq<u8>, c: nat) -> Seq<(int, nat, bool, bool, Seq<char>)> {
    let bpc = bytes_per_channel(mapping);
    let start = sat_mul_usize(c, bpc);
    let end = sat_add_usize(start, bpc);
    if end > bytes.len() {
        Seq::empty()
    } else {
        let sample = bytes.subrange(start as int, end as int);
        seq![(0, 0nat, false, false, channel_label(c))] + sample_items(c, sample, padding_bits(mapping), sample.len())
            + if c + 1 < mapping.channels {
            seq![(3, 0nat, false, false, Seq::<char>::empty())]
        } else {
            Seq::empty()
        }
    }
}

/// The items of the first `k` channels of a frame.
pub open spec fn frame_items(mapping: AudioByteMapping, bytes: Seq<u8>, k: nat) -> Seq<(int, nat, bool, bool, Seq<char>)>
    decreases k,
{
    if k == 0 {
        Seq::empty()
    } else {
        frame_items(mapping, bytes, (k - 1) as nat) + channel_items(mapping, bytes, (k - 1) as nat)
    }
}

/// The bit view of a frame's bytes: per channel, its label and the bits of
/// its sample, highest bit of each byte first, padding bits marked.
pub fn frame_bit_view(mapping: &AudioByteMapping, bytes: &[u8]) -> (items: Vec<BitViewItem>)
    ensures
        bit_items_view(items@) == frame_items(*mapping, bytes@, mapping.channels as nat),
{
    let channels = if mapping.channels >= 1 { mapping.channels as usize } else { 1 };
    let bpc = mapping.block_align as usize / channels;
    let pad: usize = if mapping.container_bits >= mapping.valid_bits {
        (mapping.container_bits - mapping.valid_bits) as usize
    } else {
        0
    };
    assert(bpc == bytes_per_channel(*mapping));
    let mut items: Vec<BitViewItem> = Vec::new();
    let mut c: usize = 0;
    while c < mapping.channels as usize
        invariant
            c <= mapping.channels,
            bpc == bytes_per_channel(*mapping),
            pad == padding_bits(*mapping),
            bit_items_view(items@) == frame_items(*mapping, bytes@, c as nat),
        decreases mapping.channels - c,
    {
        let ghost before = bit_items_view(items@);
        let start = match c.checked_mul(bpc) {
            Some(v) => v,
            None => usize::MAX,
        };
        let end = start.saturating_add(bpc);
        if end <= bytes.len() {
            proof {
                reveal_strlit("Ch");
            }
            let mut label = String::from_str("Ch");
            push_decimal(&mut label, (c + 1) as u64);
            push_char(&mut label, ' ');
            assert(label@ =~= channel_label(c as nat));
            let ghost label_view = label@;
            items.push(BitViewItem::ChannelLabel(label));
            let ghost head = bit_items_view(items@);
            assert(head =~= before + seq![(0, 0nat, false, false, label_view)]);
            let len = end - start;
            let ghost sample = bytes@.subrange(start as int, end as int);
            let mut n: usize = 0;
            while n < len
                invariant
                    n <= len,
                    len == end - start,
                    start <= end <= bytes@.len(),
                    sample == bytes@.subrange(start as int, end as int),
                    pad == padding_bits(*mapping),
                    pad <= 65535,
                    bit_items_view(items@) == head + sample_items(c as nat, sample, pad as nat, n as nat),
                decreases len - n,
            {
                let byte = bytes[start + n];
                assert(byte == sample[n as int]);
                let ghost mid = bit_items_view(items@);
                let mut j: usize = 0;
                while j < 8
                    invariant
                        j <= 8,
                        pad <= 65535,
                        bit_items_view(items@) == mid + bit_items(c as nat, byte, n as nat, pad as nat, j as nat),
                    decreases 8 - j,
                {
                    let bit: u8 = (7 - j) as u8;
                    let set = byte & (1u8 << bit) != 0;
                    let padding = n < 8192 && n * 8 + (bit as usize) < pad;
                    let ghost pre = bit_items_view(items@);
                    let item = BitViewItem::Bit { channel: c, set, padding };
                    items.push(item);
                    proof {
                        assert(padding == (n * 8 + bit < pad));
                        assert(bit as nat == (8 - (j + 1)) as nat);
                        assert(bit_items_view(items@) =~= pre.push(bit_item_view(item)));
                        assert(bit_item_view(item) == (1int, c as nat, set, padding, Seq::<char>::empty()));
                        let next = bit_items(c as nat, byte, n as nat, pad as nat, (j + 1) as nat);
                        assert(next == bit_items(c as nat, byte, n as nat, pad as nat, j as nat).push(
                            (1int, c as nat, byte & (1u8 << bit) != 0, n * 8 + bit < pad, Seq::<char>::empty()),
                        ));
                        assert(bit_items_view(items@) =~= mid + next);
                    }
                    j = j + 1;
                }
                let ghost bits_done = bit_items_view(items@);
                assert(bits_done == mid + bit_items(c as nat, byte, n as nat, pad as nat, 8));
                if n + 1 < len {
                    items.push(BitViewItem::ByteGap);
                    assert(bit_items_view(items@) =~= bits_done.push(bit_item_view(BitViewItem::ByteGap)));
                }
                proof {
                    let prev = sample_items(c as nat, sample, pad as nat, n as nat);
                    let bits = bit_items(c as nat, byte, n as nat, pad as nat, 8);
                    let gap = if n + 1 < sample.len() {
                        seq![(2int, 0nat, false, false, Seq::<char>::empty())]
                    } else {
                        Seq::empty()
                    };
                    assert(sample_items(c as nat, sample, pad as nat, (n + 1) as nat) == prev + bits + gap);
                    assert(bit_items_view(items@) =~= head + (prev + bits + gap));
                }
                n = n + 1;
            }
            let ghost channel_done = bit_items_view(items@);
            if c + 1 < mapping.channels as usize {
                items.push(BitViewItem::ChannelGap);
                assert(bit_items_view(items@) =~= channel_done.push(bit_item_view(BitViewItem::ChannelGap)));
            }
            proof {
                assert(sample.len() == len);
                let body = sample_items(c as nat, sample, pad as nat, len as nat);
                let gap = if c + 1 < mapping.channels {
                    seq![(3int, 0nat, false, false, Seq::<char>::empty())]
                } else {
                    Seq::empty()
                };
                assert(channel_items(*mapping, bytes@, c as nat) == seq![(0int, 0nat, false, false, channel_label(c as nat))]
                    + body + gap);
                assert(bit_items_view(items@) =~= before + (seq![(0int, 0nat, false, false, channel_label(c as nat))]
                    + body + gap));
            }
        } else {
            assert(channel_items(*mapping, bytes@, c as nat) =~= Seq::empty());
            assert(before + Seq::empty() =~= before);
        }
        c = c + 1;
    }
    items
}


/// Where the playhead's frame lies: `frame F · abs 0xA · data+0xD · N bytes`.
pub open spec fn frame_location_text_of(frame: u64, offset: u64, length: u64, data_offset: u64) -> Seq<char> {
    "frame "@ + decimal(frame as nat) + " \u{b7} abs 0x"@ + hex_upper(offset as nat) + " \u{b7} data+0x"@
        + hex_upper(if offset >= data_offset { (offset - data_offset) as nat } else { 0 }) + " \u{b7} "@
        + decimal(length as nat) + " bytes"@
}

/// The line that locates the playhead's frame in the file.
pub fn frame_location_text(frame: u64, offset: u64, length: u64, data_offset: u64) -> (text: String)
    ensures
        text@ == frame_location_text_of(frame, offset, length, data_offset),
{
    proof {
        reveal_strlit("frame ");
        reveal_strlit(" \u{b7} abs 0x");
        reveal_strlit(" \u{b7} data+0x");
        reveal_strlit(" \u{b7} ");
        reveal_strlit(" bytes");
    }
    let mut text = String::from_str("frame ");
    push_decimal(&mut text, frame);
    text.append(" \u{b7} abs 0x");
    push_hex_upper(&mut text, offset);
    text.append(" \u{b7} data+0x");
    push_hex_upper(&mut text, offset.saturating_sub(data_offset));
    text.append(" \u{b7} ");
    push_decimal(&mut text, length);
    text.append(" bytes");
    text
}

/// How a sample's container splits into valid and padding bits.
pub open spec fn bit_layout_text_of(mapping: AudioByteMapping) -> Seq<char> {
    decimal(mapping.valid_bits as nat) + " valid bits + "@ + decimal(padding_bits(mapping)) + " padding bits in "@
        + decimal(mapping.container_bits as nat) + " container bits"@
}

/// The line that says how a sample's container splits into valid and
/// padding bits.
pub fn bit_layout_text(mapping: &AudioByteMapping) -> (text: String)
    ensures
        text@ == bit_layout_text_of(*mapping),
{
    proof {
        reveal_strlit(" valid bits + ");
        reveal_strlit(" padding bits in ");
        reveal_strlit(" container bits");
    }
    let mut text = String::new();
    push_decimal(&mut text, mapping.valid_bits as u64);
    text.append(" valid bits + ");
    let pad: u16 = if mapping.container_bits >= mapping.valid_bits {
        mapping.container_bits - mapping.valid_bits
    } else {
        0
    };
    push_decimal(&mut text, pad as u64);
    text.append(" padding bits in ");
    push_decimal(&mut text, mapping.container_bits as u64);
    text.append(" container bits");
    text
}

/// What the live PCM status says when the playhead's frame cannot be shown
/// exactly: for a PCM file while the source only has a time, why; for a
/// PCM file that is not playing, how to follow it; for a compressed file,
/// that it cannot be followed.
pub open spec fn pcm_status_note_text(has_mapping: bool, source_time_known: bool) -> Seq<char> {
    if has_mapping {
        if source_time_known {
            "Source-time only: an edit, preview, virtual source, or different playback source prevents exact raw-bit mapping."@
        } else {
            "Exact PCM source mapping is available; play this editor source to follow raw frames."@
        }
    } else {
        "Compressed container: exact playback-to-bitstream mapping is unavailable."@
    }
}

/// The live PCM status's note when the playhead's frame cannot be shown.
pub fn pcm_status_note(has_mapping: bool, source_time_known: bool) -> (note: &'static str)
    ensures
        note@ == pcm_status_note_text(has_mapping, source_time_known),
{
    if has_mapping {
        if source_time_known {
            "Source-time only: an edit, preview, virtual source, or different playback source prevents exact raw-bit mapping."
        } else {
            "Exact PCM source mapping is available; play this editor source to follow raw frames."
        }
    } else {
        "Compressed container: exact playback-to-bitstream mapping is unavailable."
    }
}


/// The text and background colors of a bit in the bit view: padding bits
/// dark on amber, the others white on their channel's color.
pub fn bit_colors(channel: usize, padding: bool) -> (colors: (Rgb, Rgb))
    ensures
        colors == if padding {
            (rgb(38, 31, 15), rgb(235, 185, 72))
        } else {
            (rgb(255, 255, 255), channel_palette()[channel as int % 8])
        },
{
    if padding {
        (Rgb { r: 38, g: 31, b: 15 }, Rgb { r: 235, g: 185, b: 72 })
    } else {
        (Rgb { r: 255, g: 255, b: 255 }, channel_color(channel))
    }
}

/// The color of labels and gaps in the bit view.
pub fn bit_view_text_color() -> (color: Rgb)
    ensures
        color == rgb(224, 229, 235),
{
    Rgb { r: 224, g: 229, b: 235 }
}

proof fn lemma_le_value_step(bytes: Seq<u8>, k: nat)
    requires
        bytes.len() == k + 1,
    ensures
        le_value(bytes) == le_value(bytes.drop_last()) + (bytes[k as int] as nat) * pow2(8 * k),
{
    assert(((8 * (bytes.len() - 1)) as nat) == 8 * k);
}

/// A sample of a `WAVE_FORMAT_EXTENSIBLE` file decodes exactly as the
/// same bytes do in a file whose format tag is the extensible file's
/// sub-format.
pub proof fn lemma_extensible_decodes_as_subformat(extensible: AudioByteMapping, plain: AudioByteMapping, bytes: Seq<u8>)
    requires
        extensible.format_tag == 0xfffe,
        extensible.format_subtype == Some(plain.format_tag),
        plain.format_tag != 0xfffe,
        plain == (AudioByteMapping {
            format_tag: plain.format_tag,
            format_subtype: plain.format_subtype,
            ..extensible
        }),
    ensures
        decoded_sample(extensible, bytes) == decoded_sample(plain, bytes),
{
}

/// An extensible file that names no sub-format has no samples to decode.
pub proof fn lemma_extensible_without_subformat(mapping: AudioByteMapping, bytes: Seq<u8>)
    requires
        mapping.format_tag == 0xfffe,
        mapping.format_subtype is None,
    ensures
        decoded_sample(mapping, bytes) is None,
{
}

/// Only PCM (1) and IEEE float (3) samples are decoded, directly or as the
/// sub-format of an extensible file.
pub proof fn lemma_other_formats_not_decoded(mapping: AudioByteMapping, bytes: Seq<u8>)
    requires
        (mapping.format_tag != 0xfffe && mapping.format_tag != 1 && mapping.format_tag != 3) || (
        mapping.format_tag == 0xfffe && (mapping.format_subtype matches Some(t) && t != 1 && t != 3)),
    ensures
        decoded_sample(mapping, bytes) is None,
{
}

/// An IEEE float sample is the little-endian bits of an `f32` (4 bytes) or
/// an `f64` (8 bytes); other sizes are not decoded.
pub proof fn lemma_float_samples(mapping: AudioByteMapping, bytes: Seq<u8>)
    requires
        mapping.format_tag == 3 || (mapping.format_tag == 0xfffe && mapping.format_subtype == Some(3u16)),
    ensures
        bytes.len() == 4 ==> decoded_sample(mapping, bytes) == Some(WaveSample::Float32Bits(
            (bytes[0] + bytes[1] * 0x100 + bytes[2] * 0x1_0000 + bytes[3] * 0x100_0000) as u32,
        )),
        bytes.len() == 8 ==> decoded_sample(mapping, bytes) == Some(WaveSample::Float64Bits(
            le_value(bytes) as u64,
        )),
        bytes.len() != 4 && bytes.len() != 8 ==> decoded_sample(mapping, bytes) is None,
{
    if bytes.len() == 4 {
        lemma2_to64();
        let b3 = bytes.drop_last();
        let b2 = b3.drop_last();
        let b1 = b2.drop_last();
        let b0 = b1.drop_last();
        assert(b0.len() == 0);
        assert(le_value(b0) == 0);
        lemma_le_value_step(b1, 0);
        lemma_le_value_step(b2, 1);
        lemma_le_value_step(b3, 2);
        lemma_le_value_step(bytes, 3);
        assert(b1[0] == bytes[0] && b2[1] == bytes[1] && b3[2] == bytes[2]);
        assert(pow2(0) == 1 && pow2(8) == 0x100 && pow2(16) == 0x1_0000 && pow2(24) == 0x100_0000);
        assert(pow2(8 * 0) == 1 && pow2(8 * 1) == 0x100 && pow2(8 * 2) == 0x1_0000 && pow2(8 * 3) == 0x100_0000);
        assert(b1.drop_last() == b0);
        assert(le_value(b1) == le_value(b0) + (b1[0] as nat) * 1);
        assert(le_value(b1) == bytes[0]);
        assert(le_value(b2) == bytes[0] + bytes[1] * 0x100);
        assert(le_value(b3) == bytes[0] + bytes[1] * 0x100 + bytes[2] * 0x1_0000);
        assert(le_value(bytes) == bytes[0] + bytes[1] * 0x100 + bytes[2] * 0x1_0000 + bytes[3] * 0x100_0000);
    }
}

/// An 8-bit PCM sample is its one unsigned byte.
pub proof fn lemma_pcm_8bit_samples(mapping: AudioByteMapping, bytes: Seq<u8>)
    requires
        mapping.format_tag == 1 || (mapping.format_tag == 0xfffe && mapping.format_subtype == Some(1u16)),
        mapping.container_bits == 8,
        1 <= bytes.len() <= 8,
    ensures
        decoded_sample(mapping, bytes) == Some(WaveSample::Unsigned8(bytes[0])),
{
}

/// A 16-bit PCM sample is its two little-endian bytes read as two's
/// complement.
pub proof fn lemma_pcm_16bit_samples(mapping: AudioByteMapping, bytes: Seq<u8>)
    requires
        mapping.format_tag == 1 || (mapping.format_tag == 0xfffe && mapping.format_subtype == Some(1u16)),
        mapping.container_bits == 16,
        mapping.valid_bits == 16,
        bytes.len() == 2,
    ensures
        ({
            let v = bytes[0] + bytes[1] * 0x100;
            decoded_sample(mapping, bytes) == Some(WaveSample::Integer {
                signed: (if v < 0x8000 { v } else { v - 0x1_0000 }) as i128,
                raw: v as u64,
                hex_digits: 4,
            })
        }),
{
    lemma2_to64();
    let b1 = bytes.drop_last();
    let b0 = b1.drop_last();
    assert(b0.len() == 0);
    assert(le_value(b0) == 0);
    lemma_le_value_step(b1, 0);
    lemma_le_value_step(bytes, 1);
    assert(b1[0] == bytes[0]);
    assert(pow2(8 * 0) == 1 && pow2(8 * 1) == 0x100);
    assert(b1.drop_last() == b0);
    assert(le_value(b1) == le_value(b0) + (b1[0] as nat) * 1);
    assert(le_value(b1) == bytes[0]);
    let v = bytes[0] + bytes[1] * 0x100;
    assert(le_value(bytes) == v);
    assert(valid_width(mapping) == 16);
    assert(container_width(mapping) == 16);
    assert(v / 1 == v);
    assert((v / 0x8000) % 2 == 1 <==> v >= 0x8000) by (nonlinear_arith)
        requires
            0 <= v < 0x1_0000,
    ;
}

/// A 24-bit PCM sample is its three little-endian bytes read as two's
/// complement.
pub proof fn lemma_pcm_24bit_samples(mapping: AudioByteMapping, bytes: Seq<u8>)
    requires
        mapping.format_tag == 1 || (mapping.format_tag == 0xfffe && mapping.format_subtype == Some(1u16)),
        mapping.container_bits == 24,
        mapping.valid_bits == 24,
        bytes.len() == 3,
    ensures
        ({
            let v = bytes[0] + bytes[1] * 0x100 + bytes[2] * 0x1_0000;
            decoded_sample(mapping, bytes) == Some(WaveSample::Integer {
                signed: (if v < 0x80_0000 { v } else { v - 0x100_0000 }) as i128,
                raw: v as u64,
                hex_digits: 6,
            })
        }),
{
    lemma2_to64();
    let b2 = bytes.drop_last();
    let b1 = b2.drop_last();
    let b0 = b1.drop_last();
    assert(b0.len() == 0);
    assert(le_value(b0) == 0);
    lemma_le_value_step(b1, 0);
    lemma_le_value_step(b2, 1);
    lemma_le_value_step(bytes, 2);
    assert(b1[0] == bytes[0] && b2[1] == bytes[1]);
    assert(pow2(8 * 0) == 1 && pow2(8 * 1) == 0x100 && pow2(8 * 2) == 0x1_0000);
    assert(b1.drop_last() == b0);
    assert(le_value(b1) == le_value(b0) + (b1[0] as nat) * 1);
    assert(le_value(b1) == bytes[0]);
    let v = bytes[0] + bytes[1] * 0x100 + bytes[2] * 0x1_0000;
    assert(le_value(bytes) == v);
    assert(valid_width(mapping) == 24);
    assert(container_width(mapping) == 24);
    assert(v / 1 == v);
    assert(pow2(23) == 0x80_0000 && pow2(24) == 0x100_0000);
    assert((v / 0x80_0000) % 2 == 1 <==> v >= 0x80_0000) by (nonlinear_arith)
        requires
            0 <= v < 0x100_0000,
    ;
}

/// A PCM sample wider than a byte keeps its raw little-endian value and is
/// shown with two hex digits per byte.
pub proof fn lemma_pcm_raw_and_digits(mapping: AudioByteMapping, bytes: Seq<u8>)
    requires
        mapping.format_tag == 1 || (mapping.format_tag == 0xfffe && mapping.format_subtype == Some(1u16)),
        mapping.container_bits != 8,
        1 <= bytes.len() <= 8,
    ensures
        decoded_sample(mapping, bytes) matches Some(WaveSample::Integer { raw, hex_digits, .. }) && raw
            == (le_value(bytes) as u64) && hex_digits == 2 * bytes.len(),
{
}

} // verus!
