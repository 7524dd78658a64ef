//! DRM gamma lookup tables and the shell's software-dimming requests.
//!
//! A gamma ramp holds three channels of `size` entries each: all red
//! entries, then all green, then all blue. The kernel's `GAMMA_LUT` blob
//! interleaves them instead, as one 8-byte record per entry holding the red,
//! green and blue values and a reserved zero, each a native-endian `u16`.

use vstd::prelude::*;

use crate::topology::OutputId;

verus! {

/// Length in bytes of a software-dimming request packet.
pub const SOFTWARE_DIMMING_PACKET_BYTES: usize = 10;

/// Largest gamma table a CRTC may advertise.
pub const MAX_GAMMA_LUT_ENTRIES: u32 = 65_536;

/// A software-dimming request from the shell. The dimming level is a
/// percentage of full brightness, from 0 to 100.
#[derive(Clone, Copy, Debug, PartialEq, Eq, Structural)]
pub enum SoftwareDimmingRequest {
    Read { output: OutputId },
    SetLevel { output: OutputId, level_percent: u8 },
}

impl SoftwareDimmingRequest {
    pub open spec fn spec_output(self) -> OutputId {
        match self {
            SoftwareDimmingRequest::Read { output } => output,
            SoftwareDimmingRequest::SetLevel { output, .. } => output,
        }
    }

    pub fn output(&self) -> (output: OutputId)
        ensures
            output == self.spec_output(),
    {
        match *self {
            SoftwareDimmingRequest::Read { output } => output,
            SoftwareDimmingRequest::SetLevel { output, .. } => output,
        }
    }
}

/// Why a software-dimming packet was rejected.
#[derive(Clone, Copy, Debug, PartialEq, Eq, Structural)]
pub enum SoftwareDimmingRequestError {
    InvalidSize(usize),
    UnsupportedCommand(u8),
    InvalidOutput(i64),
}

/// The monitor identifier a packet carries: bytes one to eight, little-endian.
pub open spec fn packet_monitor_id(packet: Seq<u8>) -> u64 {
    vstd::bytes::spec_u64_from_le_bytes(packet.subrange(1, 9))
}

/// What a packet decodes to: a read (command zero) or a set (command one)
/// of a positive monitor identifier, the set level capped at 100 percent.
pub open spec fn spec_decode_software_dimming_request(packet: Seq<u8>) -> Result<
    SoftwareDimmingRequest,
    SoftwareDimmingRequestError,
> {
    if packet.len() != SOFTWARE_DIMMING_PACKET_BYTES {
        Err(SoftwareDimmingRequestError::InvalidSize(packet.len() as usize))
    } else if packet[0] > 1 {
        Err(SoftwareDimmingRequestError::UnsupportedCommand(packet[0]))
    } else {
        let monitor_id = packet_monitor_id(packet);
        if monitor_id == 0 || monitor_id > i64::MAX as u64 {
            Err(SoftwareDimmingRequestError::InvalidOutput(monitor_id as i64))
        } else if packet[0] == 0 {
            Ok(SoftwareDimmingRequest::Read { output: OutputId(monitor_id) })
        } else {
            Ok(
                SoftwareDimmingRequest::SetLevel {
                    output: OutputId(monitor_id),
                    level_percent: if packet[9] < 100 { packet[9] } else { 100 },
                },
            )
        }
    }
}

pub fn decode_software_dimming_request(packet: &[u8]) -> (request: Result<
    SoftwareDimmingRequest,
    SoftwareDimmingRequestError,
>)
    ensures
        request == spec_decode_software_dimming_request(packet@),
{
    if packet.len() != SOFTWARE_DIMMING_PACKET_BYTES {
        return Err(SoftwareDimmingRequestError::InvalidSize(packet.len()));
    }
    let command = packet[0];
    if command > 1 {
        return Err(SoftwareDimmingRequestError::UnsupportedCommand(command));
    }
    let id_bytes = vstd::slice::slice_subrange(packet, 1, 9);
    let monitor_id = vstd::bytes::u64_from_le_bytes(id_bytes);
    if monitor_id == 0 || monitor_id > i64::MAX as u64 {
        return Err(SoftwareDimmingRequestError::InvalidOutput(monitor_id as i64));
    }
    let output = OutputId(monitor_id);
    if command == 0 {
        Ok(SoftwareDimmingRequest::Read { output })
    } else {
        let level = packet[9];
        Ok(SoftwareDimmingRequest::SetLevel { output, level_percent: if level < 100 { level } else { 100 } })
    }
}

/// The order in which the machine stores the two bytes of a `u16`.
#[derive(Clone, Copy, Debug, PartialEq, Eq, Structural)]
pub enum ByteOrder {
    LittleEndian,
    BigEndian,
}

/// The `u16` two consecutive bytes hold in `order`.
pub open spec fn u16_in(order: ByteOrder, first: u8, second: u8) -> u16 {
    match order {
        ByteOrder::LittleEndian => (first as int + 256 * second as int) as u16,
        ByteOrder::BigEndian => (second as int + 256 * first as int) as u16,
    }
}

/// The first of the two bytes that hold `value` in `order`.
pub open spec fn first_byte(order: ByteOrder, value: u16) -> u8 {
    match order {
        ByteOrder::LittleEndian => (value % 256) as u8,
        ByteOrder::BigEndian => (value / 256) as u8,
    }
}

/// The second of the two bytes that hold `value` in `order`.
pub open spec fn second_byte(order: ByteOrder, value: u16) -> u8 {
    match order {
        ByteOrder::LittleEndian => (value / 256) as u8,
        ByteOrder::BigEndian => (value % 256) as u8,
    }
}

pub proof fn lemma_u16_bytes_round_trip(order: ByteOrder, value: u16)
    ensures
        u16_in(order, first_byte(order, value), second_byte(order, value)) == value,
{
    assert(value as int == value as int % 256 + 256 * (value as int / 256)) by (nonlinear_arith);
}

/// `u16::from_ne_bytes`: the value two bytes hold in the machine's order,
/// which is one of the two byte orders.
#[verifier::external_body]
fn u16_from_native_bytes(first: u8, second: u8) -> (value: u16)
    ensures
        value == u16_in(ByteOrder::LittleEndian, first, second) || value == u16_in(
            ByteOrder::BigEndian,
            first,
            second,
        ),
{
    u16::from_ne_bytes([first, second])
}

/// The byte order in which the bytes `[1, 0]` read as `value`: one only
/// when the first byte is the low one.
pub fn byte_order_of_probe(value: u16) -> (order: ByteOrder)
    ensures
        order == (if value == 1 { ByteOrder::LittleEndian } else { ByteOrder::BigEndian }),
{
    if value == 1 {
        ByteOrder::LittleEndian
    } else {
        ByteOrder::BigEndian
    }
}

/// The machine's byte order, observed by reading the bytes `[1, 0]`. Which
/// of the two it is depends on the machine, so no more is stated here.
pub fn native_byte_order() -> (order: ByteOrder) {
    byte_order_of_probe(u16_from_native_bytes(1, 0))
}

fn read_u16(order: ByteOrder, first: u8, second: u8) -> (value: u16)
    ensures
        value == u16_in(order, first, second),
{
    match order {
        ByteOrder::LittleEndian => first as u16 + 256 * second as u16,
        ByteOrder::BigEndian => second as u16 + 256 * first as u16,
    }
}

fn write_u16(order: ByteOrder, value: u16) -> (bytes: (u8, u8))
    ensures
        bytes == (first_byte(order, value), second_byte(order, value)),
{
    let low = (value % 256) as u8;
    let high = (value / 256) as u8;
    match order {
        ByteOrder::LittleEndian => (low, high),
        ByteOrder::BigEndian => (high, low),
    }
}

/// Channel `channel` (0 red, 1 green, 2 blue) of entry `index` in a DRM
/// color LUT blob.
pub open spec fn lut_entry(bytes: Seq<u8>, order: ByteOrder, index: int, channel: int) -> u16 {
    u16_in(order, bytes[8 * index + 2 * channel], bytes[8 * index + 2 * channel + 1])
}

/// The channel-major ramp a DRM color LUT blob of `size` entries holds.
pub open spec fn spec_decode_drm_lut(bytes: Seq<u8>, size: nat, order: ByteOrder) -> Option<Seq<u16>> {
    if bytes.len() != 8 * size {
        None
    } else {
        Some(Seq::new(3 * size, |k: int| lut_entry(bytes, order, k % (size as int), k / (size as int))))
    }
}

/// Decodes a DRM color LUT blob of `size` entries into a channel-major ramp.
pub fn decode_drm_lut(bytes: &[u8], size: u32, order: ByteOrder) -> (ramp: Option<Vec<u16>>)
    ensures
        match ramp {
            Some(ramp) => spec_decode_drm_lut(bytes@, size as nat, order) == Some(ramp@),
            None => spec_decode_drm_lut(bytes@, size as nat, order) is None,
        },
{
    let size = size as usize;
    let length = bytes.len();
    if length % 8 != 0 || length / 8 != size {
        return None;
    }
    let mut red: Vec<u16> = Vec::new();
    let mut green: Vec<u16> = Vec::new();
    let mut blue: Vec<u16> = Vec::new();
    let mut index: usize = 0;
    while index < size
        invariant
            bytes@.len() == 8 * size,
            length == bytes@.len(),
            index <= size,
            red@.len() == index,
            green@.len() == index,
            blue@.len() == index,
            forall|i: int| 0 <= i < index ==> #[trigger] red@[i] == lut_entry(bytes@, order, i, 0),
            forall|i: int| 0 <= i < index ==> #[trigger] green@[i] == lut_entry(bytes@, order, i, 1),
            forall|i: int| 0 <= i < index ==> #[trigger] blue@[i] == lut_entry(bytes@, order, i, 2),
        decreases size - index,
    {
        let base = index * 8;
        red.push(read_u16(order, bytes[base], bytes[base + 1]));
        green.push(read_u16(order, bytes[base + 2], bytes[base + 3]));
        blue.push(read_u16(order, bytes[base + 4], bytes[base + 5]));
        index = index + 1;
    }
    let mut ramp = red;
    ramp.append(&mut green);
    ramp.append(&mut blue);
    proof {
        let s = size as int;
        let spec_ramp = Seq::new(3 * size as nat, |k: int| lut_entry(bytes@, order, k % s, k / s));
        assert forall|k: int| 0 <= k < 3 * s implies ramp@[k] == #[trigger] spec_ramp[k] by {
            if k < s {
                assert(k % s == k && k / s == 0) by (nonlinear_arith)
                    requires
                        0 <= k < s,
                ;
            } else if k < 2 * s {
                assert((k - s) == k % s && k / s == 1) by (nonlinear_arith)
                    requires
                        s <= k < 2 * s,
                ;
            } else {
                assert((k - 2 * s) == k % s && k / s == 2) by (nonlinear_arith)
                    requires
                        2 * s <= k < 3 * s,
                ;
            }
        }
        assert(ramp@ =~= spec_ramp);
    }
    Some(ramp)
}

/// A channel value dimmed to `level_percent` percent, rounded to nearest
/// with halves rounded up. The product is exact: where it ends in exactly
/// one half, this rounds up, while scaling by the level as a binary float
/// (`value * 0.29`) can land just below the half and round down, as for
/// value 50 at 29 percent (15 here, 14 in floating point).
pub open spec fn dimmed(value: u16, level_percent: u8) -> u16 {
    ((value as int * level_percent as int + 50) / 100) as u16
}

/// Byte `k` of the DRM color LUT blob for a channel-major ramp of `size`
/// entries dimmed to `level_percent` percent.
pub open spec fn lut_byte(ramp: Seq<u16>, size: int, level_percent: u8, order: ByteOrder, k: int) -> u8 {
    let index = k / 8;
    let offset = k % 8;
    if offset >= 6 {
        0
    } else {
        let value = dimmed(ramp[(offset / 2) * size + index], level_percent);
        if offset % 2 == 0 {
            first_byte(order, value)
        } else {
            second_byte(order, value)
        }
    }
}

/// The DRM color LUT blob for a ramp dimmed to `level_percent` percent.
pub open spec fn spec_compose_drm_lut(ramp: Seq<u16>, size: nat, level_percent: u8, order: ByteOrder) -> Seq<u8> {
    Seq::new(8 * size, |k: int| lut_byte(ramp, size as int, level_percent, order, k))
}

fn dim(value: u16, level_percent: u8) -> (out: u16)
    requires
        level_percent <= 100,
    ensures
        out == dimmed(value, level_percent),
        out <= value,
{
    assert(value as int * level_percent as int <= 65535 * 100) by (nonlinear_arith)
        requires
            level_percent <= 100,
            value <= 65535,
    ;
    let scaled: u32 = value as u32 * level_percent as u32 + 50;
    assert(scaled / 100 <= value) by (nonlinear_arith)
        requires
            scaled == value as int * level_percent as int + 50,
            level_percent <= 100,
    ;
    (scaled / 100) as u16
}

/// Interleaves a channel-major ramp, dimmed to `level_percent` percent, into
/// the kernel's color LUT blob layout.
pub fn compose_drm_lut(ramp: &[u16], size: usize, level_percent: u8, order: ByteOrder) -> (bytes: Vec<u8>)
    requires
        ramp@.len() >= 3 * size,
        8 * size <= usize::MAX,
    ensures
        bytes@ == spec_compose_drm_lut(ramp@, size as nat, if level_percent < 100 { level_percent } else { 100 }, order),
{
    let level = if level_percent < 100 { level_percent } else { 100 };
    let ghost s = size as int;
    let mut bytes: Vec<u8> = Vec::new();
    let mut index: usize = 0;
    while index < size
        invariant
            ramp@.len() >= 3 * size,
            8 * size <= usize::MAX,
            level <= 100,
            s == size,
            index <= size,
            bytes@.len() == 8 * index,
            forall|k: int| 0 <= k < 8 * index ==> #[trigger] bytes@[k] == lut_byte(ramp@, s, level, order, k),
        decreases size - index,
    {
        let ghost before = bytes@;
        let mut channel: usize = 0;
        while channel < 3
            invariant
                ramp@.len() >= 3 * size,
                8 * size <= usize::MAX,
                level <= 100,
                s == size,
                index < size,
                channel <= 3,
                bytes@.len() == 8 * index + 2 * channel,
                forall|k: int| 0 <= k < 8 * index ==> #[trigger] bytes@[k] == before[k],
                forall|c: int| 0 <= c < channel ==> {
                    &&& #[trigger] bytes@[8 * index + 2 * c] == first_byte(order, dimmed(ramp@[c * s + index], level))
                    &&& bytes@[8 * index + 2 * c + 1] == second_byte(order, dimmed(ramp@[c * s + index], level))
                },
            decreases 3 - channel,
        {
            assert(channel * size + index < 3 * size) by (nonlinear_arith)
                requires
                    channel < 3,
                    index < size,
            ;
            let value = dim(ramp[channel * size + index], level);
            let (first, second) = write_u16(order, value);
            let ghost pushed_before = bytes@;
            bytes.push(first);
            bytes.push(second);
            proof {
                assert(bytes@[8 * index + 2 * channel] == first);
                assert(bytes@[8 * index + 2 * channel + 1] == second);
                assert forall|c: int| 0 <= c < channel + 1 implies {
                    &&& #[trigger] bytes@[8 * index + 2 * c] == first_byte(order, dimmed(ramp@[c * s + index], level))
                    &&& bytes@[8 * index + 2 * c + 1] == second_byte(order, dimmed(ramp@[c * s + index], level))
                } by {
                    if c < channel {
                        assert(bytes@[8 * index + 2 * c] == pushed_before[8 * index + 2 * c]);
                        assert(bytes@[8 * index + 2 * c + 1] == pushed_before[8 * index + 2 * c + 1]);
                    }
                }
            }
            channel = channel + 1;
        }
        bytes.push(0);
        bytes.push(0);
        proof {
            assert forall|k: int| 0 <= k < 8 * (index + 1) implies #[trigger] bytes@[k] == lut_byte(ramp@, s, level, order, k) by {
                if k >= 8 * index {
                    let offset = k - 8 * index;
                    assert(k / 8 == index && k % 8 == offset) by (nonlinear_arith)
                        requires
                            offset == k - 8 * index,
                            0 <= offset < 8,
                    ;
                    if offset < 6 {
                        let c = offset / 2;
                        assert(offset == 2 * c || offset == 2 * c + 1);
                        assert(0 <= c < 3);
                        assert(bytes@[8 * index + 2 * c] == first_byte(order, dimmed(ramp@[c * s + index], level)));
                    }
                }
            }
        }
        index = index + 1;
    }
    proof {
        assert(bytes@ =~= spec_compose_drm_lut(ramp@, size as nat, level, order));
    }
    bytes
}

/// One channel of the linear ramp: entry `index` of `size`, spread evenly
/// over the full `u16` range.
pub open spec fn linear_entry(index: int, size: int) -> u16 {
    let denominator = if size - 1 > 1 { size - 1 } else { 1 };
    (index * 65535 / denominator) as u16
}

/// The identity gamma ramp: three identical channels spanning `0..=65535`.
pub open spec fn spec_linear_ramp(size: nat) -> Seq<u16> {
    Seq::new(3 * size, |k: int| linear_entry(k % (size as int), size as int))
}

pub fn linear_ramp(size: u32) -> (ramp: Vec<u16>)
    requires
        3 * size <= usize::MAX,
    ensures
        ramp@ == spec_linear_ramp(size as nat),
{
    let below = if size > 0 { size - 1 } else { 0 };
    let denominator: u64 = if below > 1 { below as u64 } else { 1 };
    let mut channel: Vec<u16> = Vec::new();
    let mut index: u32 = 0;
    while index < size
        invariant
            index <= size,
            denominator == (if size as int - 1 > 1 { size as int - 1 } else { 1 }),
            channel@.len() == index,
            forall|i: int| 0 <= i < index ==> #[trigger] channel@[i] == linear_entry(i, size as int),
        decreases size - index,
    {
        let numerator: u64 = index as u64 * 65535;
        assert(numerator / denominator <= 65535) by (nonlinear_arith)
            requires
                numerator == index as int * 65535,
                index < size,
                denominator == (if size as int - 1 > 1 { size as int - 1 } else { 1 }),
        ;
        channel.push((numerator / denominator) as u16);
        index = index + 1;
    }
    let mut ramp: Vec<u16> = Vec::new();
    let entries: usize = 3 * size as usize;
    let width: usize = size as usize;
    let mut k: usize = 0;
    while k < entries
        invariant
            entries == 3 * size,
            width == size,
            channel@.len() == size,
            forall|i: int| 0 <= i < size ==> #[trigger] channel@[i] == linear_entry(i, size as int),
            k <= entries,
            ramp@.len() == k,
            forall|j: int| 0 <= j < k ==> #[trigger] ramp@[j] == linear_entry(j % (size as int), size as int),
        decreases entries - k,
    {
        let i = k % width;
        ramp.push(channel[i]);
        k = k + 1;
    }
    assert(ramp@ =~= spec_linear_ramp(size as nat));
    ramp
}

/// Decoding a composed LUT at full level gives back the ramp it was built
/// from, whatever the byte order; at any level it gives the dimmed ramp.
pub proof fn law_compose_then_decode(ramp: Seq<u16>, size: nat, level_percent: u8, order: ByteOrder)
    requires
        ramp.len() == 3 * size,
        level_percent <= 100,
    ensures
        spec_decode_drm_lut(spec_compose_drm_lut(ramp, size, level_percent, order), size, order) == Some(
            Seq::new(3 * size, |k: int| dimmed(ramp[k], level_percent)),
        ),
        spec_decode_drm_lut(spec_compose_drm_lut(ramp, size, 100, order), size, order) == Some(ramp),
{
    let s = size as int;
    assert forall|level: u8| level <= 100 implies spec_decode_drm_lut(spec_compose_drm_lut(ramp, size, level, order), size, order)
        == Some(Seq::new(3 * size, |k: int| dimmed(ramp[k], level))) by {
        let bytes = spec_compose_drm_lut(ramp, size, level, order);
        let decoded = Seq::new(3 * size, |k: int| lut_entry(bytes, order, k % s, k / s));
        let wanted = Seq::new(3 * size, |k: int| dimmed(ramp[k], level));
        assert forall|k: int| 0 <= k < 3 * s implies decoded[k] == wanted[k] by {
            let index = k % s;
            let channel = k / s;
            assert(0 <= index < s && 0 <= channel < 3 && channel * s + index == k) by (nonlinear_arith)
                requires
                    0 <= k < 3 * s,
                    index == k % s,
                    channel == k / s,
            ;
            let first = 8 * index + 2 * channel;
            assert(first / 8 == index && first % 8 == 2 * channel) by (nonlinear_arith)
                requires
                    first == 8 * index + 2 * channel,
                    0 <= channel < 3,
                    0 <= index,
            ;
            assert((first + 1) / 8 == index && (first + 1) % 8 == 2 * channel + 1) by (nonlinear_arith)
                requires
                    first == 8 * index + 2 * channel,
                    0 <= channel < 3,
                    0 <= index,
            ;
            assert(first + 1 < 8 * s) by (nonlinear_arith)
                requires
                    first == 8 * index + 2 * channel,
                    0 <= channel < 3,
                    0 <= index < s,
            ;
            lemma_u16_bytes_round_trip(order, dimmed(ramp[k], level));
        }
        assert(decoded =~= wanted);
    }
    assert forall|k: int| 0 <= k < 3 * s implies dimmed(ramp[k], 100) == ramp[k] by {
        assert((ramp[k] as int * 100 + 50) / 100 == ramp[k] as int) by (nonlinear_arith);
    }
    assert(Seq::new(3 * size, |k: int| dimmed(ramp[k], 100)) =~= ramp);
}

} // verus!
