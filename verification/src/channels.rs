use vstd::prelude::*;
use vstd::arithmetic::power2::pow2;
use crate::bits::{spec_unpack, unpack_bits, fraction_denominator};
use crate::cursor::ByteCursor;
use crate::errors::DecodeError;

verus! {

broadcast use crate::cursor::lemma_cursor_position_wf;

/// One channel's nine descriptor bytes: a bit width, a fixed coarse byte and
/// a bounds-table index for each of the three axes.
#[derive(Clone, Copy, PartialEq, Eq, Structural, Debug)]
pub struct ChannelDescriptor {
    pub width_x: u8,
    pub width_y: u8,
    pub width_z: u8,
    pub coarse_x: u8,
    pub coarse_y: u8,
    pub coarse_z: u8,
    pub bounds_x: u8,
    pub bounds_y: u8,
    pub bounds_z: u8,
}

/// The three channel-group shapes a segment decodes. They differ only in
/// which bounds index serves the y axis and in the denominator of a maxed-out
/// residual; the group-level reconstruction around them is the caller's.
#[derive(Clone, Copy, PartialEq, Eq, Structural, Debug)]
pub enum GroupKind {
    PositionFull,
    RotationFull,
    PositionSparse,
}

/// The descriptor laid out at `base + 9 * i` in a buffer: the three widths,
/// then the three coarse bytes, then the three bounds indices.
pub open spec fn spec_descriptor(bytes: Seq<u8>, base: int, i: int) -> ChannelDescriptor {
    ChannelDescriptor {
        width_x: bytes[base + 9 * i],
        width_y: bytes[base + 9 * i + 1],
        width_z: bytes[base + 9 * i + 2],
        coarse_x: bytes[base + 9 * i + 3],
        coarse_y: bytes[base + 9 * i + 4],
        coarse_z: bytes[base + 9 * i + 5],
        bounds_x: bytes[base + 9 * i + 6],
        bounds_y: bytes[base + 9 * i + 7],
        bounds_z: bytes[base + 9 * i + 8],
    }
}

/// Reads `count` nine-byte channel descriptors.
pub fn read_descriptors(c: &mut ByteCursor, count: u16) -> (r: Result<
    Vec<ChannelDescriptor>,
    DecodeError,
>)
    ensures
        final(c).bytes() == old(c).bytes(),
        match r {
            Ok(v) => {
                &&& old(c).can_read(9 * count)
                &&& final(c).position() == old(c).position() + 9 * count
                &&& v@.len() == count
                &&& forall|i: int|
                    0 <= i < count ==> v@[i] == #[trigger] spec_descriptor(
                        old(c).bytes(),
                        old(c).position(),
                        i,
                    )
            },
            Err(e) => {
                &&& e == DecodeError::ShortRead
                &&& !old(c).can_read(9 * count)
                &&& final(c).position() == old(c).position()
            },
        },
{
    let need: usize = 9 * (count as usize);
    let base = c.tell();
    let bytes = c.read_exact(need)?;
    let mut v: Vec<ChannelDescriptor> = Vec::new();
    let mut i: usize = 0;
    while i < count as usize
        invariant
            i <= count,
            bytes@.len() == 9 * count,
            v@.len() == i,
            forall|j: int|
                0 <= j < i ==> v@[j] == #[trigger] spec_descriptor(bytes@, 0, j),
        decreases count - i,
    {
        let d = ChannelDescriptor {
            width_x: bytes[9 * i],
            width_y: bytes[9 * i + 1],
            width_z: bytes[9 * i + 2],
            coarse_x: bytes[9 * i + 3],
            coarse_y: bytes[9 * i + 4],
            coarse_z: bytes[9 * i + 5],
            bounds_x: bytes[9 * i + 6],
            bounds_y: bytes[9 * i + 7],
            bounds_z: bytes[9 * i + 8],
        };
        v.push(d);
        i = i + 1;
    }
    proof {
        assert forall|i_: int| 0 <= i_ < count implies v@[i_] == #[trigger] spec_descriptor(
            old(c).bytes(),
            old(c).position(),
            i_,
        ) by {
            assert(v@[i_] == spec_descriptor(bytes@, 0, i_));
            assert(bytes@ == old(c).bytes().subrange(
                old(c).position(),
                old(c).position() + 9 * count,
            ));
        }
    }
    Ok(v)
}

/// One unpacked scalar: the raw quantized value, the width it was packed
/// with, the denominator that turns it into a fraction, the bounds-table
/// index its axis uses and the channel's fixed coarse byte for that axis.
#[derive(Clone, Copy, PartialEq, Eq, Structural, Debug)]
pub struct AxisSample {
    pub raw: u64,
    pub width: u8,
    pub denominator: u64,
    pub bounds_index: u8,
    pub coarse: u8,
}

/// One channel's three unpacked scalars for one frame.
#[derive(Clone, Copy, PartialEq, Eq, Structural, Debug)]
pub struct ChannelSample {
    pub x: AxisSample,
    pub y: AxisSample,
    pub z: AxisSample,
}

/// Bits consumed by the first `i` channels of a group in one frame.
pub open spec fn spec_bits_prefix(descs: Seq<ChannelDescriptor>, i: int) -> int
    decreases i,
{
    if i <= 0 {
        0
    } else {
        spec_bits_prefix(descs, i - 1) + descs[i - 1].width_x + descs[i - 1].width_y + descs[i
            - 1].width_z
    }
}

pub proof fn lemma_bits_prefix_mono(descs: Seq<ChannelDescriptor>, i: int, j: int)
    requires
        0 <= i <= j,
    ensures
        spec_bits_prefix(descs, i) <= spec_bits_prefix(descs, j),
    decreases j - i,
{
    if i < j {
        lemma_bits_prefix_mono(descs, i, j - 1);
    }
}

/// Every width in the group fits the unpacker's 63-bit accumulator.
pub open spec fn spec_widths_ok(descs: Seq<ChannelDescriptor>) -> bool {
    forall|i: int|
        0 <= i < descs.len() ==> (#[trigger] descs[i]).width_x <= 63 && descs[i].width_y <= 63
            && descs[i].width_z <= 63
}

/// Which bounds-table index serves the y axis. The full-rate position group
/// reuses the x index for y; the other two groups use the y index. The
/// asymmetry is the format's, preserved deliberately.
pub open spec fn spec_bounds_y(kind: GroupKind, d: ChannelDescriptor) -> u8 {
    if kind is PositionFull {
        d.bounds_x
    } else {
        d.bounds_y
    }
}

/// Whether the group divides a maxed-out nonzero residual by `2^w - 1`.
pub open spec fn spec_maxed(kind: GroupKind) -> bool {
    kind is PositionSparse
}

/// The denominator paired with a raw value of width `w` in this group.
pub open spec fn spec_denominator(kind: GroupKind, raw: nat, w: nat) -> int {
    if spec_maxed(kind) && raw > 0 {
        pow2(w) - 1
    } else {
        pow2(w) as int
    }
}

/// The sample of channel `i` in one frame buffer: the three scalars unpacked
/// in x, y, z order starting at the channel's bit offset.
pub open spec fn spec_channel_sample(
    descs: Seq<ChannelDescriptor>,
    frame: Seq<u8>,
    kind: GroupKind,
    i: int,
) -> ChannelSample {
    let d = descs[i];
    let start = spec_bits_prefix(descs, i);
    let raw_x = spec_unpack(frame, start, d.width_x as nat);
    let raw_y = spec_unpack(frame, start + d.width_x, d.width_y as nat);
    let raw_z = spec_unpack(frame, start + d.width_x + d.width_y, d.width_z as nat);
    ChannelSample {
        x: AxisSample {
            raw: raw_x as u64,
            width: d.width_x,
            denominator: spec_denominator(kind, raw_x, d.width_x as nat) as u64,
            bounds_index: d.bounds_x,
            coarse: d.coarse_x,
        },
        y: AxisSample {
            raw: raw_y as u64,
            width: d.width_y,
            denominator: spec_denominator(kind, raw_y, d.width_y as nat) as u64,
            bounds_index: spec_bounds_y(kind, d),
            coarse: d.coarse_y,
        },
        z: AxisSample {
            raw: raw_z as u64,
            width: d.width_z,
            denominator: spec_denominator(kind, raw_z, d.width_z as nat) as u64,
            bounds_index: d.bounds_z,
            coarse: d.coarse_z,
        },
    }
}

/// The whole frame: one sample per channel.
pub open spec fn spec_group_frame(
    descs: Seq<ChannelDescriptor>,
    frame: Seq<u8>,
    kind: GroupKind,
) -> Seq<ChannelSample> {
    Seq::new(descs.len(), |i: int| spec_channel_sample(descs, frame, kind, i))
}

/// Checks the group's widths and the bytes one frame needs, so that frame
/// unpacking cannot run out of either accumulator bits or buffer. Fails with
/// `UnsupportedBitWidth` when a descriptor asks for more than 63 bits, and
/// with `TruncatedChannelData` when the widths sum to more bytes than the
/// segment declares for one frame.
pub fn check_group(descs: &Vec<ChannelDescriptor>, declared_bytes: u32) -> (r: Result<
    (),
    DecodeError,
>)
    requires
        descs@.len() <= 0x8000,
    ensures
        match r {
            Ok(()) => spec_widths_ok(descs@) && spec_bits_prefix(descs@, descs@.len() as int) <= 8
                * declared_bytes,
            Err(e) => {
                ||| (e matches DecodeError::UnsupportedBitWidth { width } && !spec_widths_ok(
                    descs@,
                ))
                ||| (e matches DecodeError::TruncatedChannelData { needed_bytes, declared_bytes: d }
                    && spec_widths_ok(descs@) && d == declared_bytes && spec_bits_prefix(
                    descs@,
                    descs@.len() as int,
                ) > 8 * declared_bytes)
            },
        },
{
    let mut total: u32 = 0;
    let mut i: usize = 0;
    while i < descs.len()
        invariant
            i <= descs@.len() <= 0x8000,
            total == spec_bits_prefix(descs@, i as int),
            total <= 189 * i,
            forall|j: int|
                0 <= j < i ==> (#[trigger] descs@[j]).width_x <= 63 && descs@[j].width_y <= 63
                    && descs@[j].width_z <= 63,
        decreases descs@.len() - i,
    {
        let d = descs[i];
        if d.width_x > 63 {
            return Err(DecodeError::UnsupportedBitWidth { width: d.width_x });
        }
        if d.width_y > 63 {
            return Err(DecodeError::UnsupportedBitWidth { width: d.width_y });
        }
        if d.width_z > 63 {
            return Err(DecodeError::UnsupportedBitWidth { width: d.width_z });
        }
        total = total + d.width_x as u32 + d.width_y as u32 + d.width_z as u32;
        i = i + 1;
    }
    if (total as u64) > 8 * (declared_bytes as u64) {
        let needed = crate::bits::bytes_for_bits(total);
        return Err(DecodeError::TruncatedChannelData {
            needed_bytes: needed,
            declared_bytes,
        });
    }
    Ok(())
}

/// Unpacks every channel of one frame from that frame's bit-packed buffer.
/// The buffer must hold the bytes the group declares per frame, already
/// validated by `check_group`.
pub fn decode_group_frame(
    descs: &Vec<ChannelDescriptor>,
    frame: &Vec<u8>,
    kind: GroupKind,
) -> (samples: Vec<ChannelSample>)
    requires
        spec_widths_ok(descs@),
        spec_bits_prefix(descs@, descs@.len() as int) <= 8 * frame@.len(),
        8 * frame@.len() <= u32::MAX,
    ensures
        samples@ == spec_group_frame(descs@, frame@, kind),
{
    let maxed = match kind {
        GroupKind::PositionSparse => true,
        _ => false,
    };
    let mut samples: Vec<ChannelSample> = Vec::new();
    let mut bit: usize = 0;
    let mut i: usize = 0;
    while i < descs.len()
        invariant
            i <= descs@.len(),
            bit == spec_bits_prefix(descs@, i as int),
            spec_widths_ok(descs@),
            spec_bits_prefix(descs@, descs@.len() as int) <= 8 * frame@.len(),
            8 * frame@.len() <= u32::MAX,
            maxed == spec_maxed(kind),
            samples@.len() == i,
            forall|j: int|
                0 <= j < i ==> samples@[j] == #[trigger] spec_channel_sample(
                    descs@,
                    frame@,
                    kind,
                    j,
                ),
        decreases descs@.len() - i,
    {
        let d = descs[i];
        proof {
            lemma_bits_prefix_mono(descs@, (i + 1) as int, descs@.len() as int);
            assert(spec_bits_prefix(descs@, (i + 1) as int) == spec_bits_prefix(
                descs@,
                i as int,
            ) + d.width_x + d.width_y + d.width_z);
        }
        let raw_x = unpack_bits(frame, bit, d.width_x);
        let raw_y = unpack_bits(frame, bit + d.width_x as usize, d.width_y);
        let raw_z = unpack_bits(
            frame,
            bit + d.width_x as usize + d.width_y as usize,
            d.width_z,
        );
        let den_x = fraction_denominator(raw_x, d.width_x, maxed);
        let den_y = fraction_denominator(raw_y, d.width_y, maxed);
        let den_z = fraction_denominator(raw_z, d.width_z, maxed);
        let bounds_y = match kind {
            GroupKind::PositionFull => d.bounds_x,
            _ => d.bounds_y,
        };
        let s = ChannelSample {
            x: AxisSample {
                raw: raw_x,
                width: d.width_x,
                denominator: den_x,
                bounds_index: d.bounds_x,
                coarse: d.coarse_x,
            },
            y: AxisSample {
                raw: raw_y,
                width: d.width_y,
                denominator: den_y,
                bounds_index: bounds_y,
                coarse: d.coarse_y,
            },
            z: AxisSample {
                raw: raw_z,
                width: d.width_z,
                denominator: den_z,
                bounds_index: d.bounds_z,
                coarse: d.coarse_z,
            },
        };
        samples.push(s);
        bit = bit + d.width_x as usize + d.width_y as usize + d.width_z as usize;
        i = i + 1;
    }
    proof {
        assert(samples@ =~= spec_group_frame(descs@, frame@, kind));
    }
    samples
}

/// Reads and unpacks `frame_count` consecutive frames of one channel group,
/// `bytes_per_frame` bytes each, from the cursor. Frame `m` of the result is
/// exactly the unpacking of the `m`-th such slice.
pub fn decode_group_frames(
    c: &mut ByteCursor,
    descs: &Vec<ChannelDescriptor>,
    frame_count: u16,
    bytes_per_frame: u16,
    kind: GroupKind,
) -> (r: Result<Vec<Vec<ChannelSample>>, DecodeError>)
    requires
        spec_widths_ok(descs@),
        spec_bits_prefix(descs@, descs@.len() as int) <= 8 * bytes_per_frame,
    ensures
        final(c).bytes() == old(c).bytes(),
        match r {
            Ok(frames) => {
                &&& old(c).can_read(frame_count * bytes_per_frame)
                &&& final(c).position() == old(c).position() + frame_count * bytes_per_frame
                &&& frames@.len() == frame_count
                &&& forall|m: int|
                    0 <= m < frame_count ==> (#[trigger] frames@[m])@ == spec_group_frame(
                        descs@,
                        old(c).bytes().subrange(
                            old(c).position() + m * bytes_per_frame,
                            old(c).position() + (m + 1) * bytes_per_frame,
                        ),
                        kind,
                    )
            },
            Err(e) => {
                &&& e == DecodeError::ShortRead
                &&& !old(c).can_read(frame_count * bytes_per_frame)
            },
        },
{
    let mut frames: Vec<Vec<ChannelSample>> = Vec::new();
    let mut m: usize = 0;
    // Checking the whole run up front keeps the cursor untouched on failure.
    proof {
        assert((frame_count as u64) * (bytes_per_frame as u64) < 0x1_0000_0000u64)
            by (nonlinear_arith)
            requires frame_count <= 0xFFFFu64 && bytes_per_frame <= 0xFFFFu64;
    }
    let total: u64 = (frame_count as u64) * (bytes_per_frame as u64);
    if (c.tell() as u64) > (c.len() as u64) || total > (c.len() as u64) - (c.tell() as u64) {
        return Err(DecodeError::ShortRead);
    }
    while m < frame_count as usize
        invariant
            m <= frame_count,
            spec_widths_ok(descs@),
            spec_bits_prefix(descs@, descs@.len() as int) <= 8 * bytes_per_frame,
            c.bytes() == old(c).bytes(),
            old(c).position() + frame_count * bytes_per_frame <= old(c).bytes().len(),
            c.position() == old(c).position() + m * bytes_per_frame,
            frames@.len() == m,
            forall|k: int|
                0 <= k < m ==> (#[trigger] frames@[k])@ == spec_group_frame(
                    descs@,
                    old(c).bytes().subrange(
                        old(c).position() + k * bytes_per_frame,
                        old(c).position() + (k + 1) * bytes_per_frame,
                    ),
                    kind,
                ),
        decreases frame_count - m,
    {
        proof {
            vstd::arithmetic::mul::lemma_mul_inequality(
                (m + 1) as int,
                frame_count as int,
                bytes_per_frame as int,
            );
            assert((m + 1) * (bytes_per_frame as int) == m * (bytes_per_frame as int)
                + bytes_per_frame) by (nonlinear_arith);
        }
        let buf = match c.read_exact(bytes_per_frame as usize) {
            Ok(b) => b,
            Err(_) => {
                proof {
                    assert(false);
                }
                return Err(DecodeError::ShortRead);
            },
        };
        proof {
            assert(c.position() == old(c).position() + (m + 1) * bytes_per_frame);
            assert(buf@.len() == bytes_per_frame as int);
            assert(spec_bits_prefix(descs@, descs@.len() as int) <= 8 * buf@.len());
        }
        let samples = decode_group_frame(descs, &buf, kind);
        frames.push(samples);
        m = m + 1;
    }
    Ok(frames)
}

} // verus!
