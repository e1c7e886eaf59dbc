use vstd::prelude::*;
use crate::channels::{ChannelDescriptor, ChannelSample, GroupKind, check_group, read_descriptors,
    decode_group_frames};
use crate::cursor::{ByteCursor, read_i16, read_i32, read_f32_bits};
use crate::errors::DecodeError;
use crate::header::BaseData;

verus! {

broadcast use crate::cursor::lemma_cursor_position_wf;

/// A pose table holds at most this many frames; a segment never covers
/// more.
pub const MAX_SEGMENT_FRAMES: u16 = 60;

/// One decoded segment: its frame range, its three channel groups unpacked
/// to integer samples frame by frame, the bounds tables they refer to as raw
/// float patterns, and the byte offset of the next segment.
pub struct SegmentData {
    /// First frame this segment covers, as the file counts frames.
    pub start_frame: i16,
    pub frame_count: u16,
    /// Sparse keyframe indices, already made relative to `start_frame`.
    pub sparse_frames_rel: Vec<u16>,
    /// Per-segment global position bounds (a lower and an upper corner).
    pub pos_global_lo_bits: [u32; 3],
    pub pos_global_hi_bits: [u32; 3],
    /// Bounds-table entries for each group: `(lower, upper)` corners.
    pub pos_bounds_bits: Vec<([u32; 3], [u32; 3])>,
    pub rot_bounds_bits: Vec<([u32; 3], [u32; 3])>,
    pub sparse_bounds_bits: Vec<([u32; 3], [u32; 3])>,
    pub pos_descriptors: Vec<ChannelDescriptor>,
    pub rot_descriptors: Vec<ChannelDescriptor>,
    pub sparse_descriptors: Vec<ChannelDescriptor>,
    /// Unpacked samples: one entry per frame, one sample per channel.
    pub pos_frames: Vec<Vec<ChannelSample>>,
    pub rot_frames: Vec<Vec<ChannelSample>>,
    /// One entry per sparse keyframe, in the order the file lists them.
    pub sparse_samples: Vec<Vec<ChannelSample>>,
    /// Where the next segment starts.
    pub end_offset: usize,
}

impl SegmentData {
    /// The decoded tables are sized consistently with the channel maps of
    /// `base` and with this segment's own frame range.
    pub open spec fn wf(&self, base: &BaseData) -> bool {
        &&& self.frame_count <= MAX_SEGMENT_FRAMES
        &&& self.pos_frames@.len() == self.frame_count
        &&& self.rot_frames@.len() == self.frame_count
        &&& self.sparse_samples@.len() == self.sparse_frames_rel@.len()
        &&& self.pos_descriptors@.len() == base.pos_full_map@.len()
        &&& self.rot_descriptors@.len() == base.rot_full_map@.len()
        &&& self.sparse_descriptors@.len() == base.sparse_map@.len()
        &&& forall|m: int|
            0 <= m < self.pos_frames@.len() ==> (#[trigger] self.pos_frames@[m])@.len()
                == base.pos_full_map@.len()
        &&& forall|m: int|
            0 <= m < self.rot_frames@.len() ==> (#[trigger] self.rot_frames@[m])@.len()
                == base.rot_full_map@.len()
        &&& forall|m: int|
            0 <= m < self.sparse_samples@.len() ==> (#[trigger] self.sparse_samples@[m])@.len()
                == base.sparse_map@.len()
        &&& forall|m: int|
            0 <= m < self.sparse_frames_rel@.len() ==> #[trigger] self.sparse_frames_rel@[m]
                < MAX_SEGMENT_FRAMES
    }
}

/// Reads a raw float triple (three little-endian 32-bit patterns).
pub fn read_bits_triple(c: &mut ByteCursor) -> (r: Result<[u32; 3], DecodeError>)
    ensures
        final(c).bytes() == old(c).bytes(),
        match r {
            Ok(t) => {
                &&& old(c).can_read(12)
                &&& final(c).position() == old(c).position() + 12
                &&& forall|k: int|
                    0 <= k < 3 ==> #[trigger] t@[k] == vstd::bytes::spec_u32_from_le_bytes(
                        old(c).bytes().subrange(
                            old(c).position() + 4 * k,
                            old(c).position() + 4 * k + 4,
                        ),
                    )
            },
            Err(e) => e == DecodeError::ShortRead && !old(c).can_read(12),
        },
{
    let x = read_f32_bits(c)?;
    let y = read_f32_bits(c)?;
    let z = read_f32_bits(c)?;
    Ok([x, y, z])
}

/// The bounds-table entry laid out at `base + 24 * i`: a lower corner and
/// an upper corner, three little-endian 32-bit float patterns each.
pub open spec fn spec_bounds_pair(bytes: Seq<u8>, base: int, i: int) -> ([u32; 3], [u32; 3]) {
    (
        [
            vstd::bytes::spec_u32_from_le_bytes(bytes.subrange(base + 24 * i, base + 24 * i + 4)),
            vstd::bytes::spec_u32_from_le_bytes(
                bytes.subrange(base + 24 * i + 4, base + 24 * i + 8),
            ),
            vstd::bytes::spec_u32_from_le_bytes(
                bytes.subrange(base + 24 * i + 8, base + 24 * i + 12),
            ),
        ],
        [
            vstd::bytes::spec_u32_from_le_bytes(
                bytes.subrange(base + 24 * i + 12, base + 24 * i + 16),
            ),
            vstd::bytes::spec_u32_from_le_bytes(
                bytes.subrange(base + 24 * i + 16, base + 24 * i + 20),
            ),
            vstd::bytes::spec_u32_from_le_bytes(
                bytes.subrange(base + 24 * i + 20, base + 24 * i + 24),
            ),
        ],
    )
}

/// Reads `count` bounds-table entries: a lower corner and an upper corner,
/// three raw floats each.
pub fn read_bounds_pairs(c: &mut ByteCursor, count: u16) -> (r: Result<
    Vec<([u32; 3], [u32; 3])>,
    DecodeError,
>)
    ensures
        final(c).bytes() == old(c).bytes(),
        match r {
            Ok(v) => {
                &&& old(c).can_read(24 * count)
                &&& v@.len() == count
                &&& final(c).position() == old(c).position() + 24 * count
                &&& forall|i: int|
                    0 <= i < count ==> #[trigger] v@[i] == spec_bounds_pair(
                        old(c).bytes(),
                        old(c).position(),
                        i,
                    )
            },
            Err(e) => e == DecodeError::ShortRead && !old(c).can_read(24 * count),
        },
{
    if (c.tell() as u64) > (c.len() as u64) || 24 * (count as u64) > (c.len() as u64) - (c.tell()
        as u64) {
        return Err(DecodeError::ShortRead);
    }
    let mut v: Vec<([u32; 3], [u32; 3])> = Vec::new();
    let mut i: usize = 0;
    while i < count as usize
        invariant
            i <= count,
            c.bytes() == old(c).bytes(),
            old(c).position() + 24 * count <= old(c).bytes().len(),
            c.position() == old(c).position() + 24 * i,
            v@.len() == i,
            forall|j: int|
                0 <= j < i ==> #[trigger] v@[j] == spec_bounds_pair(
                    old(c).bytes(),
                    old(c).position(),
                    j,
                ),
        decreases count - i,
    {
        let lo = match read_bits_triple(c) {
            Ok(t) => t,
            Err(_) => {
                proof {
                    assert(false);
                }
                return Err(DecodeError::ShortRead);
            },
        };
        let hi = match read_bits_triple(c) {
            Ok(t) => t,
            Err(_) => {
                proof {
                    assert(false);
                }
                return Err(DecodeError::ShortRead);
            },
        };
        v.push((lo, hi));
        proof {
            let pair = spec_bounds_pair(old(c).bytes(), old(c).position(), i as int);
            assert(lo@ =~= pair.0@);
            assert(hi@ =~= pair.1@);
            assert(lo == pair.0);
            assert(hi == pair.1);
        }
        i = i + 1;
    }
    Ok(v)
}

/// Reads a nonnegative 16-bit count; a negative value is a format error.
pub fn read_count16(c: &mut ByteCursor) -> (r: Result<u16, DecodeError>)
    ensures
        final(c).bytes() == old(c).bytes(),
        match r {
            Ok(v) => {
                &&& v <= 0x7FFF
                &&& v == crate::cursor::spec_i16_from_le_bytes(
                    old(c).bytes().subrange(old(c).position(), old(c).position() + 2),
                )
                &&& old(c).can_read(2)
                &&& final(c).position() == old(c).position() + 2
            },
            Err(e) => {
                ||| (e == DecodeError::ShortRead && !old(c).can_read(2))
                ||| (e matches DecodeError::IndexOutOfRange { .. } && old(c).can_read(2)
                    && crate::cursor::spec_i16_from_le_bytes(
                    old(c).bytes().subrange(old(c).position(), old(c).position() + 2),
                ) < 0)
            },
        },
{
    let v = read_i16(c)?;
    if v < 0 {
        return Err(DecodeError::IndexOutOfRange { index: v as i64, limit: 0x7FFF });
    }
    Ok(v as u16)
}

/// A segment the decoder is bound to accept, starting at `e` with data
/// region `reg`: every count is sane, every table and frame buffer lands in
/// the buffer, every bit width fits the unpacker and its frame budget, and
/// every sparse keyframe falls in the pose table's range.
pub open spec fn spec_segment_parseable(data: Seq<u8>, e: int, reg: int, base: &BaseData) -> bool {
    let num24 = crate::cursor::spec_i32_from_le_bytes(data.subrange(e, e + 4)) as int;
    let start = crate::cursor::spec_i16_from_le_bytes(data.subrange(e + 8, e + 10)) as int;
    let frames = crate::cursor::spec_i16_from_le_bytes(data.subrange(e + 10, e + 12)) as int;
    let sc = crate::cursor::spec_i16_from_le_bytes(data.subrange(e + 16, e + 18)) as int;
    let pb = crate::cursor::spec_i16_from_le_bytes(data.subrange(e + 22, e + 24)) as int;
    let rb = crate::cursor::spec_i16_from_le_bytes(data.subrange(e + 24, e + 26)) as int;
    let sb = crate::cursor::spec_i16_from_le_bytes(data.subrange(e + 26, e + 28)) as int;
    let nbp = crate::cursor::spec_i16_from_le_bytes(data.subrange(e + 34, e + 36)) as int;
    let nbr = crate::cursor::spec_i16_from_le_bytes(data.subrange(e + 36, e + 38)) as int;
    let nbs = crate::cursor::spec_i16_from_le_bytes(data.subrange(e + 38, e + 40)) as int;
    let p_cnt = base.pos_full_map@.len() as int;
    let r_cnt = base.rot_full_map@.len() as int;
    let s_cnt = base.sparse_map@.len() as int;
    let d0 = e + 160 + 24 * nbp;
    let pd = Seq::new(p_cnt as nat, |i: int| crate::channels::spec_descriptor(data, d0, i));
    let f0 = crate::cursor::spec_align4(reg, d0 + 9 * p_cnt);
    let bp1 = crate::cursor::spec_align4(reg, f0 + frames * pb);
    let d1 = bp1 + 24 * nbr;
    let rd = Seq::new(r_cnt as nat, |i: int| crate::channels::spec_descriptor(data, d1, i));
    let f1 = crate::cursor::spec_align4(reg, d1 + 9 * r_cnt);
    let sl0 = crate::cursor::spec_align4(reg, f1 + frames * rb);
    let bp2 = crate::cursor::spec_align4(reg, sl0 + 2 * sc);
    let d2 = bp2 + 24 * nbs;
    let sd = Seq::new(s_cnt as nat, |i: int| crate::channels::spec_descriptor(data, d2, i));
    let f2 = crate::cursor::spec_align4(reg, d2 + 9 * s_cnt);
    &&& data.len() + 3 <= usize::MAX
    &&& 0 <= e
    &&& e + 160 <= data.len()
    &&& 0 <= reg <= e + 160
    &&& 0 <= num24
    &&& e + 4 + num24 <= usize::MAX
    &&& 0 <= frames <= 60
    &&& 0 <= sc
    &&& 0 <= pb
    &&& 0 <= rb
    &&& 0 <= sb
    &&& 0 <= nbp
    &&& 0 <= nbr
    &&& 0 <= nbs
    &&& d0 + 9 * p_cnt <= data.len()
    &&& crate::channels::spec_widths_ok(pd)
    &&& crate::channels::spec_bits_prefix(pd, p_cnt) <= 8 * pb
    &&& f0 + frames * pb <= data.len()
    &&& d1 + 9 * r_cnt <= data.len()
    &&& crate::channels::spec_widths_ok(rd)
    &&& crate::channels::spec_bits_prefix(rd, r_cnt) <= 8 * rb
    &&& f1 + frames * rb <= data.len()
    &&& sl0 + 2 * sc <= data.len()
    &&& (forall|m: int|
        0 <= m < sc ==> 0 <= crate::cursor::spec_i16_from_le_bytes(
            #[trigger] data.subrange(sl0 + 2 * m, sl0 + 2 * m + 2),
        ) - start < 60)
    &&& d2 + 9 * s_cnt <= data.len()
    &&& crate::channels::spec_widths_ok(sd)
    &&& crate::channels::spec_bits_prefix(sd, s_cnt) <= 8 * sb
    &&& f2 + sc * sb <= data.len()
}

/// Decodes one segment, cursor at the segment's length field. Reads the
/// segment header, then, between aligned re-seeks into the shared data
/// region: the position-full bounds, descriptors and per-frame bitstreams;
/// the rotation-full ones; the sparse keyframe list; and the
/// position-sparse ones. Leaves the cursor at the declared end of the
/// segment, so one segment's failure modes cannot corrupt the next one's
/// position.
#[verifier::rlimit(100)]
pub fn decode_segment(c: &mut ByteCursor, region_start: usize, base: &BaseData) -> (r: Result<
    SegmentData,
    DecodeError,
>)
    requires
        base.pos_full_map@.len() <= 0x8000,
        base.rot_full_map@.len() <= 0x8000,
        base.sparse_map@.len() <= 0x8000,
    ensures
        final(c).bytes() == old(c).bytes(),
        spec_segment_parseable(old(c).bytes(), old(c).position(), region_start as int, base) ==> r
            is Ok,
        match r {
            Ok(seg) => ({
                let data = old(c).bytes();
                let e = old(c).position();
                let reg = region_start as int;
                let pb = crate::cursor::spec_i16_from_le_bytes(data.subrange(e + 22, e + 24)) as int;
                let rb = crate::cursor::spec_i16_from_le_bytes(data.subrange(e + 24, e + 26)) as int;
                let sb = crate::cursor::spec_i16_from_le_bytes(data.subrange(e + 26, e + 28)) as int;
                let frames = seg.frame_count as int;
                let bp0 = e + 160;
                let d0 = bp0 + 24 * seg.pos_bounds_bits@.len();
                let f0 = crate::cursor::spec_align4(reg, d0 + 9 * seg.pos_descriptors@.len());
                let bp1 = crate::cursor::spec_align4(reg, f0 + frames * pb);
                let d1 = bp1 + 24 * seg.rot_bounds_bits@.len();
                let f1 = crate::cursor::spec_align4(reg, d1 + 9 * seg.rot_descriptors@.len());
                let sl0 = crate::cursor::spec_align4(reg, f1 + frames * rb);
                let bp2 = crate::cursor::spec_align4(
                    reg,
                    sl0 + 2 * seg.sparse_frames_rel@.len(),
                );
                let d2 = bp2 + 24 * seg.sparse_bounds_bits@.len();
                let f2 = crate::cursor::spec_align4(reg, d2 + 9 * seg.sparse_descriptors@.len());
                &&& seg.wf(base)
                &&& final(c).position() == seg.end_offset
                &&& seg.end_offset == e + 4 + crate::cursor::spec_i32_from_le_bytes(
                    data.subrange(e, e + 4),
                )
                &&& seg.start_frame == crate::cursor::spec_i16_from_le_bytes(
                    data.subrange(e + 8, e + 10),
                )
                &&& seg.frame_count == crate::cursor::spec_i16_from_le_bytes(
                    data.subrange(e + 10, e + 12),
                )
                &&& seg.sparse_frames_rel@.len() == crate::cursor::spec_i16_from_le_bytes(
                    data.subrange(e + 16, e + 18),
                )
                &&& seg.pos_global_lo_bits@ == crate::skeleton::spec_padded_triple_bits(
                    data,
                    e + 44,
                    0,
                )@
                &&& seg.pos_global_hi_bits@ == crate::skeleton::spec_padded_triple_bits(
                    data,
                    e + 56,
                    0,
                )@
                &&& seg.pos_bounds_bits@.len() == crate::cursor::spec_i16_from_le_bytes(
                    data.subrange(e + 34, e + 36),
                )
                &&& seg.rot_bounds_bits@.len() == crate::cursor::spec_i16_from_le_bytes(
                    data.subrange(e + 36, e + 38),
                )
                &&& seg.sparse_bounds_bits@.len() == crate::cursor::spec_i16_from_le_bytes(
                    data.subrange(e + 38, e + 40),
                )
                &&& forall|i: int|
                    0 <= i < seg.pos_bounds_bits@.len() ==> #[trigger] seg.pos_bounds_bits@[i]
                        == spec_bounds_pair(data, bp0, i)
                &&& forall|i: int|
                    0 <= i < seg.pos_descriptors@.len() ==> #[trigger] seg.pos_descriptors@[i]
                        == crate::channels::spec_descriptor(data, d0, i)
                &&& forall|m: int|
                    0 <= m < frames ==> (#[trigger] seg.pos_frames@[m])@
                        == crate::channels::spec_group_frame(
                        seg.pos_descriptors@,
                        data.subrange(f0 + m * pb, f0 + (m + 1) * pb),
                        GroupKind::PositionFull,
                    )
                &&& forall|i: int|
                    0 <= i < seg.rot_bounds_bits@.len() ==> #[trigger] seg.rot_bounds_bits@[i]
                        == spec_bounds_pair(data, bp1, i)
                &&& forall|i: int|
                    0 <= i < seg.rot_descriptors@.len() ==> #[trigger] seg.rot_descriptors@[i]
                        == crate::channels::spec_descriptor(data, d1, i)
                &&& forall|m: int|
                    0 <= m < frames ==> (#[trigger] seg.rot_frames@[m])@
                        == crate::channels::spec_group_frame(
                        seg.rot_descriptors@,
                        data.subrange(f1 + m * rb, f1 + (m + 1) * rb),
                        GroupKind::RotationFull,
                    )
                &&& forall|m: int|
                    0 <= m < seg.sparse_frames_rel@.len()
                        ==> #[trigger] seg.sparse_frames_rel@[m] as int
                        == crate::cursor::spec_i16_from_le_bytes(
                        data.subrange(sl0 + 2 * m, sl0 + 2 * m + 2),
                    ) - seg.start_frame
                &&& forall|i: int|
                    0 <= i < seg.sparse_bounds_bits@.len()
                        ==> #[trigger] seg.sparse_bounds_bits@[i] == spec_bounds_pair(
                        data,
                        bp2,
                        i,
                    )
                &&& forall|i: int|
                    0 <= i < seg.sparse_descriptors@.len() ==> #[trigger] seg.sparse_descriptors@[
                    i] == crate::channels::spec_descriptor(data, d2, i)
                &&& forall|m: int|
                    0 <= m < seg.sparse_samples@.len() ==> (#[trigger] seg.sparse_samples@[m])@
                        == crate::channels::spec_group_frame(
                        seg.sparse_descriptors@,
                        data.subrange(f2 + m * sb, f2 + (m + 1) * sb),
                        GroupKind::PositionSparse,
                    )
            }),
            Err(e_) => {
                ||| e_ == DecodeError::ShortRead
                ||| e_ matches DecodeError::IndexOutOfRange { .. }
                ||| e_ matches DecodeError::UnsupportedBitWidth { .. }
                ||| e_ matches DecodeError::TruncatedChannelData { .. }
            },
        },
{
    let ghost gdata = old(c).bytes();
    let ghost ge = old(c).position();
    let ghost greg = region_start as int;
    let ghost gparse = spec_segment_parseable(gdata, ge, greg, base);
    let num24 = read_i32(c)?;
    if num24 < 0 || (c.tell() as u128) + (num24 as u128) > usize::MAX as u128 {
        return Err(DecodeError::IndexOutOfRange { index: num24 as i64, limit: usize::MAX as u64 });
    }
    let end_offset: usize = c.tell() + num24 as usize;
    c.seek_relative(4)?;
    let start_frame = read_i16(c)?;
    let frames = read_count16(c)?;
    if frames > MAX_SEGMENT_FRAMES {
        return Err(
            DecodeError::IndexOutOfRange { index: frames as i64, limit: MAX_SEGMENT_FRAMES as u64 },
        );
    }
    c.seek_relative(4)?;
    let sparse_count = read_count16(c)?;
    c.seek_relative(4)?;
    let pos_bytes = read_count16(c)?;
    let rot_bytes = read_count16(c)?;
    let sparse_bytes = read_count16(c)?;
    c.seek_relative(6)?;
    let pos_bounds_count = read_count16(c)?;
    let rot_bounds_count = read_count16(c)?;
    let sparse_bounds_count = read_count16(c)?;
    c.seek_relative(4)?;
    let ghost lo_pos = c.position();
    let pos_global_lo_bits = read_bits_triple(c)?;
    let pos_global_hi_bits = read_bits_triple(c)?;
    proof {
        assert(pos_global_lo_bits@ =~= crate::skeleton::spec_padded_triple_bits(
            c.bytes(),
            lo_pos,
            0,
        )@);
        assert(pos_global_hi_bits@ =~= crate::skeleton::spec_padded_triple_bits(
            c.bytes(),
            lo_pos + 12,
            0,
        )@);
    }
    c.seek_relative(92)?;

    // Full-rate positions: bounds, descriptors, then one bit-packed buffer
    // per frame.
    let pos_bounds_bits = read_bounds_pairs(c, pos_bounds_count)?;
    let pos_channels: u16 = base.pos_full_map.len() as u16;
    let pos_descriptors = read_descriptors(c, pos_channels)?;
    proof {
        if gparse {
            let nbp = crate::cursor::spec_i16_from_le_bytes(gdata.subrange(ge + 34, ge + 36))
                as int;
            let d0 = ge + 160 + 24 * nbp;
            assert(pos_descriptors@ =~= Seq::new(
                base.pos_full_map@.len(),
                |i: int| crate::channels::spec_descriptor(gdata, d0, i),
            ));
        }
    }
    check_group(&pos_descriptors, pos_bytes as u32)?;
    c.align_to_region(region_start)?;
    let pos_frames = decode_group_frames(c, &pos_descriptors, frames, pos_bytes,
        GroupKind::PositionFull)?;

    // Full-rate rotations.
    c.align_to_region(region_start)?;
    let rot_bounds_bits = read_bounds_pairs(c, rot_bounds_count)?;
    let rot_channels: u16 = base.rot_full_map.len() as u16;
    let rot_descriptors = read_descriptors(c, rot_channels)?;
    proof {
        if gparse {
            let nbp = crate::cursor::spec_i16_from_le_bytes(gdata.subrange(ge + 34, ge + 36))
                as int;
            let nbr = crate::cursor::spec_i16_from_le_bytes(gdata.subrange(ge + 36, ge + 38))
                as int;
            let pb = crate::cursor::spec_i16_from_le_bytes(gdata.subrange(ge + 22, ge + 24))
                as int;
            let frames_ = crate::cursor::spec_i16_from_le_bytes(gdata.subrange(ge + 10, ge + 12))
                as int;
            let d0 = ge + 160 + 24 * nbp;
            let f0 = crate::cursor::spec_align4(greg, d0 + 9 * base.pos_full_map@.len());
            let bp1 = crate::cursor::spec_align4(greg, f0 + frames_ * pb);
            let d1 = bp1 + 24 * nbr;
            assert(rot_descriptors@ =~= Seq::new(
                base.rot_full_map@.len(),
                |i: int| crate::channels::spec_descriptor(gdata, d1, i),
            ));
        }
    }
    check_group(&rot_descriptors, rot_bytes as u32)?;
    c.align_to_region(region_start)?;
    let rot_frames = decode_group_frames(c, &rot_descriptors, frames, rot_bytes,
        GroupKind::RotationFull)?;

    // The sparse keyframe list, as absolute frame indices.
    c.align_to_region(region_start)?;
    let sparse_abs = crate::header::read_i16_array(c, sparse_count)?;
    proof {
        if gparse {
            assert forall|j: int| 0 <= j < sparse_abs@.len() implies 0 <= (
            #[trigger] sparse_abs@[j]) as int - start_frame < 60 by {
                let nbp = crate::cursor::spec_i16_from_le_bytes(gdata.subrange(ge + 34, ge + 36))
                    as int;
                let nbr = crate::cursor::spec_i16_from_le_bytes(gdata.subrange(ge + 36, ge + 38))
                    as int;
                let pb = crate::cursor::spec_i16_from_le_bytes(gdata.subrange(ge + 22, ge + 24))
                    as int;
                let rb = crate::cursor::spec_i16_from_le_bytes(gdata.subrange(ge + 24, ge + 26))
                    as int;
                let frames_ = crate::cursor::spec_i16_from_le_bytes(
                    gdata.subrange(ge + 10, ge + 12),
                ) as int;
                let d0 = ge + 160 + 24 * nbp;
                let f0 = crate::cursor::spec_align4(greg, d0 + 9 * base.pos_full_map@.len());
                let bp1 = crate::cursor::spec_align4(greg, f0 + frames_ * pb);
                let d1 = bp1 + 24 * nbr;
                let f1 = crate::cursor::spec_align4(greg, d1 + 9 * base.rot_full_map@.len());
                let sl0 = crate::cursor::spec_align4(greg, f1 + frames_ * rb);
                assert(sparse_abs@[j] == crate::cursor::spec_i16_from_le_bytes(
                    gdata.subrange(sl0 + 2 * j, sl0 + 2 * j + 2),
                ));
            }
        }
    }
    let mut sparse_frames_rel: Vec<u16> = Vec::new();
    let mut i: usize = 0;
    while i < sparse_abs.len()
        invariant
            i <= sparse_abs@.len(),
            c.bytes() == old(c).bytes(),
            gdata == old(c).bytes(),
            ge == old(c).position(),
            greg == region_start as int,
            gparse == spec_segment_parseable(gdata, ge, greg, base),
            gparse ==> (forall|j: int|
                0 <= j < sparse_abs@.len() ==> 0 <= (#[trigger] sparse_abs@[j]) as int
                    - start_frame < 60),
            sparse_frames_rel@.len() == i,
            forall|j: int|
                0 <= j < i ==> #[trigger] sparse_frames_rel@[j] < MAX_SEGMENT_FRAMES,
            forall|j: int|
                0 <= j < i ==> #[trigger] sparse_frames_rel@[j] as int == sparse_abs@[j]
                    - start_frame,
        decreases sparse_abs@.len() - i,
    {
        let rel: i32 = sparse_abs[i] as i32 - start_frame as i32;
        if rel < 0 || rel >= MAX_SEGMENT_FRAMES as i32 {
            return Err(
                DecodeError::IndexOutOfRange { index: rel as i64, limit: MAX_SEGMENT_FRAMES as u64 },
            );
        }
        sparse_frames_rel.push(rel as u16);
        i = i + 1;
    }

    // Sparse positions: bounds, descriptors, then one buffer per listed
    // keyframe.
    c.align_to_region(region_start)?;
    let sparse_bounds_bits = read_bounds_pairs(c, sparse_bounds_count)?;
    let sparse_channels: u16 = base.sparse_map.len() as u16;
    let sparse_descriptors = read_descriptors(c, sparse_channels)?;
    proof {
        if gparse {
            let nbp = crate::cursor::spec_i16_from_le_bytes(gdata.subrange(ge + 34, ge + 36))
                as int;
            let nbr = crate::cursor::spec_i16_from_le_bytes(gdata.subrange(ge + 36, ge + 38))
                as int;
            let nbs = crate::cursor::spec_i16_from_le_bytes(gdata.subrange(ge + 38, ge + 40))
                as int;
            let pb = crate::cursor::spec_i16_from_le_bytes(gdata.subrange(ge + 22, ge + 24))
                as int;
            let rb = crate::cursor::spec_i16_from_le_bytes(gdata.subrange(ge + 24, ge + 26))
                as int;
            let sc = crate::cursor::spec_i16_from_le_bytes(gdata.subrange(ge + 16, ge + 18))
                as int;
            let frames_ = crate::cursor::spec_i16_from_le_bytes(gdata.subrange(ge + 10, ge + 12))
                as int;
            let d0 = ge + 160 + 24 * nbp;
            let f0 = crate::cursor::spec_align4(greg, d0 + 9 * base.pos_full_map@.len());
            let bp1 = crate::cursor::spec_align4(greg, f0 + frames_ * pb);
            let d1 = bp1 + 24 * nbr;
            let f1 = crate::cursor::spec_align4(greg, d1 + 9 * base.rot_full_map@.len());
            let sl0 = crate::cursor::spec_align4(greg, f1 + frames_ * rb);
            let bp2 = crate::cursor::spec_align4(greg, sl0 + 2 * sc);
            let d2 = bp2 + 24 * nbs;
            assert(sparse_descriptors@ =~= Seq::new(
                base.sparse_map@.len(),
                |i: int| crate::channels::spec_descriptor(gdata, d2, i),
            ));
        }
    }
    check_group(&sparse_descriptors, sparse_bytes as u32)?;
    c.align_to_region(region_start)?;
    let sparse_samples = decode_group_frames(c, &sparse_descriptors, sparse_count, sparse_bytes,
        GroupKind::PositionSparse)?;

    c.seek_absolute(end_offset);
    Ok(
        SegmentData {
            start_frame,
            frame_count: frames,
            sparse_frames_rel,
            pos_global_lo_bits,
            pos_global_hi_bits,
            pos_bounds_bits,
            rot_bounds_bits,
            sparse_bounds_bits,
            pos_descriptors,
            rot_descriptors,
            sparse_descriptors,
            pos_frames,
            rot_frames,
            sparse_samples,
            end_offset,
        },
    )
}

/// The frames a linear fill writes between two consecutive sparse
/// keyframes: every frame strictly between `prev` and `next`, paired with
/// its step `k` out of `gap = next - prev`. The interpolated value for step
/// `k` is `previous + (next - previous) * k / gap`; `spec_lerp_scaled`
/// states that numerator exactly.
pub fn interpolation_steps(prev: u16, next: u16) -> (r: Vec<(u16, u16)>)
    ensures
        next > prev ==> r@.len() == next - prev - 1,
        next <= prev ==> r@.len() == 0,
        forall|j: int|
            0 <= j < r@.len() ==> #[trigger] r@[j] == (((prev + 1 + j) as u16), ((j + 1) as u16)),
{
    let mut r: Vec<(u16, u16)> = Vec::new();
    if next <= prev {
        return r;
    }
    let mut k: u16 = 1;
    while k < next - prev
        invariant
            prev < next,
            1 <= k <= next - prev,
            r@.len() == k - 1,
            forall|j: int|
                0 <= j < r@.len() ==> #[trigger] r@[j] == (((prev + 1 + j) as u16), ((j + 1)
                    as u16)),
        decreases next - prev - k,
    {
        r.push((prev + k, k));
        k = k + 1;
    }
    r
}

/// The linear fill between two samples, scaled by the gap to stay in
/// integers: `gap` times the value interpolated at step `k` between `a` and
/// `b`.
pub open spec fn spec_lerp_scaled(a: int, b: int, k: int, gap: int) -> int {
    a * gap + (b - a) * k
}

/// Linear interpolation is exact at the endpoints and at every rational
/// step: at step 0 it returns the earlier sample, at step `gap` the later
/// one, and half way between samples `0` and `v` it returns exactly `v / 2`
/// scaled by the gap.
pub proof fn lemma_interpolation_exact(a: int, b: int, gap: int)
    requires
        gap > 0,
    ensures
        spec_lerp_scaled(a, b, 0, gap) == a * gap,
        spec_lerp_scaled(a, b, gap, gap) == b * gap,
        spec_lerp_scaled(0, b, gap, 2 * gap) == b * gap,
{
    assert(a * gap + (b - a) * gap == b * gap) by (nonlinear_arith);
}

/// Where the segment count sits: the 32-bit pointer just past the region
/// end, plus a fixed 40-byte bias, counted from the position after that
/// pointer.
pub open spec fn spec_segment_count_pos(data: Seq<u8>, region_end: int) -> int {
    region_end + 8 + crate::cursor::spec_i32_from_le_bytes(
        data.subrange(region_end + 4, region_end + 8),
    ) + 40
}

/// Positions the cursor at the segment table that follows the data region
/// and reads the segment count: a pointer just past the region end leads,
/// with a fixed bias, to the count.
pub fn open_segment_table(c: &mut ByteCursor, region_end: usize) -> (r: Result<i32, DecodeError>)
    ensures
        final(c).bytes() == old(c).bytes(),
        match r {
            Ok(count) => ({
                let p = spec_segment_count_pos(old(c).bytes(), region_end as int);
                &&& 0 <= p
                &&& p + 4 <= old(c).bytes().len()
                &&& count == crate::cursor::spec_i32_from_le_bytes(
                    old(c).bytes().subrange(p, p + 4),
                )
                &&& final(c).position() == p + 4
            }),
            Err(e) => {
                ||| e == DecodeError::ShortRead
                ||| e matches DecodeError::IndexOutOfRange { .. }
            },
        },
{
    if region_end > usize::MAX - 4 {
        return Err(DecodeError::ShortRead);
    }
    c.seek_absolute(region_end + 4);
    let myst = read_i32(c)?;
    c.seek_relative(myst as i64 + 40)?;
    let count = read_i32(c)?;
    Ok(count)
}

} // verus!
