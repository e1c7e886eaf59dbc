use vstd::prelude::*;
use crate::cursor::{ByteCursor, read_i32, read_i16, read_u16, read_u8, read_f32_bits,
    spec_i16_from_le_bytes};
use crate::errors::DecodeError;

verus! {

broadcast use crate::cursor::lemma_cursor_position_wf;

/// The position of the first nonzero byte at or after `p`; the buffer's
/// length when there is none.
pub open spec fn spec_nonzero_pos(bytes: Seq<u8>, p: int) -> int
    decreases bytes.len() - p,
{
    if p >= bytes.len() {
        bytes.len() as int
    } else if bytes[p] != 0 {
        p
    } else {
        spec_nonzero_pos(bytes, p + 1)
    }
}

/// The nonzero scan never moves backwards.
pub proof fn lemma_nonzero_pos_ge(bytes: Seq<u8>, p: int)
    requires
        p <= bytes.len(),
    ensures
        spec_nonzero_pos(bytes, p) >= p,
    decreases bytes.len() - p,
{
    if p < bytes.len() && bytes[p] == 0 {
        lemma_nonzero_pos_ge(bytes, p + 1);
    }
}

/// The terminator scan never moves backwards.
pub proof fn lemma_nul_pos_ge(bytes: Seq<u8>, p: int)
    requires
        p <= bytes.len(),
    ensures
        crate::skeleton::spec_nul_pos(bytes, p) >= p,
    decreases bytes.len() - p,
{
    if p < bytes.len() && bytes[p] != 0 {
        lemma_nul_pos_ge(bytes, p + 1);
    }
}

/// Where the free-form preamble ends: the scan looks for a run of at least
/// 25 zero bytes followed by a nonzero byte, skipping one zero-terminated
/// token after every shorter run. The result is the position just after
/// that nonzero byte; `None` when the scan runs off the end.
pub open spec fn spec_preamble_end(bytes: Seq<u8>, p: int) -> Option<int>
    decreases bytes.len() - p,
    via spec_preamble_end_decreases
{
    if p < 0 || p > bytes.len() {
        None
    } else {
        let q = spec_nonzero_pos(bytes, p);
        if q >= bytes.len() {
            None
        } else if q - p >= 25 {
            Some(q + 1)
        } else {
            let z = crate::skeleton::spec_nul_pos(bytes, q + 1);
            if z >= bytes.len() {
                None
            } else {
                spec_preamble_end(bytes, z + 1)
            }
        }
    }
}

#[via_fn]
proof fn spec_preamble_end_decreases(bytes: Seq<u8>, p: int) {
    if 0 <= p <= bytes.len() {
        let q = spec_nonzero_pos(bytes, p);
        lemma_nonzero_pos_ge(bytes, p);
        if q < bytes.len() && q - p < 25 {
            lemma_nul_pos_ge(bytes, q + 1);
        }
    }
}

/// Skips the sequence file's free-form preamble: counts runs of zero bytes,
/// skipping one token after each run shorter than 25 zeros, and stops just
/// after the nonzero byte that ends the first run of 25 or more.
pub fn skip_preamble(c: &mut ByteCursor) -> (r: Result<(), DecodeError>)
    requires
        old(c).position() <= old(c).bytes().len(),
    ensures
        final(c).bytes() == old(c).bytes(),
        match r {
            Ok(()) => {
                &&& spec_preamble_end(old(c).bytes(), old(c).position()) matches Some(e)
                &&& final(c).position() == spec_preamble_end(old(c).bytes(), old(
                    c,
                ).position())->Some_0
            },
            Err(e) => {
                &&& e == DecodeError::ShortRead
                &&& spec_preamble_end(old(c).bytes(), old(c).position()) is None
            },
        },
{
    loop
        invariant
            c.bytes() == old(c).bytes(),
            c.position() <= c.bytes().len(),
            spec_preamble_end(c.bytes(), old(c).position()) == spec_preamble_end(
                c.bytes(),
                c.position(),
            ),
        decreases c.bytes().len() - c.position(),
    {
        let ghost round_start = c.position();
        let mut n: u64 = 0;
        // Count the zero bytes of this run; the loop consumes the nonzero
        // byte that ends it.
        loop
            invariant_except_break
                c.bytes() == old(c).bytes(),
                0 <= round_start,
                round_start <= c.position() <= c.bytes().len(),
                n == c.position() - round_start,
                spec_preamble_end(c.bytes(), old(c).position()) == spec_preamble_end(
                    c.bytes(),
                    round_start,
                ),
                spec_nonzero_pos(c.bytes(), round_start) == spec_nonzero_pos(
                    c.bytes(),
                    c.position(),
                ),
            ensures
                c.bytes() == old(c).bytes(),
                spec_preamble_end(c.bytes(), old(c).position()) == spec_preamble_end(
                    c.bytes(),
                    round_start,
                ),
                round_start <= spec_nonzero_pos(c.bytes(), round_start),
                spec_nonzero_pos(c.bytes(), round_start) < c.bytes().len(),
                c.position() == spec_nonzero_pos(c.bytes(), round_start) + 1,
                n == spec_nonzero_pos(c.bytes(), round_start) - round_start,
            decreases c.bytes().len() - c.position(),
        {
            let ghost pos_before = c.position();
            let b = match read_u8(c) {
                Ok(b) => b,
                Err(_) => {
                    proof {
                        assert(spec_nonzero_pos(c.bytes(), round_start) == c.bytes().len() as int);
                        assert(spec_preamble_end(c.bytes(), round_start) is None);
                    }
                    return Err(DecodeError::ShortRead);
                },
            };
            if b != 0 {
                proof {
                    assert(spec_nonzero_pos(c.bytes(), pos_before) == pos_before);
                }
                break ;
            }
            n = n + 1;
            proof {
                assert(spec_nonzero_pos(c.bytes(), pos_before) == spec_nonzero_pos(
                    c.bytes(),
                    pos_before + 1,
                ));
            }
        }
        if n >= 25 {
            return Ok(());
        }
        // A short run: skip the rest of this token, up to and including its
        // zero terminator.
        let ghost token_start = c.position();
        loop
            invariant_except_break
                c.bytes() == old(c).bytes(),
                0 <= round_start <= c.bytes().len(),
                token_start == spec_nonzero_pos(c.bytes(), round_start) + 1,
                spec_nonzero_pos(c.bytes(), round_start) < c.bytes().len(),
                spec_nonzero_pos(c.bytes(), round_start) - round_start < 25,
                spec_preamble_end(c.bytes(), old(c).position()) == spec_preamble_end(
                    c.bytes(),
                    round_start,
                ),
                token_start <= c.position() <= c.bytes().len(),
                crate::skeleton::spec_nul_pos(c.bytes(), token_start)
                    == crate::skeleton::spec_nul_pos(c.bytes(), c.position()),
            ensures
                c.bytes() == old(c).bytes(),
                spec_preamble_end(c.bytes(), old(c).position()) == spec_preamble_end(
                    c.bytes(),
                    round_start,
                ),
                token_start == spec_nonzero_pos(c.bytes(), round_start) + 1,
                spec_nonzero_pos(c.bytes(), round_start) < c.bytes().len(),
                spec_nonzero_pos(c.bytes(), round_start) - round_start < 25,
                0 <= round_start <= c.bytes().len(),
                token_start <= crate::skeleton::spec_nul_pos(c.bytes(), token_start),
                crate::skeleton::spec_nul_pos(c.bytes(), token_start) < c.bytes().len(),
                c.position() == crate::skeleton::spec_nul_pos(c.bytes(), token_start) + 1,
            decreases c.bytes().len() - c.position(),
        {
            let ghost pos_before = c.position();
            let b = match read_u8(c) {
                Ok(b) => b,
                Err(_) => {
                    proof {
                        assert(crate::skeleton::spec_nul_pos(c.bytes(), token_start)
                            == c.bytes().len() as int);
                        assert(spec_preamble_end(c.bytes(), round_start) is None);
                    }
                    return Err(DecodeError::ShortRead);
                },
            };
            if b == 0 {
                proof {
                    assert(crate::skeleton::spec_nul_pos(c.bytes(), pos_before) == pos_before);
                }
                break ;
            }
            proof {
                assert(crate::skeleton::spec_nul_pos(c.bytes(), pos_before)
                    == crate::skeleton::spec_nul_pos(c.bytes(), pos_before + 1));
            }
        }
    }
}

/// Checks the two redundant region-length fields and the animation-type
/// field. The two lengths must agree and the animation type must be 3, the
/// one encoding this decoder understands.
pub fn validate_header(expected: i32, actual: i32, animation_type: i32) -> (r: Result<
    (),
    DecodeError,
>)
    ensures
        match r {
            Ok(()) => actual == expected && animation_type == 3,
            Err(e) => {
                ||| (e == (DecodeError::HeaderMismatch { expected, actual }) && actual != expected)
                ||| (e == (DecodeError::UnsupportedAnimationType { actual: animation_type })
                    && actual == expected && animation_type != 3)
            },
        },
{
    if actual != expected {
        return Err(DecodeError::HeaderMismatch { expected, actual });
    }
    if animation_type != 3 {
        return Err(DecodeError::UnsupportedAnimationType { actual: animation_type });
    }
    Ok(())
}

/// The fixed header that follows the preamble: the validated region length
/// and animation type, the duration and frame rate as raw float patterns,
/// and the two positions every later seek is relative to.
pub struct SequenceHeader {
    pub region_length: i32,
    pub animation_type: i32,
    pub duration_bits: u32,
    pub fps_bits: u32,
    /// Base of the data region; aligned seeks are relative to this.
    pub data_region_start: usize,
    /// `data_region_start + region_length`: the segment table pointer sits
    /// just past this.
    pub region_end: usize,
}

/// A sequence header the parser is bound to accept, starting the preamble
/// scan at `p`: the preamble ends, every header field fits in the buffer,
/// the redundant lengths agree, the animation type is the supported one,
/// the region length is sane, and the seek past the base-pose pointer lands
/// inside the buffer.
pub open spec fn spec_sequence_parseable(data: Seq<u8>, p: int) -> bool {
    match spec_preamble_end(data, p) {
        Option::None => false,
        Option::Some(e) => {
            &&& e + 67 <= data.len()
            &&& crate::cursor::spec_i32_from_le_bytes(data.subrange(e + 7, e + 11))
                == crate::cursor::spec_i32_from_le_bytes(data.subrange(e + 11, e + 15))
            &&& crate::cursor::spec_i32_from_le_bytes(data.subrange(e + 7, e + 11)) >= 0
            &&& crate::cursor::spec_i32_from_le_bytes(data.subrange(e + 19, e + 23)) == 3
            &&& e + 19 + crate::cursor::spec_i32_from_le_bytes(data.subrange(e + 7, e + 11))
                <= usize::MAX
            &&& 0 <= e + 19 + crate::cursor::spec_i32_from_le_bytes(data.subrange(e + 63, e + 67))
            &&& e + 19 + crate::cursor::spec_i32_from_le_bytes(data.subrange(e + 63, e + 67))
                <= data.len()
        },
    }
}

/// Parses the fixed sequence header that follows the preamble and leaves
/// the cursor at the base-pose region. Validates the redundant length
/// fields as soon as both are read — a truncated file still reports their
/// mismatch — then the animation type. A header that satisfies
/// `spec_sequence_parseable` is always accepted.
pub fn parse_sequence_header(c: &mut ByteCursor) -> (r: Result<SequenceHeader, DecodeError>)
    requires
        old(c).position() <= old(c).bytes().len(),
    ensures
        final(c).bytes() == old(c).bytes(),
        spec_sequence_parseable(old(c).bytes(), old(c).position()) ==> r is Ok,
        match r {
            Ok(h) => {
                let data = old(c).bytes();
                let e = spec_preamble_end(data, old(c).position())->Some_0;
                &&& spec_preamble_end(data, old(c).position()) is Some
                &&& h.region_length == crate::cursor::spec_i32_from_le_bytes(
                    data.subrange(e + 7, e + 11),
                )
                &&& crate::cursor::spec_i32_from_le_bytes(data.subrange(e + 11, e + 15))
                    == h.region_length
                &&& h.animation_type == 3
                &&& crate::cursor::spec_i32_from_le_bytes(data.subrange(e + 19, e + 23)) == 3
                &&& h.data_region_start == e + 19
                &&& h.duration_bits == vstd::bytes::spec_u32_from_le_bytes(
                    data.subrange(e + 43, e + 47),
                )
                &&& h.fps_bits == vstd::bytes::spec_u32_from_le_bytes(
                    data.subrange(e + 47, e + 51),
                )
                &&& h.region_end == h.data_region_start + h.region_length
                &&& h.data_region_start <= final(c).bytes().len()
            },
            Err(e_) => {
                let data = old(c).bytes();
                &&& (e_ matches DecodeError::HeaderMismatch { expected, actual } ==> ({
                    let e = spec_preamble_end(data, old(c).position())->Some_0;
                    &&& spec_preamble_end(data, old(c).position()) is Some
                    &&& expected == crate::cursor::spec_i32_from_le_bytes(
                        data.subrange(e + 7, e + 11),
                    )
                    &&& actual == crate::cursor::spec_i32_from_le_bytes(
                        data.subrange(e + 11, e + 15),
                    )
                    &&& expected != actual
                }))
                &&& (e_ matches DecodeError::UnsupportedAnimationType { actual } ==> ({
                    let e = spec_preamble_end(data, old(c).position())->Some_0;
                    &&& spec_preamble_end(data, old(c).position()) is Some
                    &&& actual == crate::cursor::spec_i32_from_le_bytes(
                        data.subrange(e + 19, e + 23),
                    )
                    &&& actual != 3
                }))
            },
        },
{
    skip_preamble(c)?;
    c.seek_relative(7)?;
    let num2 = read_i32(c)?;
    let anim_format = read_i32(c)?;
    if anim_format != num2 {
        return Err(DecodeError::HeaderMismatch { expected: num2, actual: anim_format });
    }
    c.seek_relative(4)?;
    let data_region_start = c.tell();
    let animation_type = read_i32(c)?;
    validate_header(num2, anim_format, animation_type)?;
    if num2 < 0 || (data_region_start as u128) + (num2 as u128) > usize::MAX as u128 {
        return Err(DecodeError::IndexOutOfRange { index: num2 as i64, limit: usize::MAX as u64 });
    }
    let region_end = data_region_start + (num2 as usize);
    c.seek_relative(20)?;
    let duration_bits = read_f32_bits(c)?;
    let fps_bits = read_f32_bits(c)?;
    c.seek_relative(12)?;
    let num7 = read_i32(c)?;
    c.seek_relative(num7 as i64 - 48)?;
    if c.tell() > c.len() {
        return Err(DecodeError::ShortRead);
    }
    Ok(
        SequenceHeader {
            region_length: num2,
            animation_type,
            duration_bits,
            fps_bits,
            data_region_start,
            region_end,
        },
    )
}

/// Reads `count` little-endian 16-bit integers.
pub fn read_i16_array(c: &mut ByteCursor, count: u16) -> (r: Result<Vec<i16>, DecodeError>)
    ensures
        final(c).bytes() == old(c).bytes(),
        match r {
            Ok(v) => {
                &&& old(c).can_read(2 * count)
                &&& final(c).position() == old(c).position() + 2 * count
                &&& v@.len() == count
                &&& forall|i: int|
                    0 <= i < count ==> v@[i] == spec_i16_from_le_bytes(
                        #[trigger] old(c).bytes().subrange(
                            old(c).position() + 2 * i,
                            old(c).position() + 2 * i + 2,
                        ),
                    )
            },
            Err(e) => e == DecodeError::ShortRead && !old(c).can_read(2 * count),
        },
{
    if (c.tell() as u64) > (c.len() as u64) || 2 * (count as u64) > (c.len() as u64) - (c.tell()
        as u64) {
        return Err(DecodeError::ShortRead);
    }
    let mut v: Vec<i16> = Vec::new();
    let mut i: usize = 0;
    while i < count as usize
        invariant
            i <= count,
            c.bytes() == old(c).bytes(),
            old(c).position() + 2 * count <= old(c).bytes().len(),
            c.position() == old(c).position() + 2 * i,
            v@.len() == i,
            forall|j: int|
                0 <= j < i ==> v@[j] == spec_i16_from_le_bytes(
                    #[trigger] old(c).bytes().subrange(
                        old(c).position() + 2 * j,
                        old(c).position() + 2 * j + 2,
                    ),
                ),
        decreases count - i,
    {
        let x = match read_i16(c) {
            Ok(x) => x,
            Err(_) => {
                proof {
                    assert(false);
                }
                return Err(DecodeError::ShortRead);
            },
        };
        v.push(x);
        i = i + 1;
    }
    Ok(v)
}

/// Checks that every channel-to-bone map entry addresses a bone.
pub fn validate_channel_map(map: &Vec<i16>, bone_count: u16) -> (r: Result<(), DecodeError>)
    ensures
        match r {
            Ok(()) => forall|i: int| 0 <= i < map@.len() ==> 0 <= #[trigger] map@[i] < bone_count,
            Err(e) => {
                &&& e matches DecodeError::IndexOutOfRange { .. }
                &&& exists|i: int|
                    0 <= i < map@.len() && !(0 <= #[trigger] map@[i] < bone_count)
            },
        },
{
    let mut i: usize = 0;
    while i < map.len()
        invariant
            i <= map@.len(),
            forall|j: int| 0 <= j < i ==> 0 <= #[trigger] map@[j] < bone_count,
        decreases map@.len() - i,
    {
        let v = map[i];
        // Every `i16` entry is below a bone count past `i16` range, so only
        // the sign needs checking there.
        let bad = if v < 0 {
            true
        } else if bone_count <= 0x7FFF {
            v >= bone_count as i16
        } else {
            false
        };
        if bad {
            return Err(DecodeError::IndexOutOfRange { index: v as i64, limit: bone_count as u64 });
        }
        i = i + 1;
    }
    Ok(())
}

/// The per-bone flag "this bone has directly sampled rotation data": set
/// for the root bone and for every bone the full-rate rotation group maps a
/// channel to.
pub fn mark_direct_rotation(bone_count: u16, rot_map: &Vec<i16>) -> (flags: Vec<bool>)
    requires
        1 <= bone_count <= 0x8000,
        forall|i: int| 0 <= i < rot_map@.len() ==> 0 <= #[trigger] rot_map@[i] < bone_count,
    ensures
        flags@.len() == bone_count,
        forall|b: int|
            0 <= b < bone_count ==> #[trigger] flags@[b] == (b == 0 || rot_map@.contains(b as i16)),
{
    let mut flags: Vec<bool> = Vec::new();
    let mut i: usize = 0;
    while i < bone_count as usize
        invariant
            i <= bone_count,
            flags@.len() == i,
            forall|b: int| 0 <= b < i ==> #[trigger] flags@[b] == false,
        decreases bone_count - i,
    {
        flags.push(false);
        i = i + 1;
    }
    let mut k: usize = 0;
    while k < rot_map.len()
        invariant
            k <= rot_map@.len(),
            flags@.len() == bone_count,
            1 <= bone_count <= 0x8000,
            forall|i_: int| 0 <= i_ < rot_map@.len() ==> 0 <= #[trigger] rot_map@[i_] < bone_count,
            forall|b: int|
                0 <= b < bone_count ==> #[trigger] flags@[b] == rot_map@.take(k as int).contains(
                    b as i16,
                ),
        decreases rot_map@.len() - k,
    {
        let ghost pre = flags@;
        let bone = rot_map[k] as usize;
        flags.set(bone, true);
        proof {
            assert(flags@ == pre.update(bone as int, true));
            assert(rot_map@.take(k + 1)[k as int] == rot_map@[k as int]);
            assert forall|b: int| 0 <= b < bone_count implies #[trigger] flags@[b] == rot_map@.take(
                k + 1,
            ).contains(b as i16) by {
                if b == bone as int {
                    assert(rot_map@.take(k + 1)[k as int] == b as i16);
                    assert(rot_map@.take(k + 1).contains(b as i16));
                    assert(flags@[b] == true);
                } else {
                    assert(flags@[b] == pre[b]);
                    assert(pre[b] == rot_map@.take(k as int).contains(b as i16));
                    if rot_map@.take(k + 1).contains(b as i16) {
                        let w = choose|w: int|
                            0 <= w < k + 1 && #[trigger] rot_map@.take(k + 1)[w] == b as i16;
                        assert(rot_map@[w] == b as i16);
                        // Entry `k` names `bone`, not `b`, so the witness is
                        // in the first `k` entries.
                        assert(w != k) by {
                            if w == k {
                                assert(rot_map@[k as int] == b as i16);
                                assert(b <= 0x7FFF);
                                assert(b as i16 == b);
                            }
                        }
                        assert(rot_map@.take(k as int)[w] == b as i16);
                        assert(rot_map@.take(k as int).contains(b as i16));
                    } else {
                        if rot_map@.take(k as int).contains(b as i16) {
                            let w = choose|w: int|
                                0 <= w < k && #[trigger] rot_map@.take(k as int)[w] == b as i16;
                            assert(rot_map@.take(k + 1)[w] == b as i16);
                            assert(rot_map@.take(k + 1).contains(b as i16));
                        }
                    }
                }
            }
        }
        k = k + 1;
    }
    proof {
        assert(rot_map@.take(rot_map@.len() as int) =~= rot_map@);
    }
    flags.set(0, true);
    proof {
        assert forall|b: int| 0 <= b < bone_count implies #[trigger] flags@[b] == (b == 0
            || rot_map@.contains(b as i16)) by {
            if b == 0 {
            } else {
                assert(flags@[b] == rot_map@.contains(b as i16));
            }
        }
    }
    flags
}

/// The unsigned 16-bit triple laid out at `base + 6 * i`.
pub open spec fn spec_u16_triple(bytes: Seq<u8>, base: int, i: int) -> [u16; 3] {
    [
        vstd::bytes::spec_u16_from_le_bytes(bytes.subrange(base + 6 * i, base + 6 * i + 2)),
        vstd::bytes::spec_u16_from_le_bytes(bytes.subrange(base + 6 * i + 2, base + 6 * i + 4)),
        vstd::bytes::spec_u16_from_le_bytes(bytes.subrange(base + 6 * i + 4, base + 6 * i + 6)),
    ]
}

/// Reads `count` unsigned 16-bit triples (coarsely quantized base-pose
/// values).
pub fn read_u16_triples(c: &mut ByteCursor, count: u16) -> (r: Result<Vec<[u16; 3]>, DecodeError>)
    ensures
        final(c).bytes() == old(c).bytes(),
        match r {
            Ok(v) => {
                &&& old(c).can_read(6 * count)
                &&& v@.len() == count
                &&& final(c).position() == old(c).position() + 6 * count
                &&& forall|i: int|
                    0 <= i < count ==> #[trigger] v@[i] == spec_u16_triple(
                        old(c).bytes(),
                        old(c).position(),
                        i,
                    )
            },
            Err(e) => e == DecodeError::ShortRead && !old(c).can_read(6 * count),
        },
{
    if (c.tell() as u64) > (c.len() as u64) || 6 * (count as u64) > (c.len() as u64) - (c.tell()
        as u64) {
        return Err(DecodeError::ShortRead);
    }
    let mut v: Vec<[u16; 3]> = Vec::new();
    let mut i: usize = 0;
    while i < count as usize
        invariant
            i <= count,
            c.bytes() == old(c).bytes(),
            old(c).position() + 6 * count <= old(c).bytes().len(),
            c.position() == old(c).position() + 6 * i,
            v@.len() == i,
            forall|j: int|
                0 <= j < i ==> #[trigger] v@[j] == spec_u16_triple(
                    old(c).bytes(),
                    old(c).position(),
                    j,
                ),
        decreases count - i,
    {
        let x = match read_u16(c) {
            Ok(v_) => v_,
            Err(_) => {
                proof {
                    assert(false);
                }
                return Err(DecodeError::ShortRead);
            },
        };
        let y = match read_u16(c) {
            Ok(v_) => v_,
            Err(_) => {
                proof {
                    assert(false);
                }
                return Err(DecodeError::ShortRead);
            },
        };
        let z = match read_u16(c) {
            Ok(v_) => v_,
            Err(_) => {
                proof {
                    assert(false);
                }
                return Err(DecodeError::ShortRead);
            },
        };
        v.push([x, y, z]);
        proof {
            let t = spec_u16_triple(old(c).bytes(), old(c).position(), i as int);
            assert([x, y, z]@ =~= t@);
            assert([x, y, z] == t);
        }
        i = i + 1;
    }
    Ok(v)
}

/// Everything the base-pose region declares: the bone count, the five
/// channel-to-bone maps, the global quantization bounds for positions and
/// rotations as raw float patterns, the coarse 16-bit base pose itself, and
/// the per-bone flag for directly sampled rotation.
pub struct BaseData {
    pub bone_count: u16,
    /// Bones receiving a base-pose translation, in channel order.
    pub base_pos_map: Vec<i16>,
    /// Bones receiving a base-pose rotation, in channel order.
    pub base_rot_map: Vec<i16>,
    /// Bones of the full-rate position group.
    pub pos_full_map: Vec<i16>,
    /// Bones of the full-rate rotation group.
    pub rot_full_map: Vec<i16>,
    /// Bones of the sparse position group.
    pub sparse_map: Vec<i16>,
    /// Set exactly for the root and for bones the full-rate rotation group
    /// samples directly; the hierarchy resolver leaves these bones alone.
    pub has_direct_rotation: Vec<bool>,
    pub pos_global_lo_bits: [u32; 3],
    pub pos_global_hi_bits: [u32; 3],
    pub rot_global_lo_bits: [u32; 3],
    pub rot_global_hi_bits: [u32; 3],
    /// One coarse 16-bit triple per base-position channel.
    pub base_positions: Vec<[u16; 3]>,
    /// One coarse 16-bit triple per base-rotation channel, holding the
    /// three stored components of a smallest-three quaternion.
    pub base_rotations: Vec<[u16; 3]>,
}

/// A channel map addresses only real bones.
pub open spec fn map_in_range(map: Seq<i16>, bone_count: u16) -> bool {
    forall|i: int| 0 <= i < map.len() ==> 0 <= #[trigger] map[i] < bone_count
}

impl BaseData {
    pub open spec fn wf(&self) -> bool {
        &&& 1 <= self.bone_count <= 0x8000
        &&& self.has_direct_rotation@.len() == self.bone_count
        &&& self.base_positions@.len() == self.base_pos_map@.len()
        &&& self.base_rotations@.len() == self.base_rot_map@.len()
        &&& map_in_range(self.base_pos_map@, self.bone_count)
        &&& map_in_range(self.base_rot_map@, self.bone_count)
        &&& map_in_range(self.pos_full_map@, self.bone_count)
        &&& map_in_range(self.rot_full_map@, self.bone_count)
        &&& map_in_range(self.sparse_map@, self.bone_count)
        &&& self.base_pos_map@.len() <= 0x8000
        &&& self.base_rot_map@.len() <= 0x8000
        &&& self.pos_full_map@.len() <= 0x8000
        &&& self.rot_full_map@.len() <= 0x8000
        &&& self.sparse_map@.len() <= 0x8000
        &&& forall|b: int|
            0 <= b < self.bone_count ==> #[trigger] self.has_direct_rotation@[b] == (b == 0
                || self.rot_full_map@.contains(b as i16))
    }
}

/// The base-pose region's count fields are all in the buffer and sane up
/// to the indexed-rotation count: the decoder is then bound to reach that
/// count and judge it.
pub open spec fn spec_base_counts_readable(data: Seq<u8>, e: int) -> bool {
    &&& e + 88 <= data.len()
    &&& spec_i16_from_le_bytes(data.subrange(e + 18, e + 20)) >= 1
    &&& spec_i16_from_le_bytes(data.subrange(e + 20, e + 22)) >= 0
    &&& spec_i16_from_le_bytes(data.subrange(e + 22, e + 24)) >= 0
    &&& spec_i16_from_le_bytes(data.subrange(e + 80, e + 82)) >= 0
    &&& spec_i16_from_le_bytes(data.subrange(e + 82, e + 84)) >= 0
    &&& spec_i16_from_le_bytes(data.subrange(e + 84, e + 86)) >= 0
}

/// Parses the base-pose region that sits between the sequence header and
/// the segment table: counts, channel maps, global bounds, and the coarsely
/// quantized base pose. Rejects a nonzero indexed-rotation channel count,
/// the one encoding branch this decoder does not understand, and any map
/// entry that addresses no bone.
pub fn parse_base_data(c: &mut ByteCursor, region_start: usize) -> (r: Result<
    BaseData,
    DecodeError,
>)
    ensures
        final(c).bytes() == old(c).bytes(),
        spec_base_counts_readable(old(c).bytes(), old(c).position()) && spec_i16_from_le_bytes(
            old(c).bytes().subrange(old(c).position() + 86, old(c).position() + 88),
        ) > 0 ==> r == Err::<BaseData, DecodeError>(
            DecodeError::UnsupportedIndexedRotation {
                channel_count: spec_i16_from_le_bytes(
                    old(c).bytes().subrange(old(c).position() + 86, old(c).position() + 88),
                ),
            },
        ),
        match r {
            Ok(b) => ({
                let data = old(c).bytes();
                let e = old(c).position();
                let values_pos = e + 96;
                let rot_values_pos = crate::cursor::spec_align4(
                    region_start as int,
                    values_pos + 6 * b.base_pos_map@.len(),
                );
                &&& b.wf()
                &&& b.bone_count == spec_i16_from_le_bytes(data.subrange(e + 18, e + 20))
                &&& b.base_pos_map@.len() == spec_i16_from_le_bytes(data.subrange(e + 20, e + 22))
                &&& b.base_rot_map@.len() == spec_i16_from_le_bytes(data.subrange(e + 22, e + 24))
                &&& b.pos_full_map@.len() == spec_i16_from_le_bytes(data.subrange(e + 80, e + 82))
                &&& b.rot_full_map@.len() == spec_i16_from_le_bytes(data.subrange(e + 82, e + 84))
                &&& b.sparse_map@.len() == spec_i16_from_le_bytes(data.subrange(e + 84, e + 86))
                &&& spec_i16_from_le_bytes(data.subrange(e + 86, e + 88)) <= 0
                &&& forall|i: int|
                    0 <= i < b.base_positions@.len() ==> #[trigger] b.base_positions@[i]
                        == spec_u16_triple(data, values_pos, i)
                &&& forall|i: int|
                    0 <= i < b.base_rotations@.len() ==> #[trigger] b.base_rotations@[i]
                        == spec_u16_triple(data, rot_values_pos, i)
            }),
            Err(err) => {
                &&& (err matches DecodeError::UnsupportedIndexedRotation { channel_count } ==> ({
                    let data = old(c).bytes();
                    let e = old(c).position();
                    &&& channel_count == spec_i16_from_le_bytes(data.subrange(e + 86, e + 88))
                    &&& channel_count > 0
                }))
                &&& (err == DecodeError::ShortRead || err matches DecodeError::IndexOutOfRange {
                    ..
                } || err matches DecodeError::UnsupportedIndexedRotation { .. })
            },
        },
{
    c.seek_relative(18)?;
    let num12 = read_i16(c)?;
    if num12 < 1 {
        return Err(DecodeError::IndexOutOfRange { index: num12 as i64, limit: 0x7FFF });
    }
    let bone_count = num12 as u16;
    let base_pos_count = crate::segment::read_count16(c)?;
    let base_rot_count = crate::segment::read_count16(c)?;
    let pos_global_lo_bits = crate::segment::read_bits_triple(c)?;
    let pos_global_hi_bits = crate::segment::read_bits_triple(c)?;
    let rot_global_lo_bits = crate::segment::read_bits_triple(c)?;
    let rot_global_hi_bits = crate::segment::read_bits_triple(c)?;
    c.seek_relative(8)?;
    let pos_full_count = crate::segment::read_count16(c)?;
    let rot_full_count = crate::segment::read_count16(c)?;
    let sparse_count = crate::segment::read_count16(c)?;
    let indexed_count = read_i16(c)?;
    if indexed_count > 0 {
        return Err(DecodeError::UnsupportedIndexedRotation { channel_count: indexed_count });
    }
    c.seek_relative(8)?;
    let base_values_pos = c.tell();

    // The coarse base-pose values are 6 bytes per channel, each block
    // rounded up to a 4-byte boundary; skip them to reach the maps, and
    // come back after.
    let skip_a: u64 = ((base_pos_count as u64 * 6 + 3) / 4) * 4;
    let skip_b: u64 = ((base_rot_count as u64 * 6 + 3) / 4) * 4;
    c.seek_relative((skip_a + skip_b) as i64)?;

    let base_pos_map = read_i16_array(c, base_pos_count)?;
    let pos_full_map = read_i16_array(c, pos_full_count)?;
    let sparse_map = read_i16_array(c, sparse_count)?;
    c.align_to_region(region_start)?;
    let base_rot_map = read_i16_array(c, base_rot_count)?;
    let rot_full_map = read_i16_array(c, rot_full_count)?;
    let after_maps = c.tell();

    validate_channel_map(&base_pos_map, bone_count)?;
    validate_channel_map(&base_rot_map, bone_count)?;
    validate_channel_map(&pos_full_map, bone_count)?;
    validate_channel_map(&rot_full_map, bone_count)?;
    validate_channel_map(&sparse_map, bone_count)?;
    let has_direct_rotation = mark_direct_rotation(bone_count, &rot_full_map);

    c.seek_absolute(base_values_pos);
    let base_positions = read_u16_triples(c, base_pos_count)?;
    c.align_to_region(region_start)?;
    let base_rotations = read_u16_triples(c, base_rot_count)?;
    c.seek_absolute(after_maps);

    Ok(
        BaseData {
            bone_count,
            base_pos_map,
            base_rot_map,
            pos_full_map,
            rot_full_map,
            sparse_map,
            has_direct_rotation,
            pos_global_lo_bits,
            pos_global_hi_bits,
            rot_global_lo_bits,
            rot_global_hi_bits,
            base_positions,
            base_rotations,
        },
    )
}

} // verus!
