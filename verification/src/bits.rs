use vstd::prelude::*;
use vstd::arithmetic::power2::{pow2, lemma_pow2_adds, lemma_pow2_pos, lemma2_to64};
use vstd::bits::{lemma_u64_shl_is_mul, lemma_u64_pow2_no_overflow};

verus! {

/// Bit `i` of a buffer, counting bits least-significant-first inside each
/// byte: bit `i` lives in byte `i / 8` at weight `2^(i % 8)`. This is the
/// order the animation format packs its quantized channels in.
pub open spec fn bit_at(bytes: Seq<u8>, i: int) -> bool {
    bytes[i / 8] >> ((i % 8) as u8) & 1 == 1
}

/// The unsigned value of `width` bits starting at bit `start`,
/// least-significant bit first.
pub open spec fn spec_unpack(bytes: Seq<u8>, start: int, width: nat) -> nat
    decreases width,
{
    if width == 0 {
        0
    } else {
        (if bit_at(bytes, start) {
            1nat
        } else {
            0nat
        }) + 2 * spec_unpack(bytes, start + 1, (width - 1) as nat)
    }
}

/// An unpacked value always fits in its bit width.
pub proof fn lemma_unpack_bound(bytes: Seq<u8>, start: int, width: nat)
    ensures
        spec_unpack(bytes, start, width) < pow2(width),
    decreases width,
{
    if width == 0 {
        lemma2_to64();
    } else {
        lemma_unpack_bound(bytes, start + 1, (width - 1) as nat);
        lemma_pow2_adds(1, (width - 1) as nat);
        lemma2_to64();
    }
}

/// Reading one more bit appends it at weight `2^width`.
pub proof fn lemma_unpack_snoc(bytes: Seq<u8>, start: int, width: nat)
    ensures
        spec_unpack(bytes, start, width + 1) == spec_unpack(bytes, start, width) + pow2(width) * (
        if bit_at(bytes, start + width) {
            1nat
        } else {
            0nat
        }),
    decreases width,
{
    if width == 0 {
        lemma2_to64();
        assert(spec_unpack(bytes, start + 1, 0) == 0);
        assert(spec_unpack(bytes, start, 1) == (if bit_at(bytes, start) {
            1nat
        } else {
            0nat
        }) + 2 * spec_unpack(bytes, start + 1, 0));
        assert(pow2(0) == 1);
    } else {
        let w1 = (width - 1) as nat;
        let b: nat = if bit_at(bytes, start + width) {
            1nat
        } else {
            0nat
        };
        let h: nat = if bit_at(bytes, start) {
            1nat
        } else {
            0nat
        };
        let a = spec_unpack(bytes, start + 1, w1);
        lemma_unpack_snoc(bytes, start + 1, w1);
        assert(spec_unpack(bytes, start + 1, w1 + 1) == a + pow2(w1) * b);
        lemma_pow2_adds(1, w1);
        lemma2_to64();
        assert(pow2(width) == 2 * pow2(w1));
        assert(spec_unpack(bytes, start, width + 1) == h + 2 * spec_unpack(
            bytes,
            start + 1,
            w1 + 1,
        ));
        assert(spec_unpack(bytes, start, width) == h + 2 * a);
        assert(2 * (a + pow2(w1) * b) == 2 * a + 2 * (pow2(w1) * b)) by (nonlinear_arith);
        assert(2 * (pow2(w1) * b) == (2 * pow2(w1)) * b) by (nonlinear_arith);
        assert(spec_unpack(bytes, start, width + 1) == h + 2 * a + pow2(width) * b);
    }
}

/// Unpacks `width` bits starting at bit `start`, least-significant bit
/// first, across byte boundaries.
pub fn unpack_bits(buf: &Vec<u8>, start: usize, width: u8) -> (raw: u64)
    requires
        width <= 63,
        start + width <= 8 * buf@.len(),
        start + width <= usize::MAX,
    ensures
        raw == spec_unpack(buf@, start as int, width as nat),
        raw < pow2(width as nat),
{
    let mut raw: u64 = 0;
    let mut k: u8 = 0;
    proof {
        lemma2_to64();
    }
    while k < width
        invariant
            k <= width <= 63,
            start + width <= 8 * buf@.len(),
            start + width <= usize::MAX,
            raw == spec_unpack(buf@, start as int, k as nat),
            raw < pow2(k as nat),
        decreases width - k,
    {
        let p: usize = start + (k as usize);
        let byte: u8 = buf[p / 8];
        let sh: u8 = (p % 8) as u8;
        let bit: u8 = (byte >> sh) & 1;
        proof {
            lemma_u64_pow2_no_overflow(k as nat);
            lemma_u64_pow2_no_overflow((k + 1) as nat);
            lemma_u64_shl_is_mul(1u64, k as u64);
            lemma_unpack_snoc(buf@, start as int, k as nat);
            lemma_pow2_adds(k as nat, 1);
            lemma2_to64();
            assert(bit == 1 <==> bit_at(buf@, start + k)) by {
                assert(byte >> sh & 1 == 1 || byte >> sh & 1 == 0) by (bit_vector);
            }
        }
        if bit == 1 {
            raw = raw + (1u64 << (k as u64));
        }
        k = k + 1;
    }
    raw
}

/// How many whole bytes hold `bits` bits.
pub fn bytes_for_bits(bits: u32) -> (n: u32)
    ensures
        n == (bits + 7) / 8,
{
    let wide: u64 = (bits as u64 + 7) / 8;
    wide as u32
}

/// Bit-packed channel data is read least-significant-bit first and padded to
/// whole bytes: `count` values of width `width` fit in a buffer exactly when
/// it holds at least `ceil(count * width / 8)` bytes, and every value
/// unpacked that way is below `2^width`.
pub proof fn lemma_bitstream_unpacking(bytes: Seq<u8>, count: nat, width: nat)
    ensures
        count * width <= 8 * bytes.len() <==> (count * width + 7) / 8 <= bytes.len(),
        forall|i: int|
            0 <= i < count ==> #[trigger] spec_unpack(bytes, i * width, width) < pow2(width),
{
    assert(count * width <= 8 * bytes.len() <==> (count * width + 7) / 8 <= bytes.len()) by {
        let cw = (count * width) as int;
        let len = bytes.len() as int;
        if cw <= 8 * len {
            assert((cw + 7) / 8 <= len);
        }
        if (cw + 7) / 8 <= len {
            assert(cw <= 8 * ((cw + 7) / 8));
        }
    }
    assert forall|i: int| 0 <= i < count implies #[trigger] spec_unpack(bytes, i * width, width)
        < pow2(width) by {
        lemma_unpack_bound(bytes, i * width, width);
    }
}

/// The denominator that turns a raw unpacked value into a fraction
/// `raw / denominator`. Full-rate groups always divide by `2^width`; the
/// sparse-position group divides a nonzero raw by `2^width - 1` instead, so
/// a maxed-out residual reaches exactly one there and slightly less than one
/// everywhere else. The asymmetry is the format's, preserved deliberately.
pub fn fraction_denominator(raw: u64, width: u8, maxed: bool) -> (d: u64)
    requires
        width <= 63,
        raw < pow2(width as nat),
    ensures
        d == if maxed && raw > 0 {
            (pow2(width as nat) - 1) as int
        } else {
            pow2(width as nat) as int
        },
        d >= 1,
{
    proof {
        lemma_u64_pow2_no_overflow(width as nat);
        lemma_u64_shl_is_mul(1u64, width as u64);
        lemma_pow2_pos(width as nat);
    }
    let full: u64 = 1u64 << (width as u64);
    if maxed && raw > 0 {
        full - 1
    } else {
        full
    }
}

} // verus!
