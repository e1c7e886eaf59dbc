use vstd::prelude::*;
use vstd::arithmetic::power2::{pow2, lemma_pow2_adds, lemma_pow2_pos, lemma_pow2_strictly_increases,
    lemma2_to64, lemma2_to64_rest};
use vstd::arithmetic::div_mod::{lemma_div_is_ordered, lemma_div_is_ordered_by_denominator,
    lemma_div_multiples_vanish};
use vstd::bits::{lemma_u64_shl_is_mul, lemma_u64_pow2_no_overflow};
use crate::skeleton::Skeleton;
use crate::text::{chars_to_string, push_dec_u64, push_dec_i64, push_str_chars, spec_dec_digits,
    spec_dec_i64};

verus! {

/// The biased exponent field of an IEEE-754 single-precision pattern.
pub open spec fn f32_exp(bits: u32) -> u32 {
    (bits >> 23) & 0xFF
}

/// The fraction field of an IEEE-754 single-precision pattern.
pub open spec fn f32_frac(bits: u32) -> u32 {
    bits & 0x7FFFFF
}

/// The sign bit of an IEEE-754 single-precision pattern.
pub open spec fn f32_negative(bits: u32) -> bool {
    bits >> 31 == 1
}

/// The integer significand of a finite pattern: the fraction with the
/// implicit leading bit for normal numbers, the bare fraction for
/// subnormals. The value encoded is `significand * 2^exponent` (times the
/// sign).
pub open spec fn f32_significand(bits: u32) -> nat {
    if f32_exp(bits) == 0 {
        f32_frac(bits) as nat
    } else {
        f32_frac(bits) as nat + 0x800000
    }
}

/// The power-of-two exponent paired with `f32_significand`.
pub open spec fn f32_exponent(bits: u32) -> int {
    if f32_exp(bits) == 0 {
        -149
    } else {
        f32_exp(bits) - 150
    }
}

/// `floor(30 / (m * 2^e))` for a positive significand `m`.
pub open spec fn spec_floor_30_over(m: nat, e: int) -> int {
    if e >= 0 {
        30int / (m * pow2(e as nat)) as int
    } else {
        (30 * pow2((-e) as nat)) as int / m as int
    }
}

/// The frame-expansion factor `floor(30 / fps)`, truncated toward zero and
/// saturated to `i32` exactly as a float division cast to `i32` would be:
/// 0 for an infinite or invalid frame rate, the saturation limits for a
/// zero one, and 1 whenever expansion is disabled. The output stream
/// duplicates every decoded frame this many times so that tooling with a
/// fixed 30 frames-per-second assumption plays the clip at speed.
pub open spec fn spec_expansion_factor(fps_bits: u32, no_expansion: bool) -> int {
    if no_expansion {
        1
    } else if f32_exp(fps_bits) == 255 {
        0
    } else if f32_significand(fps_bits) == 0 {
        if f32_negative(fps_bits) {
            i32::MIN as int
        } else {
            i32::MAX as int
        }
    } else {
        let q = spec_floor_30_over(f32_significand(fps_bits), f32_exponent(fps_bits));
        if f32_negative(fps_bits) {
            if -q < i32::MIN {
                i32::MIN as int
            } else {
                -q
            }
        } else {
            if q > i32::MAX {
                i32::MAX as int
            } else {
                q
            }
        }
    }
}

/// Computes the frame-expansion factor from the frame rate's raw float
/// pattern, in exact integer arithmetic. A disabled expansion (the legacy
/// output convention) forces a factor of 1 whatever the frame rate says.
pub fn expansion_factor(fps_bits: u32, no_expansion: bool) -> (r: i32)
    ensures
        r == spec_expansion_factor(fps_bits, no_expansion),
        no_expansion ==> r == 1,
{
    if no_expansion {
        return 1;
    }
    let exp: u32 = (fps_bits >> 23) & 0xFF;
    let frac: u32 = fps_bits & 0x7FFFFF;
    let neg: bool = (fps_bits >> 31) == 1;
    proof {
        assert(fps_bits & 0x7FFFFF < 0x800000) by (bit_vector);
        lemma2_to64();
    }
    if exp == 255 {
        return 0;
    }
    let m: u64 = if exp == 0 {
        frac as u64
    } else {
        frac as u64 + 0x800000
    };
    if m == 0 {
        if neg {
            return i32::MIN;
        } else {
            return i32::MAX;
        }
    }
    let ghost e_spec: int = f32_exponent(fps_bits);
    let q: u64 = if exp >= 150 {
        // A frame rate of 2^27 or more: the quotient is below 1.
        let e: u32 = exp - 150;
        if e >= 5 {
            proof {
                lemma_pow2_pos(e as nat);
                if e > 5 {
                    lemma_pow2_strictly_increases(5, e as nat);
                }
                assert(pow2(5) == 32);
                assert(m * pow2(e as nat) >= pow2(e as nat)) by (nonlinear_arith)
                    requires m >= 1 && pow2(e as nat) >= 0;
                assert(30int / (m * pow2(e as nat)) as int == 0) by (nonlinear_arith)
                    requires m * pow2(e as nat) > 30;
            }
            0
        } else {
            proof {
                lemma_pow2_pos(e as nat);
                if e < 4 {
                    lemma_pow2_strictly_increases(e as nat, 4);
                }
                assert(pow2(4) == 16);
                assert(m * pow2(e as nat) <= 0x1000000 * 16) by (nonlinear_arith)
                    requires m <= 0x1000000 && 1 <= pow2(e as nat) <= 16;
                lemma_u64_shl_is_mul(m, e as u64);
                assert(m * pow2(e as nat) >= 1) by (nonlinear_arith)
                    requires m >= 1 && pow2(e as nat) >= 1;
            }
            30u64 / (m << (e as u64))
        }
    } else {
        // A fractional or small frame rate: scale 30 up by the negated
        // exponent.
        let k: u32 = if exp == 0 {
            149
        } else {
            150 - exp
        };
        if k >= 55 {
            // The quotient is at least `30 * 2^55 / 2^24`, far past the
            // saturation limit already.
            u64::MAX
        } else {
            proof {
                lemma_u64_pow2_no_overflow((k + 5) as nat);
                lemma_pow2_adds(k as nat, 5);
                assert(pow2(5) == 32);
                assert(30 * pow2(k as nat) <= pow2((k + 5) as nat)) by (nonlinear_arith)
                    requires pow2((k + 5) as nat) == pow2(k as nat) * 32;
                lemma_u64_shl_is_mul(30u64, k as u64);
            }
            (30u64 << (k as u64)) / m
        }
    };
    let sat: i32 = if neg {
        if q >= 0x80000000u64 {
            i32::MIN
        } else {
            -(q as i32)
        }
    } else {
        if q > 0x7FFFFFFFu64 {
            i32::MAX
        } else {
            q as i32
        }
    };
    proof {
        let ms = f32_significand(fps_bits);
        let qs = spec_floor_30_over(ms, e_spec);
        assert(m == ms);
        assert(qs >= 0) by {
            if e_spec >= 0 {
                lemma_pow2_pos(e_spec as nat);
                assert(ms * pow2(e_spec as nat) >= 1) by (nonlinear_arith)
                    requires ms >= 1 && pow2(e_spec as nat) >= 1;
            } else {
                lemma_pow2_pos((-e_spec) as nat);
            }
        }
        if exp >= 150 {
        } else {
            let k: int = if exp == 0 {
                149
            } else {
                150 - exp
            };
            assert(e_spec == -k);
            if k >= 55 {
                // Exact quotient of at least `30 * 2^55 / (2^24 - 1)`:
                // beyond both saturation limits.
                lemma_pow2_adds(31, 24);
                lemma_pow2_adds((k - 24) as nat, 24);
                lemma2_to64();
                lemma2_to64_rest();
                if k > 55 {
                    lemma_pow2_strictly_increases(55, k as nat);
                }
                assert(30 * pow2(k as nat) >= 30 * pow2(55)) by (nonlinear_arith)
                    requires pow2(k as nat) >= pow2(55);
                lemma_div_is_ordered(30 * pow2(55) as int, 30 * pow2(k as nat) as int, ms as int);
                lemma_div_is_ordered_by_denominator(30 * pow2(55) as int, ms as int, 0x1000000);
                assert(30 * pow2(55) as int / 0x1000000 == 30 * 0x80000000) by {
                    lemma_pow2_adds(31, 24);
                    assert(pow2(55) == pow2(31) * pow2(24));
                    assert(pow2(31) == 0x80000000 && pow2(24) == 0x1000000);
                    assert(30 * (pow2(31) * pow2(24)) as int == (30 * 0x80000000) * 0x1000000)
                        by (nonlinear_arith)
                        requires pow2(31) == 0x80000000 && pow2(24) == 0x1000000;
                    lemma_div_multiples_vanish((30 * 0x80000000) as int, 0x1000000int);
                }
                assert(qs >= 30 * 0x80000000);
            }
        }
    }
    sat
}

/// One line of the node table: the bone's index, its quoted name, and its
/// raw parent-offset code, exactly as the text output carries them.
pub open spec fn spec_node_line(index: nat, name: Seq<char>, code: int) -> Seq<char> {
    spec_dec_digits(index) + " \""@ + name + "\" "@ + spec_dec_i64(code) + "\n"@
}

/// The node lines of the first `n` bones, in order.
pub open spec fn spec_node_lines(sk: &Skeleton, n: int) -> Seq<char>
    decreases n,
{
    if n <= 0 {
        Seq::empty()
    } else {
        spec_node_lines(sk, n - 1) + spec_node_line(
            (n - 1) as nat,
            sk.names@[n - 1]@,
            sk.parent_codes@[n - 1] as int,
        )
    }
}

/// The whole `nodes` block of the text output: the version marker, one line
/// per bone, and the opening of the skeleton block that follows.
pub open spec fn spec_nodes_section(sk: &Skeleton) -> Seq<char> {
    "version 1\nnodes\n"@ + spec_node_lines(sk, sk.bone_count as int) + "end\nskeleton\n"@
}

/// Renders the `nodes` block: one line per bone carrying its index, its
/// name in quotation marks, and its raw parent-offset code.
pub fn nodes_section(sk: &Skeleton) -> (r: String)
    requires
        sk.wf(),
    ensures
        r@ == spec_nodes_section(sk),
{
    let mut out: Vec<char> = Vec::new();
    push_str_chars(&mut out, "version 1\nnodes\n");
    let ghost head = out@;
    let mut i: usize = 0;
    while i < sk.bone_count as usize
        invariant
            sk.wf(),
            i <= sk.bone_count,
            out@ == head + spec_node_lines(sk, i as int),
        decreases sk.bone_count - i,
    {
        push_dec_u64(&mut out, i as u64);
        push_str_chars(&mut out, " \"");
        push_str_chars(&mut out, sk.names[i].as_str());
        push_str_chars(&mut out, "\" ");
        push_dec_i64(&mut out, sk.parent_codes[i] as i64);
        push_str_chars(&mut out, "\n");
        proof {
            assert(out@ =~= head + spec_node_lines(sk, i + 1));
        }
        i = i + 1;
    }
    push_str_chars(&mut out, "end\nskeleton\n");
    proof {
        assert(out@ =~= spec_nodes_section(sk));
    }
    chars_to_string(&out)
}

/// One frame header of the text output.
pub open spec fn spec_time_line(frame: int) -> Seq<char> {
    "time "@ + spec_dec_i64(frame) + "\n"@
}

/// Renders one `time` frame header.
pub fn time_line(frame: i64) -> (r: String)
    ensures
        r@ == spec_time_line(frame as int),
{
    let mut out: Vec<char> = Vec::new();
    push_str_chars(&mut out, "time ");
    push_dec_i64(&mut out, frame);
    push_str_chars(&mut out, "\n");
    proof {
        assert(out@ =~= spec_time_line(frame as int));
    }
    chars_to_string(&out)
}

} // verus!
