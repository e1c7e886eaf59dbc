use vstd::prelude::*;
use vstd::slice::slice_index_get;
use vstd::string::{StrSliceExecFns, StringSliceAdditionalSpecFns};
use vstd::utf8::{valid_utf8, decode_utf8};

verus! {

broadcast use vstd::utf8::group_utf8_lib;

/// Element-wise equality of two byte slices.
pub fn bytes_eq(a: &[u8], b: &[u8]) -> (r: bool)
    ensures
        r == (a@ == b@),
{
    if a.len() != b.len() {
        proof {
            assert(a@.len() != b@.len());
        }
        return false;
    }
    let mut i: usize = 0;
    while i < a.len()
        invariant
            i <= a@.len(),
            a@.len() == b@.len(),
            forall|j: int| 0 <= j < i ==> a@[j] == b@[j],
        decreases a@.len() - i,
    {
        if *slice_index_get(a, i) != *slice_index_get(b, i) {
            return false;
        }
        i = i + 1;
    }
    proof {
        assert(a@ =~= b@);
    }
    true
}

/// Equality of two strings, decided on their UTF-8 bytes.
pub fn str_eq(a: &str, b: &str) -> (r: bool)
    ensures
        r == (a@ == b@),
{
    let r = bytes_eq(a.as_bytes(), b.as_bytes());
    proof {
        if a.spec_bytes() == b.spec_bytes() {
            assert(decode_utf8(vstd::utf8::encode_utf8(a@)) == a@);
            assert(decode_utf8(vstd::utf8::encode_utf8(b@)) == b@);
            assert(a@ == b@);
        }
    }
    r
}

/// Relies on `String::from_utf8`: it succeeds exactly on valid UTF-8 input
/// and decodes those bytes to the string's characters.
#[verifier::external_body]
pub fn string_from_utf8(bytes: Vec<u8>) -> (r: Option<String>)
    ensures
        match r {
            Some(s) => valid_utf8(bytes@) && s@ == decode_utf8(bytes@),
            None => !valid_utf8(bytes@),
        },
{
    match String::from_utf8(bytes) {
        Ok(s) => Some(s),
        Err(_) => None,
    }
}

/// Relies on `String::from_iter`: the built string holds exactly the given
/// characters in order.
#[verifier::external_body]
pub fn chars_to_string(chars: &Vec<char>) -> (r: String)
    ensures
        r@ == chars@,
{
    chars.iter().collect()
}

/// The decimal digits of `n`, most significant first.
pub open spec fn spec_dec_digits(n: nat) -> Seq<char>
    decreases n,
{
    if n < 10 {
        seq![spec_digit_char(n)]
    } else {
        spec_dec_digits(n / 10).push(spec_digit_char(n % 10))
    }
}

/// The character for one decimal digit.
pub open spec fn spec_digit_char(d: nat) -> char {
    ((48 + d) as u8) as char
}

/// Appends the decimal representation of `n` to a character buffer.
pub fn push_dec_u64(out: &mut Vec<char>, n: u64)
    ensures
        final(out)@ == old(out)@ + spec_dec_digits(n as nat),
    decreases n,
{
    if n < 10 {
        let d: u8 = '0' as u8 + (n as u8);
        out.push(d as char);
    } else {
        push_dec_u64(out, n / 10);
        let d: u8 = '0' as u8 + ((n % 10) as u8);
        out.push(d as char);
        proof {
            assert(out@ =~= old(out)@ + spec_dec_digits(n as nat));
        }
    }
}

/// The decimal representation of a signed value: a minus sign for negative
/// values, then the digits of the magnitude.
pub open spec fn spec_dec_i64(n: int) -> Seq<char> {
    if n < 0 {
        seq!['-'] + spec_dec_digits((-n) as nat)
    } else {
        spec_dec_digits(n as nat)
    }
}

/// Appends the decimal representation of `n`, with a leading minus sign for
/// negative values.
pub fn push_dec_i64(out: &mut Vec<char>, n: i64)
    ensures
        final(out)@ == old(out)@ + spec_dec_i64(n as int),
{
    if n < 0 {
        out.push('-');
        // Negating `n + 1` avoids the one overflowing negation at i64::MIN.
        let mag: u64 = (-(n + 1)) as u64 + 1;
        push_dec_u64(out, mag);
        proof {
            assert(out@ =~= old(out)@ + spec_dec_i64(n as int));
        }
    } else {
        push_dec_u64(out, n as u64);
    }
}

/// The number the decimal digit characters `s` denote, read most significant
/// first; meaningful only when `is_dec_digits(s)` holds.
pub open spec fn spec_dec_value(s: Seq<char>) -> nat
    decreases s.len(),
{
    if s.len() == 0 {
        0
    } else {
        (spec_dec_value(s.drop_last()) * 10 + (s.last() as int - '0' as int)) as nat
    }
}

/// Whether `s` is one or more decimal digit characters.
pub open spec fn is_dec_digits(s: Seq<char>) -> bool {
    s.len() > 0 && forall|i: int| 0 <= i < s.len() ==> '0' <= #[trigger] s[i] <= '9'
}

/// Parses an unsigned decimal number from characters. Returns `None` when
/// the characters are not all digits, when there are none, or when the value
/// does not fit in a `u64`.
pub fn parse_dec_u64(chars: &[char]) -> (r: Option<u64>)
    ensures
        match r {
            Some(v) => is_dec_digits(chars@) && v == spec_dec_value(chars@),
            None => !is_dec_digits(chars@) || spec_dec_value(chars@) > u64::MAX,
        },
{
    if chars.len() == 0 {
        return None;
    }
    let mut acc: u64 = 0;
    let mut i: usize = 0;
    while i < chars.len()
        invariant
            i <= chars@.len(),
            forall|j: int| 0 <= j < i ==> '0' <= #[trigger] chars@[j] <= '9',
            acc == spec_dec_value(chars@.take(i as int)),
        decreases chars@.len() - i,
    {
        let ch: char = *slice_index_get(chars, i);
        if ch < '0' || ch > '9' {
            return None;
        }
        let d: u32 = ch as u32 - '0' as u32;
        let next = match acc.checked_mul(10) {
            Some(t) => t.checked_add(d as u64),
            None => None,
        };
        match next {
            Some(v) => {
                acc = v;
            },
            None => {
                proof {
                    lemma_dec_value_take_overflow(chars@, i as int);
                }
                return None;
            },
        }
        proof {
            assert(chars@.take(i + 1).drop_last() =~= chars@.take(i as int));
            assert(chars@.take(i + 1).last() == chars@[i as int]);
        }
        i = i + 1;
    }
    proof {
        assert(chars@.take(chars@.len() as int) =~= chars@);
    }
    Some(acc)
}

/// Once a decimal prefix exceeds `u64::MAX`, the whole digit string does too.
proof fn lemma_dec_value_take_overflow(s: Seq<char>, i: int)
    requires
        0 <= i < s.len(),
        spec_dec_value(s.take(i)) * 10 + (s[i] as int - '0' as int) > u64::MAX,
    ensures
        is_dec_digits(s) ==> spec_dec_value(s) > u64::MAX,
    decreases s.len() - i,
{
    if is_dec_digits(s) {
        if i == s.len() - 1 {
            assert(s.take(s.len() as int) =~= s);
            assert(s.take(i + 1).drop_last() =~= s.take(i));
            assert(spec_dec_value(s) == spec_dec_value(s.take(i)) * 10 + (s[i] as int
                - '0' as int));
        } else {
            let v1 = spec_dec_value(s.take(i + 1));
            assert(s.take(i + 1).drop_last() =~= s.take(i));
            assert(v1 == spec_dec_value(s.take(i)) * 10 + (s[i] as int - '0' as int));
            assert('0' <= s[i + 1] <= '9');
            assert(v1 * 10 + (s[i + 1] as int - '0' as int) > u64::MAX) by (nonlinear_arith)
                requires
                    v1 > u64::MAX && '0' as int <= s[i + 1] as int,
            ;
            lemma_dec_value_take_overflow(s, i + 1);
        }
    }
}

/// Relies on `str::chars` collected into a vector: exactly the string's
/// characters in order.
#[verifier::external_body]
pub fn str_chars(s: &str) -> (r: Vec<char>)
    ensures
        r@ == s@,
{
    s.chars().collect()
}

/// The first position of `ch` at or after `from`; the length when there is
/// none.
pub open spec fn spec_char_pos(s: Seq<char>, ch: char, from: int) -> int
    decreases s.len() - from,
{
    if from < 0 || from >= s.len() {
        s.len() as int
    } else if s[from] == ch {
        from
    } else {
        spec_char_pos(s, ch, from + 1)
    }
}

/// Finds the first `ch` at or after `from` in a character buffer.
pub fn find_char_from(chars: &Vec<char>, ch: char, from: usize) -> (q: usize)
    requires
        from <= chars@.len(),
    ensures
        q == spec_char_pos(chars@, ch, from as int),
        from <= q <= chars@.len(),
{
    let mut i: usize = from;
    while i < chars.len()
        invariant
            from <= i <= chars@.len(),
            spec_char_pos(chars@, ch, from as int) == spec_char_pos(chars@, ch, i as int),
        decreases chars@.len() - i,
    {
        if chars[i] == ch {
            proof {
                assert(spec_char_pos(chars@, ch, i as int) == i);
            }
            return i;
        }
        proof {
            assert(spec_char_pos(chars@, ch, i as int) == spec_char_pos(chars@, ch, i + 1));
        }
        i = i + 1;
    }
    proof {
        assert(spec_char_pos(chars@, ch, i as int) == chars@.len() as int);
    }
    i
}

/// The signed decimal value of `s`: an optional leading minus sign, then
/// digits.
pub open spec fn is_dec_i64(s: Seq<char>) -> bool {
    if s.len() > 0 && s[0] == '-' {
        is_dec_digits(s.drop_first()) && spec_dec_value(s.drop_first()) <= i64::MAX + 1
    } else {
        is_dec_digits(s) && spec_dec_value(s) <= i64::MAX
    }
}

pub open spec fn spec_dec_i64_value(s: Seq<char>) -> int {
    if s.len() > 0 && s[0] == '-' {
        -(spec_dec_value(s.drop_first()) as int)
    } else {
        spec_dec_value(s) as int
    }
}

/// Parses a signed decimal number from characters; `None` when the text is
/// not a well-formed number that fits in an `i64`.
pub fn parse_dec_i64(chars: &[char]) -> (r: Option<i64>)
    ensures
        match r {
            Some(v) => is_dec_i64(chars@) && v == spec_dec_i64_value(chars@),
            None => !is_dec_i64(chars@),
        },
{
    if chars.len() > 0 && *slice_index_get(chars, 0) == '-' {
        let rest = vstd::slice::slice_subrange(chars, 1, chars.len());
        proof {
            assert(rest@ =~= chars@.drop_first());
        }
        match parse_dec_u64(rest) {
            Some(mag) => {
                if mag <= 0x7FFF_FFFF_FFFF_FFFFu64 {
                    Some(-(mag as i64))
                } else if mag == 0x8000_0000_0000_0000u64 {
                    Some(i64::MIN)
                } else {
                    None
                }
            },
            None => None,
        }
    } else {
        match parse_dec_u64(chars) {
            Some(v) => {
                if v <= 0x7FFF_FFFF_FFFF_FFFFu64 {
                    Some(v as i64)
                } else {
                    None
                }
            },
            None => None,
        }
    }
}

/// Appends every character of `s` to a character buffer.
pub fn push_str_chars(out: &mut Vec<char>, s: &str)
    ensures
        final(out)@ == old(out)@ + s@,
{
    let cs = str_chars(s);
    let mut i: usize = 0;
    while i < cs.len()
        invariant
            i <= cs@.len(),
            cs@ == s@,
            out@ =~= old(out)@ + cs@.take(i as int),
        decreases cs@.len() - i,
    {
        out.push(cs[i]);
        proof {
            assert(cs@.take(i + 1) =~= cs@.take(i as int).push(cs@[i as int]));
        }
        i = i + 1;
    }
    proof {
        assert(cs@.take(cs@.len() as int) =~= cs@);
    }
}

} // verus!
