//! UTF-8 decoding of response bodies and transport chunks.
//!
//! Each transport chunk is decoded independently: a chunk is either a
//! valid UTF-8 encoding and decodes to its character sequence, or it is
//! rejected whole. Validity and the decoded characters are stated with
//! the UTF-8 theory of `vstd::utf8`.

use vstd::prelude::*;
use vstd::utf8::*;

verus! {

/// True exactly when `b` has the shape `10xxxxxx` of a UTF-8
/// continuation byte.
fn is_cont(b: u8) -> (r: bool)
    ensures
        r == is_continuation_byte(b),
{
    0x80 <= b && b <= 0xbf
}

/// A well-formed one-byte encoding starts the suffix of a valid scalar.
proof fn lemma_first_scalar_width_1(s: Seq<u8>)
    requires
        s.len() >= 1,
        s[0] < 0x80,
    ensures
        valid_first_scalar(s),
        length_of_first_scalar(s) == 1,
{
    let b0 = s[0];
    assert(((b0 & 0x7f) as u32) < 0xd800) by (bit_vector);
}

/// A well-formed two-byte encoding starts the suffix of a valid scalar:
/// the leading byte at or above `0xc2` rules out an overlong encoding.
proof fn lemma_first_scalar_width_2(s: Seq<u8>)
    requires
        s.len() >= 2,
        0xc2 <= s[0] <= 0xdf,
        is_continuation_byte(s[1]),
    ensures
        valid_first_scalar(s),
        length_of_first_scalar(s) == 2,
{
    let b0 = s[0];
    let b1 = s[1];
    assert(0x80 <= ((((b0 & 0x1f) as u32) << 6) | ((b1 & 0x3f) as u32)) && ((((b0 & 0x1f)
        as u32) << 6) | ((b1 & 0x3f) as u32)) <= 0x7ff) by (bit_vector)
        requires
            0xc2 <= b0 && b0 <= 0xdf && 0x80 <= b1 && b1 <= 0xbf,
    ;
}

/// A well-formed three-byte encoding starts the suffix of a valid
/// scalar: the restricted ranges after `0xe0` and `0xed` rule out
/// overlong encodings and the surrogate range.
proof fn lemma_first_scalar_width_3(s: Seq<u8>)
    requires
        s.len() >= 3,
        0xe0 <= s[0] <= 0xef,
        is_continuation_byte(s[1]),
        is_continuation_byte(s[2]),
        s[0] == 0xe0 ==> 0xa0 <= s[1],
        s[0] == 0xed ==> s[1] <= 0x9f,
    ensures
        valid_first_scalar(s),
        length_of_first_scalar(s) == 3,
{
    let b0 = s[0];
    let b1 = s[1];
    let b2 = s[2];
    assert(0x800 <= (((((b0 & 0x0f) as u32) << 12) | (((b1 & 0x3f) as u32) << 6)) | ((b2 & 0x3f)
        as u32)) && !(0xd800 <= (((((b0 & 0x0f) as u32) << 12) | (((b1 & 0x3f) as u32) << 6)) | ((
    b2 & 0x3f) as u32)) && (((((b0 & 0x0f) as u32) << 12) | (((b1 & 0x3f) as u32) << 6)) | ((b2
        & 0x3f) as u32)) <= 0xdfff)) by (bit_vector)
        requires
            0xe0 <= b0 && b0 <= 0xef && 0x80 <= b1 && b1 <= 0xbf && 0x80 <= b2 && b2 <= 0xbf && (b0
                == 0xe0 ==> 0xa0 <= b1) && (b0 == 0xed ==> b1 <= 0x9f),
    ;
}

/// A well-formed four-byte encoding starts the suffix of a valid
/// scalar: the restricted ranges after `0xf0` and `0xf4` keep the
/// scalar between `0x10000` and `0x10ffff`.
proof fn lemma_first_scalar_width_4(s: Seq<u8>)
    requires
        s.len() >= 4,
        0xf0 <= s[0] <= 0xf4,
        is_continuation_byte(s[1]),
        is_continuation_byte(s[2]),
        is_continuation_byte(s[3]),
        s[0] == 0xf0 ==> 0x90 <= s[1],
        s[0] == 0xf4 ==> s[1] <= 0x8f,
    ensures
        valid_first_scalar(s),
        length_of_first_scalar(s) == 4,
{
    let b0 = s[0];
    let b1 = s[1];
    let b2 = s[2];
    let b3 = s[3];
    assert(0x10000 <= ((((((b0 & 0x07) as u32) << 18) | (((b1 & 0x3f) as u32) << 12)) | (((b2
        & 0x3f) as u32) << 6)) | ((b3 & 0x3f) as u32)) && ((((((b0 & 0x07) as u32) << 18) | (((b1
        & 0x3f) as u32) << 12)) | (((b2 & 0x3f) as u32) << 6)) | ((b3 & 0x3f) as u32))
        <= 0x10ffff) by (bit_vector)
        requires
            0xf0 <= b0 && b0 <= 0xf4 && 0x80 <= b1 && b1 <= 0xbf && 0x80 <= b2 && b2 <= 0xbf && 0x80
                <= b3 && b3 <= 0xbf && (b0 == 0xf0 ==> 0x90 <= b1) && (b0 == 0xf4 ==> b1 <= 0x8f),
    ;
}

/// A byte that is a continuation byte, or one of `0xc0`, `0xc1`, or at
/// least `0xf5`, never starts a valid scalar.
proof fn lemma_first_scalar_bad_leading(s: Seq<u8>)
    requires
        s.len() >= 1,
        (0x80 <= s[0] && s[0] < 0xc2) || 0xf5 <= s[0],
    ensures
        !valid_first_scalar(s),
{
    let b0 = s[0];
    if 0xc0 <= b0 && b0 <= 0xc1 {
        if s.len() >= 2 && is_continuation_byte(s[1]) {
            let b1 = s[1];
            assert(((((b0 & 0x1f) as u32) << 6) | ((b1 & 0x3f) as u32)) < 0x80) by (bit_vector)
                requires
                    0xc0 <= b0 && b0 <= 0xc1 && 0x80 <= b1 && b1 <= 0xbf,
            ;
        }
    } else if 0xf5 <= b0 && b0 <= 0xf7 {
        if s.len() >= 4 && is_continuation_byte(s[1]) && is_continuation_byte(s[2])
            && is_continuation_byte(s[3]) {
            let b1 = s[1];
            let b2 = s[2];
            let b3 = s[3];
            assert(((((((b0 & 0x07) as u32) << 18) | (((b1 & 0x3f) as u32) << 12)) | (((b2 & 0x3f)
                as u32) << 6)) | ((b3 & 0x3f) as u32)) > 0x10ffff) by (bit_vector)
                requires
                    0xf5 <= b0 && b0 <= 0xf7 && 0x80 <= b1 && b1 <= 0xbf && 0x80 <= b2 && b2 <= 0xbf
                        && 0x80 <= b3 && b3 <= 0xbf,
            ;
        }
    }
}

/// A two-byte leading byte not followed by a continuation byte never
/// starts a valid scalar.
proof fn lemma_first_scalar_bad_width_2(s: Seq<u8>)
    requires
        s.len() >= 1,
        0xc2 <= s[0] <= 0xdf,
        s.len() >= 2 ==> !is_continuation_byte(s[1]),
    ensures
        !valid_first_scalar(s),
{
}

/// A three-byte leading byte whose continuation bytes are missing,
/// malformed, or fall in the overlong or surrogate ranges never starts
/// a valid scalar.
proof fn lemma_first_scalar_bad_width_3(s: Seq<u8>)
    requires
        s.len() >= 1,
        0xe0 <= s[0] <= 0xef,
        s.len() < 3 || !is_continuation_byte(s[1]) || !is_continuation_byte(s[2]) || (s[0] == 0xe0
            && s[1] < 0xa0) || (s[0] == 0xed && 0xa0 <= s[1]),
    ensures
        !valid_first_scalar(s),
{
    let b0 = s[0];
    if s.len() >= 3 && is_continuation_byte(s[1]) && is_continuation_byte(s[2]) {
        let b1 = s[1];
        let b2 = s[2];
        if b0 == 0xe0 && b1 < 0xa0 {
            assert((((((b0 & 0x0f) as u32) << 12) | (((b1 & 0x3f) as u32) << 6)) | ((b2 & 0x3f)
                as u32)) < 0x800) by (bit_vector)
                requires
                    b0 == 0xe0 && 0x80 <= b1 && b1 <= 0x9f && 0x80 <= b2 && b2 <= 0xbf,
            ;
        } else {
            assert(b0 == 0xed && 0xa0 <= b1);
            assert(0xd800 <= (((((b0 & 0x0f) as u32) << 12) | (((b1 & 0x3f) as u32) << 6)) | ((b2
                & 0x3f) as u32)) && (((((b0 & 0x0f) as u32) << 12) | (((b1 & 0x3f) as u32) << 6))
                | ((b2 & 0x3f) as u32)) <= 0xdfff) by (bit_vector)
                requires
                    b0 == 0xed && 0xa0 <= b1 && b1 <= 0xbf && 0x80 <= b2 && b2 <= 0xbf,
            ;
        }
    }
}

/// A four-byte leading byte whose continuation bytes are missing,
/// malformed, or fall outside the range of Unicode scalars never
/// starts a valid scalar.
proof fn lemma_first_scalar_bad_width_4(s: Seq<u8>)
    requires
        s.len() >= 1,
        0xf0 <= s[0] <= 0xf4,
        s.len() < 4 || !is_continuation_byte(s[1]) || !is_continuation_byte(s[2])
            || !is_continuation_byte(s[3]) || (s[0] == 0xf0 && s[1] < 0x90) || (s[0] == 0xf4 && 0x90
            <= s[1]),
    ensures
        !valid_first_scalar(s),
{
    let b0 = s[0];
    if s.len() >= 4 && is_continuation_byte(s[1]) && is_continuation_byte(s[2])
        && is_continuation_byte(s[3]) {
        let b1 = s[1];
        let b2 = s[2];
        let b3 = s[3];
        if b0 == 0xf0 && b1 < 0x90 {
            assert(((((((b0 & 0x07) as u32) << 18) | (((b1 & 0x3f) as u32) << 12)) | (((b2 & 0x3f)
                as u32) << 6)) | ((b3 & 0x3f) as u32)) < 0x10000) by (bit_vector)
                requires
                    b0 == 0xf0 && 0x80 <= b1 && b1 <= 0x8f && 0x80 <= b2 && b2 <= 0xbf && 0x80 <= b3
                        && b3 <= 0xbf,
            ;
        } else {
            assert(b0 == 0xf4 && 0x90 <= b1);
            assert(((((((b0 & 0x07) as u32) << 18) | (((b1 & 0x3f) as u32) << 12)) | (((b2 & 0x3f)
                as u32) << 6)) | ((b3 & 0x3f) as u32)) > 0x10ffff) by (bit_vector)
                requires
                    b0 == 0xf4 && 0x90 <= b1 && b1 <= 0xbf && 0x80 <= b2 && b2 <= 0xbf && 0x80 <= b3
                        && b3 <= 0xbf,
            ;
        }
    }
}

/// A valid prefix followed by a byte position that starts no valid
/// scalar makes the whole sequence invalid.
proof fn lemma_invalid_at(s: Seq<u8>, i: int)
    requires
        0 <= i < s.len(),
        partial_valid_utf8(s, i),
        !valid_first_scalar(s.subrange(i, s.len() as int)),
    ensures
        !valid_utf8(s),
{
    let suf = s.subrange(i, s.len() as int);
    assert(suf.len() > 0);
    assert(!valid_utf8(suf));
    partial_valid_partial_invalid_utf8(s, i);
}

/// Decides whether `bytes` is a valid UTF-8 encoding, in the sense of
/// `vstd::utf8::valid_utf8`.
pub fn utf8_is_valid(bytes: &[u8]) -> (ok: bool)
    ensures
        ok == valid_utf8(bytes@),
{
    let ghost full = bytes@;
    let n = bytes.len();
    let mut i: usize = 0;
    while i < n
        invariant
            i <= n,
            n == full.len(),
            full == bytes@,
            partial_valid_utf8(full, i as int),
        decreases n - i,
    {
        let ghost suf = full.subrange(i as int, n as int);
        assert(suf.len() == n - i);
        let rem = n - i;
        let b0 = bytes[i];
        assert(suf[0] == b0);
        if b0 < 0x80 {
            proof {
                lemma_first_scalar_width_1(suf);
                partial_valid_utf8_extend(full, i as int);
            }
            i = i + 1;
        } else if b0 < 0xc2 {
            proof {
                lemma_first_scalar_bad_leading(suf);
                lemma_invalid_at(full, i as int);
            }
            return false;
        } else if b0 < 0xe0 {
            if rem < 2 || !is_cont(bytes[i + 1]) {
                proof {
                    lemma_first_scalar_bad_width_2(suf);
                    lemma_invalid_at(full, i as int);
                }
                return false;
            }
            assert(suf[1] == full[i + 1]);
            proof {
                lemma_first_scalar_width_2(suf);
                partial_valid_utf8_extend(full, i as int);
            }
            i = i + 2;
        } else if b0 < 0xf0 {
            let seq_ok = rem >= 3 && is_cont(bytes[i + 1]) && is_cont(bytes[i + 2]);
            let range_ok = seq_ok && (b0 != 0xe0 || bytes[i + 1] >= 0xa0) && (b0 != 0xed || bytes[i
                + 1] < 0xa0);
            if !range_ok {
                proof {
                    lemma_first_scalar_bad_width_3(suf);
                    lemma_invalid_at(full, i as int);
                }
                return false;
            }
            assert(suf[1] == full[i + 1] && suf[2] == full[i + 2]);
            proof {
                lemma_first_scalar_width_3(suf);
                partial_valid_utf8_extend(full, i as int);
            }
            i = i + 3;
        } else if b0 < 0xf5 {
            let seq_ok = rem >= 4 && is_cont(bytes[i + 1]) && is_cont(bytes[i + 2]) && is_cont(
                bytes[i + 3],
            );
            let range_ok = seq_ok && (b0 != 0xf0 || bytes[i + 1] >= 0x90) && (b0 != 0xf4 || bytes[i
                + 1] < 0x90);
            if !range_ok {
                proof {
                    lemma_first_scalar_bad_width_4(suf);
                    lemma_invalid_at(full, i as int);
                }
                return false;
            }
            assert(suf[1] == full[i + 1] && suf[2] == full[i + 2] && suf[3] == full[i + 3]);
            proof {
                lemma_first_scalar_width_4(suf);
                partial_valid_utf8_extend(full, i as int);
            }
            i = i + 4;
        } else {
            proof {
                lemma_first_scalar_bad_leading(suf);
                lemma_invalid_at(full, i as int);
            }
            return false;
        }
    }
    proof {
        assert(full.subrange(0, n as int) =~= full);
    }
    true
}

/// A valid prefix of a valid encoding ends on a character boundary:
/// scalar encodings are read off one at a time, and each one's width is
/// fixed by its leading byte, so a valid prefix consumes whole scalars.
proof fn lemma_valid_prefix_is_boundary(bytes: Seq<u8>, i: int)
    requires
        valid_utf8(bytes),
        0 <= i <= bytes.len(),
        valid_utf8(bytes.subrange(0, i)),
    ensures
        is_char_boundary(bytes, i),
    decreases bytes.len(),
{
    if i != 0 {
        let s1 = bytes.subrange(0, i);
        let k = length_of_first_scalar(bytes);
        assert(s1[0] == bytes[0]);
        assert(length_of_first_scalar(s1) == k);
        assert(i >= k);
        let tail = pop_first_scalar(bytes);
        assert(pop_first_scalar(s1) =~= tail.subrange(0, i - k));
        lemma_valid_prefix_is_boundary(tail, i - k);
    }
}

/// Law: cutting a valid UTF-8 encoding anywhere but at a character
/// boundary leaves two invalid byte sequences — the cut falls inside
/// one multi-byte encoding, whose leading bytes end the first piece and
/// whose continuation bytes begin the second. Two transport chunks that
/// split a codepoint this way therefore each fail to decode on their
/// own.
pub proof fn lemma_split_inside_codepoint_invalid(bytes: Seq<u8>, i: int)
    requires
        valid_utf8(bytes),
        0 <= i <= bytes.len(),
        !is_char_boundary(bytes, i),
    ensures
        !valid_utf8(bytes.subrange(0, i)),
        !valid_utf8(bytes.subrange(i, bytes.len() as int)),
{
    if valid_utf8(bytes.subrange(0, i)) {
        lemma_valid_prefix_is_boundary(bytes, i);
    }
    is_char_boundary_start_end_of_seq(bytes);
    assert(0 < i < bytes.len());
    is_char_boundary_iff_not_is_continuation_byte(bytes, i);
    let suffix = bytes.subrange(i, bytes.len() as int);
    assert(suffix[0] == bytes[i]);
    lemma_first_scalar_bad_leading(suffix);
    assert(!valid_utf8(suffix));
}

/// Relies on `String::from_utf8` of std: for bytes that are a valid
/// UTF-8 encoding it returns, without failing, the string whose
/// underlying bytes are exactly the given bytes.
#[verifier::external_body]
fn utf8_to_string(bytes: &Vec<u8>) -> (s: String)
    requires
        valid_utf8(bytes@),
    ensures
        encode_utf8(s@) == bytes@,
{
    String::from_utf8(bytes.clone()).unwrap()
}

/// Decodes one response body or transport chunk as UTF-8: the decoded
/// string when the bytes are a valid encoding, and nothing otherwise.
pub fn decode_chunk(bytes: &Vec<u8>) -> (r: Option<String>)
    ensures
        r is Some <==> valid_utf8(bytes@),
        r matches Some(s) ==> s@ == decode_utf8(bytes@),
{
    if utf8_is_valid(bytes.as_slice()) {
        let s = utf8_to_string(bytes);
        proof {
            encode_utf8_decode_utf8(s@);
        }
        Some(s)
    } else {
        None
    }
}

} // verus!
