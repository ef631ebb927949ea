//! Lossy decoding of a UTF-8 byte stream that arrives in arbitrary chunks.
//!
//! A pseudo-terminal delivers raw bytes with no respect for character
//! boundaries, so a multi-byte character can be split across two read
//! chunks.  This module defines the decoding policy of the library:
//! [`lossy_decode`] maps any byte sequence to characters, replacing every
//! byte that does not begin a well-formed scalar encoding with U+FFFD, and
//! [`incomplete_tail_len`] identifies a trailing, still-completable scalar
//! prefix so that the caller can hold it back until more bytes arrive
//! instead of corrupting it.  [`lemma_reassembly_stable`] proves that
//! cutting a stream at that point never changes what the stream decodes to.

use vstd::prelude::*;
use vstd::utf8::*;

verus! {

/// The characters denoted by a byte sequence, replacing every byte that does
/// not begin a well-formed UTF-8 scalar encoding with U+FFFD.
///
/// A well-formed encoding is consumed whole; any other byte is replaced
/// one byte at a time, so an overlong or truncated encoding becomes one
/// replacement character per byte.
pub open spec fn lossy_decode(bytes: Seq<u8>) -> Seq<char>
    decreases bytes.len(),
{
    if bytes.len() == 0 {
        Seq::empty()
    } else if valid_first_scalar(bytes) {
        seq![decode_first_scalar(bytes) as char] + lossy_decode(pop_first_scalar(bytes))
    } else {
        seq!['\u{fffd}'] + lossy_decode(bytes.drop_first())
    }
}

/// The number of bytes a UTF-8 encoding starting with this leading byte
/// occupies, or 0 when the byte cannot lead an encoding.
pub open spec fn lead_width(b: u8) -> int {
    if is_leading_byte_width_1(b) {
        1
    } else if is_leading_byte_width_2(b) {
        2
    } else if is_leading_byte_width_3(b) {
        3
    } else if is_leading_byte_width_4(b) {
        4
    } else {
        0
    }
}

/// The length of the trailing incomplete scalar encoding of the sequence: a
/// leading byte followed only by continuation bytes, with fewer bytes present
/// than the leading byte announces.  0 when the sequence ends on a complete
/// or undecodable unit.
pub open spec fn incomplete_tail_len(bytes: Seq<u8>) -> int {
    let n = bytes.len() as int;
    if n >= 1 && !is_continuation_byte(bytes[n - 1]) {
        if lead_width(bytes[n - 1]) > 1 {
            1
        } else {
            0
        }
    } else if n >= 2 && !is_continuation_byte(bytes[n - 2]) {
        if lead_width(bytes[n - 2]) > 2 {
            2
        } else {
            0
        }
    } else if n >= 3 && !is_continuation_byte(bytes[n - 3]) {
        if lead_width(bytes[n - 3]) > 3 {
            3
        } else {
            0
        }
    } else {
        0
    }
}

/// The split point of a chunked stream: everything before it is decoded now,
/// everything from it on is held back until more bytes arrive.
pub open spec fn complete_prefix_end(bytes: Seq<u8>) -> int {
    bytes.len() - incomplete_tail_len(bytes)
}

/// The incomplete tail is never longer than three bytes and never the whole
/// of a four-byte-or-longer sequence.
pub proof fn lemma_incomplete_tail_bounds(bytes: Seq<u8>)
    ensures
        0 <= incomplete_tail_len(bytes) <= 3,
        incomplete_tail_len(bytes) <= bytes.len(),
        0 <= complete_prefix_end(bytes) <= bytes.len(),
{
}

/// Whether this byte has the form of a UTF-8 continuation byte.
pub fn byte_is_continuation(b: u8) -> (r: bool)
    ensures
        r == is_continuation_byte(b),
{
    0x80 <= b && b <= 0xBF
}

/// The announced width of an encoding led by this byte, 0 when it leads none.
pub fn byte_lead_width(b: u8) -> (r: u8)
    ensures
        r as int == lead_width(b),
{
    if b <= 0x7F {
        1
    } else if 0xC0 <= b && b <= 0xDF {
        2
    } else if 0xE0 <= b && b <= 0xEF {
        3
    } else if 0xF0 <= b && b <= 0xF7 {
        4
    } else {
        0
    }
}

/// The number of leading bytes that may be decoded now; the rest is the
/// incomplete tail, to be held back until more bytes arrive.
pub fn complete_prefix_len(bytes: &[u8]) -> (r: usize)
    ensures
        r as int == complete_prefix_end(bytes@),
{
    let n = bytes.len();
    if n >= 1 && !byte_is_continuation(bytes[n - 1]) {
        if byte_lead_width(bytes[n - 1]) > 1 {
            n - 1
        } else {
            n
        }
    } else if n >= 2 && !byte_is_continuation(bytes[n - 2]) {
        if byte_lead_width(bytes[n - 2]) > 2 {
            n - 2
        } else {
            n
        }
    } else if n >= 3 && !byte_is_continuation(bytes[n - 3]) {
        if byte_lead_width(bytes[n - 3]) > 3 {
            n - 3
        } else {
            n
        }
    } else {
        n
    }
}

/// If two sequences agree on the shorter one's bytes, a scalar encoding that
/// fits within the shorter one is read the same way in both.
proof fn lemma_first_scalar_prefix(a: Seq<u8>, b: Seq<u8>)
    requires
        a.len() <= b.len(),
        forall|i: int| 0 <= i < a.len() ==> a[i] == b[i],
    ensures
        valid_first_scalar(b) && length_of_first_scalar(b) <= a.len() ==> valid_first_scalar(a)
            && decode_first_scalar(a) == decode_first_scalar(b) && length_of_first_scalar(a)
            == length_of_first_scalar(b),
        valid_first_scalar(a) ==> valid_first_scalar(b) && decode_first_scalar(a)
            == decode_first_scalar(b) && length_of_first_scalar(a) == length_of_first_scalar(b),
{
}

/// Decoding distributes over a cut that no scalar encoding crosses.
proof fn lemma_lossy_concat_no_cross(x: Seq<u8>, r: Seq<u8>)
    requires
        forall|p: int|
            0 <= p < x.len() && valid_first_scalar(#[trigger] (x + r).skip(p)) ==> p
                + length_of_first_scalar((x + r).skip(p)) <= x.len(),
    ensures
        lossy_decode(x + r) == lossy_decode(x) + lossy_decode(r),
    decreases x.len(),
{
    let y = x + r;
    if x.len() == 0 {
        assert(y =~= r);
        assert(lossy_decode(x) + lossy_decode(r) =~= lossy_decode(r));
    } else if valid_first_scalar(y) {
        assert(y.skip(0) =~= y);
        let w = length_of_first_scalar(y);
        assert(w <= x.len());
        lemma_first_scalar_prefix(x, y);
        let x1 = x.skip(w);
        assert(pop_first_scalar(y) =~= x1 + r);
        assert(pop_first_scalar(x) =~= x1);
        assert forall|p: int|
            0 <= p < x1.len() && valid_first_scalar(#[trigger] (x1 + r).skip(p)) implies p
            + length_of_first_scalar((x1 + r).skip(p)) <= x1.len() by {
            assert((x1 + r).skip(p) =~= y.skip(w + p));
        }
        lemma_lossy_concat_no_cross(x1, r);
        assert(lossy_decode(y) == seq![decode_first_scalar(y) as char] + (lossy_decode(x1)
            + lossy_decode(r)));
        assert(lossy_decode(x) + lossy_decode(r) =~= seq![decode_first_scalar(y) as char] + (
        lossy_decode(x1) + lossy_decode(r)));
    } else {
        lemma_first_scalar_prefix(x, y);
        assert(y.skip(0) =~= y);
        assert(!valid_first_scalar(x));
        let x1 = x.drop_first();
        assert(y.drop_first() =~= x1 + r);
        assert forall|p: int|
            0 <= p < x1.len() && valid_first_scalar(#[trigger] (x1 + r).skip(p)) implies p
            + length_of_first_scalar((x1 + r).skip(p)) <= x1.len() by {
            assert((x1 + r).skip(p) =~= y.skip(1 + p));
        }
        lemma_lossy_concat_no_cross(x1, r);
        assert(lossy_decode(y) == seq!['\u{fffd}'] + (lossy_decode(x1) + lossy_decode(r)));
        assert(lossy_decode(x) + lossy_decode(r) =~= seq!['\u{fffd}'] + (lossy_decode(x1)
            + lossy_decode(r)));
    }
}

/// No scalar encoding of the extended stream crosses the split point that
/// `incomplete_tail_len` chose for the unextended one.
proof fn lemma_no_cross_at_cut(b: Seq<u8>, e: Seq<u8>)
    ensures
        forall|p: int|
            0 <= p < complete_prefix_end(b) && valid_first_scalar(#[trigger] (b + e).skip(p)) ==> p
                + length_of_first_scalar((b + e).skip(p)) <= complete_prefix_end(b),
{
    let n = b.len() as int;
    let s = complete_prefix_end(b);
    let y = b + e;
    assert forall|p: int|
        0 <= p < s && valid_first_scalar(#[trigger] y.skip(p)) implies p + length_of_first_scalar(
        y.skip(p)) <= s by {
        let rest = y.skip(p);
        let w = length_of_first_scalar(rest);
        assert(forall|k: int| 0 <= k < rest.len() ==> rest[k] == y[p + k]);
        assert(forall|k: int| 0 <= k < n ==> y[k] == b[k]);
        if p + w > s {
            // the encoding at p would cross the split point
            assert(1 <= w <= 4);
            assert(forall|j: int| 1 <= j < w ==> is_continuation_byte(#[trigger] rest[j]));
            if s < n {
                // the byte at the split point heads the incomplete tail and
                // is not a continuation byte, yet p < s < p + w says it must be
                assert(!is_continuation_byte(b[s]));
                assert(is_continuation_byte(rest[s - p]));
                assert(false);
            } else {
                // the tail is empty, so the leading byte at p announces an
                // encoding that fits inside b, and p + w <= n == s
                assert(p >= n - 3);
                assert(lead_width(b[p]) == w);
                assert(forall|j: int| p < j < n ==> is_continuation_byte(#[trigger] b[j]));
                if p == n - 1 {
                    assert(incomplete_tail_len(b) == 1);
                } else if p == n - 2 {
                    assert(incomplete_tail_len(b) == 2);
                } else {
                    assert(p == n - 3);
                    assert(incomplete_tail_len(b) == 3);
                }
                assert(false);
            }
        }
    }
}

/// Cutting a stream just before its incomplete trailing scalar encoding and
/// decoding the two parts separately — the tail only after any further bytes
/// have been appended — yields exactly the decoding of the whole stream.
///
/// This is what makes the read path safe for multi-byte characters split
/// across chunks: output already delivered is a decoding of the stream up to
/// the cut, and no continuation that arrives later can change it.
pub proof fn lemma_reassembly_stable(b: Seq<u8>, e: Seq<u8>)
    ensures
        lossy_decode(b + e) == lossy_decode(b.take(complete_prefix_end(b))) + lossy_decode(
            b.skip(complete_prefix_end(b)) + e,
        ),
{
    let s = complete_prefix_end(b);
    let x = b.take(s);
    let r = b.skip(s) + e;
    assert(x + r =~= b + e);
    lemma_no_cross_at_cut(b, e);
    assert forall|p: int|
        0 <= p < x.len() && valid_first_scalar(#[trigger] (x + r).skip(p)) implies p
        + length_of_first_scalar((x + r).skip(p)) <= x.len() by {
        assert((x + r).skip(p) =~= (b + e).skip(p));
    }
    lemma_lossy_concat_no_cross(x, r);
}

/// The held-back tail is wholly incomplete: splitting it again holds all of
/// it back, so a session's carry buffer is stable until new bytes arrive.
pub proof fn lemma_carry_wf(b: Seq<u8>)
    ensures
        incomplete_tail_len(b.skip(complete_prefix_end(b))) == incomplete_tail_len(b),
        complete_prefix_end(b.skip(complete_prefix_end(b))) == 0,
{
    let t = incomplete_tail_len(b);
    let c = b.skip(complete_prefix_end(b));
    assert(c.len() == t);
    if t == 0 {
    } else {
        assert(forall|k: int| 0 <= k < t ==> c[k] == b[b.len() - t + k]);
    }
}

/// On a well-formed UTF-8 sequence the lossy policy agrees with plain
/// decoding: no replacement characters appear.
pub proof fn lemma_lossy_decode_of_valid(b: Seq<u8>)
    requires
        valid_utf8(b),
    ensures
        lossy_decode(b) == decode_utf8(b),
    decreases b.len(),
{
    if b.len() == 0 {
    } else {
        assert(length_of_first_scalar(b) >= 1);
        lemma_lossy_decode_of_valid(pop_first_scalar(b));
    }
}

/// Relies on `char::from_u32`: it returns `Some` exactly for the Unicode
/// scalar values, which `requires` restricts the argument to.
#[verifier::external_body]
fn char_of_scalar(v: u32) -> (c: char)
    requires
        is_scalar(v),
    ensures
        c as u32 == v,
{
    char::from_u32(v).unwrap_or('\u{fffd}')
}

/// Relies on `String::push`: it appends the given character.
#[verifier::external_body]
fn push_char(s: &mut String, c: char)
    ensures
        final(s)@ == old(s)@.push(c),
{
    s.push(c);
}

/// Decodes a byte slice to text under the library's lossy policy.
pub fn decode_lossy(bytes: &[u8]) -> (s: String)
    ensures
        s@ == lossy_decode(bytes@),
{
    let n: usize = bytes.len();
    let mut s = String::new();
    let mut i: usize = 0;
    proof {
        assert(bytes@.skip(0) =~= bytes@);
        assert(s@ + lossy_decode(bytes@) =~= lossy_decode(bytes@));
    }
    while i < n
        invariant
            i <= n,
            n == bytes@.len(),
            lossy_decode(bytes@) == s@ + lossy_decode(bytes@.skip(i as int)),
        decreases n - i,
    {
        let ghost rest = bytes@.skip(i as int);
        proof {
            assert(rest.len() == n - i);
            assert(forall|k: int| 0 <= k < rest.len() ==> rest[k] == bytes@[i + k]);
        }
        let b0 = bytes[i];
        assert(rest[0] == b0);
        let mut width: usize = 0;
        let mut scalar: u32 = 0;
        if b0 < 0x80 {
            width = 1;
            scalar = b0 as u32;
            proof {
                assert(is_leading_byte_width_1(b0));
                assert(valid_first_scalar(rest));
                assert(codepoint_width_1(b0) == b0 as u32) by (bit_vector)
                    requires
                        b0 < 0x80,
                ;
                assert(decode_first_scalar(rest) == scalar);
                assert(length_of_first_scalar(rest) == 1);
            }
        } else if b0 < 0xC0 {
            // a continuation byte cannot begin an encoding
            proof {
                assert(!valid_first_scalar(rest));
            }
        } else if b0 < 0xE0 {
            if n - i >= 2 && 0x80 <= bytes[i + 1] && bytes[i + 1] < 0xC0 {
                let b1 = bytes[i + 1];
                assert(rest[1] == b1);
                let v: u32 = (((b0 & 0x1F) as u32) << 6) | ((b1 & 0x3F) as u32);
                proof {
                    assert(v == codepoint_width_2(b0, b1));
                    assert(v <= 0x7FF) by (bit_vector)
                        requires
                            v == (((b0 & 0x1F) as u32) << 6) | ((b1 & 0x3F) as u32),
                    ;
                }
                if v >= 0x80 {
                    width = 2;
                    scalar = v;
                    proof {
                        assert(valid_first_scalar(rest));
                        assert(decode_first_scalar(rest) == scalar);
                        assert(length_of_first_scalar(rest) == 2);
                    }
                } else {
                    proof {
                        assert(!valid_first_scalar(rest));
                    }
                }
            } else {
                proof {
                    assert(!valid_first_scalar(rest));
                }
            }
        } else if b0 < 0xF0 {
            if n - i >= 3 && 0x80 <= bytes[i + 1] && bytes[i + 1] < 0xC0 && 0x80 <= bytes[i + 2]
                && bytes[i + 2] < 0xC0 {
                let b1 = bytes[i + 1];
                let b2 = bytes[i + 2];
                assert(rest[1] == b1 && rest[2] == b2);
                let v: u32 = (((b0 & 0x0F) as u32) << 12) | (((b1 & 0x3F) as u32) << 6) | ((b2
                    & 0x3F) as u32);
                proof {
                    assert(v == codepoint_width_3(b0, b1, b2));
                    assert(v <= 0xFFFF) by (bit_vector)
                        requires
                            v == (((b0 & 0x0F) as u32) << 12) | (((b1 & 0x3F) as u32) << 6) | ((b2
                                & 0x3F) as u32),
                    ;
                }
                if v >= 0x800 && !(0xD800 <= v && v <= 0xDFFF) {
                    width = 3;
                    scalar = v;
                    proof {
                        assert(valid_first_scalar(rest));
                        assert(decode_first_scalar(rest) == scalar);
                        assert(length_of_first_scalar(rest) == 3);
                    }
                } else {
                    proof {
                        assert(!valid_first_scalar(rest));
                    }
                }
            } else {
                proof {
                    assert(!valid_first_scalar(rest));
                }
            }
        } else if b0 < 0xF8 {
            if n - i >= 4 && 0x80 <= bytes[i + 1] && bytes[i + 1] < 0xC0 && 0x80 <= bytes[i + 2]
                && bytes[i + 2] < 0xC0 && 0x80 <= bytes[i + 3] && bytes[i + 3] < 0xC0 {
                let b1 = bytes[i + 1];
                let b2 = bytes[i + 2];
                let b3 = bytes[i + 3];
                assert(rest[1] == b1 && rest[2] == b2 && rest[3] == b3);
                let v: u32 = (((b0 & 0x07) as u32) << 18) | (((b1 & 0x3F) as u32) << 12) | (((b2
                    & 0x3F) as u32) << 6) | ((b3 & 0x3F) as u32);
                proof {
                    assert(v == codepoint_width_4(b0, b1, b2, b3));
                }
                if 0x10000 <= v && v <= 0x10FFFF {
                    width = 4;
                    scalar = v;
                    proof {
                        assert(valid_first_scalar(rest));
                        assert(decode_first_scalar(rest) == scalar);
                        assert(length_of_first_scalar(rest) == 4);
                    }
                } else {
                    proof {
                        assert(!valid_first_scalar(rest));
                    }
                }
            } else {
                proof {
                    assert(!valid_first_scalar(rest));
                }
            }
        } else {
            proof {
                assert(!valid_first_scalar(rest));
            }
        }
        let ghost s0 = s@;
        if width == 0 {
            push_char(&mut s, '\u{fffd}');
            proof {
                assert(!valid_first_scalar(rest));
                assert(lossy_decode(rest) == seq!['\u{fffd}'] + lossy_decode(rest.drop_first()));
                assert(rest.drop_first() =~= bytes@.skip(i + 1));
                assert(s@ =~= s0 + seq!['\u{fffd}']);
                assert(s0 + (seq!['\u{fffd}'] + lossy_decode(bytes@.skip(i + 1))) =~= s@
                    + lossy_decode(bytes@.skip(i + 1)));
            }
            i = i + 1;
        } else {
            assert(is_scalar(scalar));
            assert(valid_first_scalar(rest) && decode_first_scalar(rest) == scalar
                && length_of_first_scalar(rest) == width);
            let c = char_of_scalar(scalar);
            push_char(&mut s, c);
            proof {
                char_u32_cast(c, scalar);
                assert(lossy_decode(rest) == seq![decode_first_scalar(rest) as char]
                    + lossy_decode(pop_first_scalar(rest)));
                assert(decode_first_scalar(rest) as char == c);
                assert(pop_first_scalar(rest) =~= bytes@.skip(i + width));
                assert(s@ =~= s0 + seq![c]);
                assert(s0 + (seq![c] + lossy_decode(bytes@.skip(i + width))) =~= s@
                    + lossy_decode(bytes@.skip(i + width)));
            }
            i = i + width;
        }
    }
    proof {
        assert(bytes@.skip(n as int) =~= Seq::<u8>::empty());
        assert(s@ + Seq::<char>::empty() =~= s@);
    }
    s
}

} // verus!
