use termmux::utf8_stream::byte_is_continuation;
use termmux::utf8_stream::byte_lead_width;
use termmux::utf8_stream::complete_prefix_len;
use termmux::utf8_stream::decode_lossy;

#[test]
fn decode_ascii() {
    assert_eq!(decode_lossy(b"hello"), "hello");
    assert_eq!(decode_lossy(b""), "");
}

#[test]
fn decode_two_byte() {
    // U+00E9, latin small letter e with acute
    assert_eq!(decode_lossy(&[0xC3, 0xA9]), "\u{e9}");
}

#[test]
fn decode_three_byte() {
    // U+20AC, euro sign
    assert_eq!(decode_lossy(&[0xE2, 0x82, 0xAC]), "\u{20ac}");
}

#[test]
fn decode_four_byte() {
    // U+1F600, grinning face
    assert_eq!(decode_lossy(&[0xF0, 0x9F, 0x98, 0x80]), "\u{1f600}");
}

#[test]
fn decode_mixed() {
    assert_eq!(decode_lossy(&[b'a', 0xC3, 0xA9, b'b']), "a\u{e9}b");
}

#[test]
fn decode_invalid_byte_is_replaced() {
    assert_eq!(decode_lossy(&[0xFF]), "\u{fffd}");
    assert_eq!(decode_lossy(&[b'a', 0xFF, b'b']), "a\u{fffd}b");
}

#[test]
fn decode_lone_continuation_is_replaced() {
    assert_eq!(decode_lossy(&[0x80]), "\u{fffd}");
}

#[test]
fn decode_overlong_is_replaced_per_byte() {
    // 0xC0 0x80 is an overlong encoding of NUL
    assert_eq!(decode_lossy(&[0xC0, 0x80]), "\u{fffd}\u{fffd}");
}

#[test]
fn decode_surrogate_is_replaced_per_byte() {
    // 0xED 0xA0 0x80 encodes the surrogate U+D800
    assert_eq!(decode_lossy(&[0xED, 0xA0, 0x80]), "\u{fffd}\u{fffd}\u{fffd}");
}

#[test]
fn decode_truncated_tail_is_replaced() {
    // the first two bytes of the euro sign, with no continuation to follow
    assert_eq!(decode_lossy(&[b'a', 0xE2, 0x82]), "a\u{fffd}\u{fffd}");
}

#[test]
fn prefix_of_complete_text_is_whole() {
    assert_eq!(complete_prefix_len(b"hello"), 5);
    assert_eq!(complete_prefix_len(&[0xC3, 0xA9]), 2);
    assert_eq!(complete_prefix_len(&[]), 0);
}

#[test]
fn prefix_excludes_incomplete_tail() {
    // a two-byte lead with no continuation yet
    assert_eq!(complete_prefix_len(&[b'h', 0xC3]), 1);
    // a three-byte lead with one continuation
    assert_eq!(complete_prefix_len(&[b'h', 0xE2, 0x82]), 1);
    // a four-byte lead with two continuations
    assert_eq!(complete_prefix_len(&[0xF0, 0x9F, 0x98]), 0);
}

#[test]
fn prefix_keeps_undecodable_tails() {
    // a complete three-byte character ends the buffer: nothing is held
    assert_eq!(complete_prefix_len(&[0xE2, 0x82, 0xAC]), 3);
    // a dangling continuation cannot complete: nothing is held
    assert_eq!(complete_prefix_len(&[b'a', 0x80]), 2);
    // an invalid lead cannot complete: nothing is held
    assert_eq!(complete_prefix_len(&[b'a', 0xFF]), 2);
    // four continuation bytes never end an incomplete encoding
    assert_eq!(complete_prefix_len(&[0x80, 0x80, 0x80, 0x80]), 4);
}

#[test]
fn byte_classes() {
    assert!(byte_is_continuation(0x80));
    assert!(byte_is_continuation(0xBF));
    assert!(!byte_is_continuation(0x7F));
    assert!(!byte_is_continuation(0xC0));
    assert_eq!(byte_lead_width(b'a'), 1);
    assert_eq!(byte_lead_width(0xC3), 2);
    assert_eq!(byte_lead_width(0xE2), 3);
    assert_eq!(byte_lead_width(0xF0), 4);
    assert_eq!(byte_lead_width(0x80), 0);
    assert_eq!(byte_lead_width(0xF8), 0);
}
