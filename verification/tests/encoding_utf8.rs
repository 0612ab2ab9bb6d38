//! Tests of the UTF-8 decoder and encoder.

use conversion::converter::encoding::utf8::{UTF8Decoder, UTF8Encoder, UTF8EncodingError};
use conversion::iter::ConvertedIterator;
use conversion::source::VecSource;

fn decode_all(bytes: &[u8]) -> Result<String, UTF8EncodingError> {
    let source = VecSource::new(bytes.to_vec());
    let mut decoded = ConvertedIterator::new(source, UTF8Decoder::new());
    let mut out = String::new();
    while let Some(step) = decoded.next() {
        match step {
            Ok(c) => out.push(c),
            Err(e) => return Err(e),
        }
    }
    Ok(out)
}

fn encode_all(text: &str) -> Vec<u8> {
    let source = VecSource::new(text.chars().collect());
    let mut encoded = ConvertedIterator::new(source, UTF8Encoder::new());
    let mut out = Vec::new();
    while let Some(step) = encoded.next() {
        out.push(step.expect("the UTF-8 encoder never fails"));
    }
    out
}

#[test]
fn decode_utf8() {
    let bytes = b"\x41\xC3\x80\xE3\x81\x82\xF0\x9D\x84\x9E";
    assert_eq!(Ok(String::from("AÀあ𝄞")), decode_all(bytes));
}

#[test]
fn redundancy() {
    assert_eq!(Ok(String::from("/")), decode_all(&[0x2F]));
    assert_eq!(Err(UTF8EncodingError), decode_all(&[0xC0, 0xAF]));
    assert_eq!(Err(UTF8EncodingError), decode_all(&[0xE0, 0x80, 0xAF]));
    assert_eq!(Err(UTF8EncodingError), decode_all(&[0xF0, 0x80, 0x80, 0xAF]));
}

#[test]
fn encode_utf8_widths() {
    assert_eq!(encode_all("A"), vec![0x41]);
    assert_eq!(encode_all("À"), vec![0xC3, 0x80]);
    assert_eq!(encode_all("あ"), vec![0xE3, 0x81, 0x82]);
    assert_eq!(encode_all("𝄞"), vec![0xF0, 0x9D, 0x84, 0x9E]);
}

#[test]
fn utf8_decode_then_encode_round_trip() {
    let bytes = "straße und 𝄞".as_bytes();
    let decoded = decode_all(bytes).expect("valid UTF-8 must decode");
    assert_eq!(encode_all(&decoded), bytes.to_vec());
}

#[test]
fn utf8_truncated_sequence_is_a_finalize_error() {
    // An incomplete three-byte sequence: the decoder buffers both bytes and
    // only the end of the input turns the pending state into an error.
    let source = VecSource::new(vec![0xE2u8, 0x82]);
    let mut decoded = ConvertedIterator::new(source, UTF8Decoder::new());
    assert_eq!(Some(Err(UTF8EncodingError)), decoded.next());
}

#[test]
fn utf8_truncated_four_byte_sequence_is_a_finalize_error() {
    let source = VecSource::new(vec![0xF0u8, 0x9D, 0x84]);
    let mut decoded = ConvertedIterator::new(source, UTF8Decoder::new());
    assert_eq!(Some(Err(UTF8EncodingError)), decoded.next());
}

#[test]
fn utf8_surrogate_range_is_rejected() {
    // 0xED 0xA0 0x80 would decode to the surrogate U+D800.
    assert_eq!(Err(UTF8EncodingError), decode_all(&[0xED, 0xA0, 0x80]));
    // 0xF4 0x90 0x80 0x80 would decode to U+110000, past the last scalar.
    assert_eq!(Err(UTF8EncodingError), decode_all(&[0xF4, 0x90, 0x80, 0x80]));
}

#[test]
fn utf8_stray_continuation_byte_is_rejected() {
    assert_eq!(Err(UTF8EncodingError), decode_all(&[0x80]));
    assert_eq!(Err(UTF8EncodingError), decode_all(&[0xFF]));
}
