//! Tests of the UTF-16 decoders and encoders.

use conversion::converter::encoding::utf16::{
    UTF16BEDecoder, UTF16BEEncoder, UTF16Decoder, UTF16Encoder, UTF16EncodingError, UTF16LEDecoder,
    UTF16LEEncoder,
};
use conversion::iter::ConvertedIterator;
use conversion::source::VecSource;

fn decode_units(units: &[u16]) -> Vec<Result<char, UTF16EncodingError>> {
    let source = VecSource::new(units.to_vec());
    let mut decoded = ConvertedIterator::new(source, UTF16Decoder::new());
    let mut out = Vec::new();
    while let Some(step) = decoded.next() {
        let failed = step.is_err();
        out.push(step);
        if failed {
            // A conversion error is fatal for the stream: stop here, as a
            // caller collecting into a single `Result` would.
            break;
        }
    }
    out
}

#[test]
fn utf16_decode_with_surrogate_pairs() {
    let units = [0xD834, 0xDD1E, 0x006D, 0x0075, 0x0073, 0xDD1E, 0x0069, 0x0063, 0xD834];
    let source = VecSource::new(units.to_vec());
    let mut decoded = ConvertedIterator::new(source, UTF16Decoder::new());
    assert_eq!(Some(Ok('𝄞')), decoded.next());
    assert_eq!(Some(Ok('m')), decoded.next());
    assert_eq!(Some(Ok('u')), decoded.next());
    assert_eq!(Some(Ok('s')), decoded.next());
    assert_eq!(Some(Err(UTF16EncodingError)), decoded.next());
    assert_eq!(Some(Ok('i')), decoded.next());
    assert_eq!(Some(Ok('c')), decoded.next());
    assert_eq!(Some(Err(UTF16EncodingError)), decoded.next());
}

#[test]
fn utf16_encode_then_decode_round_trip() {
    let text = "𝄞music with 💣";
    let source = VecSource::new(text.chars().collect());
    let mut encoded = ConvertedIterator::new(source, UTF16Encoder::new());
    let mut units: Vec<u16> = Vec::new();
    while let Some(step) = encoded.next() {
        units.push(step.expect("the UTF-16 encoder never fails"));
    }
    let decoded: Vec<char> = decode_units(&units)
        .into_iter()
        .map(|r| r.expect("its own encoding must decode"))
        .collect();
    assert_eq!(decoded.into_iter().collect::<String>(), text);
}

#[test]
fn utf16_be_bytes_round_trip() {
    let text = "𝄞music";
    let source = VecSource::new(text.chars().collect());
    let mut encoded = ConvertedIterator::new(source, UTF16BEEncoder::new());
    let mut bytes: Vec<u8> = Vec::new();
    while let Some(step) = encoded.next() {
        bytes.push(step.expect("the encoder never fails"));
    }
    assert_eq!(
        bytes,
        b"\xD8\x34\xDD\x1E\x00\x6D\x00\x75\x00\x73\x00\x69\x00\x63".to_vec()
    );
    let source = VecSource::new(bytes);
    let mut decoded = ConvertedIterator::new(source, UTF16BEDecoder::new());
    let mut out = String::new();
    while let Some(step) = decoded.next() {
        out.push(step.expect("its own encoding must decode"));
    }
    assert_eq!(out, text);
}

#[test]
fn utf16_le_bytes_round_trip() {
    let text = "𝄞music";
    let source = VecSource::new(text.chars().collect());
    let mut encoded = ConvertedIterator::new(source, UTF16LEEncoder::new());
    let mut bytes: Vec<u8> = Vec::new();
    while let Some(step) = encoded.next() {
        bytes.push(step.expect("the encoder never fails"));
    }
    assert_eq!(
        bytes,
        b"\x34\xD8\x1E\xDD\x6D\x00\x75\x00\x73\x00\x69\x00\x63\x00".to_vec()
    );
    let source = VecSource::new(bytes);
    let mut decoded = ConvertedIterator::new(source, UTF16LEDecoder::new());
    let mut out = String::new();
    while let Some(step) = decoded.next() {
        out.push(step.expect("its own encoding must decode"));
    }
    assert_eq!(out, text);
}

#[test]
fn utf16_lone_high_surrogate_is_a_finalize_error() {
    assert_eq!(decode_units(&[0xD834]), vec![Err(UTF16EncodingError)]);
}

#[test]
fn utf16_lone_low_surrogate_is_an_immediate_error() {
    let source = VecSource::new(vec![0xDD1Eu16, 0x0041]);
    let mut decoded = ConvertedIterator::new(source, UTF16Decoder::new());
    assert_eq!(Some(Err(UTF16EncodingError)), decoded.next());
    assert_eq!(Some(Ok('A')), decoded.next());
    assert_eq!(None, decoded.next());
}

#[test]
fn utf16_high_surrogate_followed_by_ordinary_unit_is_an_error() {
    assert_eq!(
        decode_units(&[0xD834, 0x0041]),
        vec![Err(UTF16EncodingError)]
    );
}

#[test]
fn utf16_be_lone_byte_is_a_finalize_error() {
    let source = VecSource::new(vec![0x00u8, 0x41, 0x00]);
    let mut decoded = ConvertedIterator::new(source, UTF16BEDecoder::new());
    assert_eq!(Some(Ok('A')), decoded.next());
    assert_eq!(Some(Err(UTF16EncodingError)), decoded.next());
}
