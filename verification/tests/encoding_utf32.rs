//! Tests of the UTF-32 decoders and encoders.

use conversion::converter::encoding::utf32::{
    UTF32BEDecoder, UTF32BEEncoder, UTF32Decoder, UTF32Encoder, UTF32EncodingError, UTF32LEDecoder,
    UTF32LEEncoder,
};
use conversion::iter::ConvertedIterator;
use conversion::source::VecSource;

#[test]
fn utf32_encode_then_decode_round_trip() {
    let text = "straße 𝄞";
    let source = VecSource::new(text.chars().collect());
    let mut encoded = ConvertedIterator::new(source, UTF32Encoder::new());
    let mut units: Vec<u32> = Vec::new();
    while let Some(step) = encoded.next() {
        units.push(step.expect("the UTF-32 encoder never fails"));
    }
    let source = VecSource::new(units);
    let mut decoded = ConvertedIterator::new(source, UTF32Decoder::new());
    let mut out = String::new();
    while let Some(step) = decoded.next() {
        out.push(step.expect("its own encoding must decode"));
    }
    assert_eq!(out, text);
}

#[test]
fn utf32_rejects_surrogates_and_out_of_range_values() {
    let source = VecSource::new(vec![0x41u32, 0xD800, 0x1F4A3, 0x110000]);
    let mut decoded = ConvertedIterator::new(source, UTF32Decoder::new());
    assert_eq!(Some(Ok('A')), decoded.next());
    assert_eq!(Some(Err(UTF32EncodingError)), decoded.next());
    assert_eq!(Some(Ok('💣')), decoded.next());
    assert_eq!(Some(Err(UTF32EncodingError)), decoded.next());
    assert_eq!(None, decoded.next());
}

#[test]
fn utf32_be_bytes_round_trip() {
    let text = "A𝄞";
    let source = VecSource::new(text.chars().collect());
    let mut encoded = ConvertedIterator::new(source, UTF32BEEncoder::new());
    let mut bytes: Vec<u8> = Vec::new();
    while let Some(step) = encoded.next() {
        bytes.push(step.expect("the encoder never fails"));
    }
    assert_eq!(bytes, vec![0x00, 0x00, 0x00, 0x41, 0x00, 0x01, 0xD1, 0x1E]);
    let source = VecSource::new(bytes);
    let mut decoded = ConvertedIterator::new(source, UTF32BEDecoder::new());
    let mut out = String::new();
    while let Some(step) = decoded.next() {
        out.push(step.expect("its own encoding must decode"));
    }
    assert_eq!(out, text);
}

#[test]
fn utf32_le_bytes_round_trip() {
    let text = "A𝄞";
    let source = VecSource::new(text.chars().collect());
    let mut encoded = ConvertedIterator::new(source, UTF32LEEncoder::new());
    let mut bytes: Vec<u8> = Vec::new();
    while let Some(step) = encoded.next() {
        bytes.push(step.expect("the encoder never fails"));
    }
    assert_eq!(bytes, vec![0x41, 0x00, 0x00, 0x00, 0x1E, 0xD1, 0x01, 0x00]);
    let source = VecSource::new(bytes);
    let mut decoded = ConvertedIterator::new(source, UTF32LEDecoder::new());
    let mut out = String::new();
    while let Some(step) = decoded.next() {
        out.push(step.expect("its own encoding must decode"));
    }
    assert_eq!(out, text);
}

#[test]
fn utf32_be_pending_bytes_are_a_finalize_error() {
    let source = VecSource::new(vec![0x00u8, 0x00, 0x00]);
    let mut decoded = ConvertedIterator::new(source, UTF32BEDecoder::new());
    assert_eq!(Some(Err(UTF32EncodingError)), decoded.next());
}

#[test]
fn utf32_le_pending_bytes_are_a_finalize_error() {
    let source = VecSource::new(vec![0x41u8]);
    let mut decoded = ConvertedIterator::new(source, UTF32LEDecoder::new());
    assert_eq!(Some(Err(UTF32EncodingError)), decoded.next());
}
