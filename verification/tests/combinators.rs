//! Tests of the ASCII transcoders and the item-wise combinators.

use std::collections::VecDeque;

use conversion::converter::encoding::ascii::{ASCIIDecoder, ASCIIEncoder, ASCIIEncodingError};
use conversion::converter::{
    ExactConverter, IntoConverter, IterConverter, ItemEq, MapConverter, TryMapConverter,
    UnmatchedError,
};
use conversion::infallible::{InfallibleConverter, InfallibleResult};
use conversion::iter::ConvertedIterator;
use conversion::source::VecSource;
use conversion::Converter;

#[test]
fn ascii_decode() {
    let source = VecSource::new(b"stra\xC3\x9Fe".to_vec());
    let mut decoded = ConvertedIterator::new(source, ASCIIDecoder::new());
    assert_eq!(Some(Ok('s')), decoded.next());
    assert_eq!(Some(Ok('t')), decoded.next());
    assert_eq!(Some(Ok('r')), decoded.next());
    assert_eq!(Some(Ok('a')), decoded.next());
    assert_eq!(Some(Err(ASCIIEncodingError)), decoded.next());
    assert_eq!(Some(Err(ASCIIEncodingError)), decoded.next());
    assert_eq!(Some(Ok('e')), decoded.next());
    assert_eq!(None, decoded.next());
}

#[test]
fn ascii_encode() {
    let source = VecSource::new("straße".chars().collect());
    let mut encoded = ConvertedIterator::new(source, ASCIIEncoder::new());
    assert_eq!(Some(Ok(b's')), encoded.next());
    assert_eq!(Some(Ok(b't')), encoded.next());
    assert_eq!(Some(Ok(b'r')), encoded.next());
    assert_eq!(Some(Ok(b'a')), encoded.next());
    assert_eq!(Some(Err(ASCIIEncodingError)), encoded.next());
    assert_eq!(Some(Ok(b'e')), encoded.next());
    assert_eq!(None, encoded.next());
}

#[test]
fn exact_converter_consumes_its_pattern() {
    let source = VecSource::new("abc".chars().collect());
    let conv: ExactConverter<char, ()> = ExactConverter::new(vec!['a', 'b', 'c']);
    let mut matched = ConvertedIterator::new(source, conv);
    assert_eq!(None, matched.next());
}

#[test]
fn exact_converter_rejects_the_first_mismatch() {
    let source = VecSource::new("bcd".chars().collect());
    let conv: ExactConverter<char, ()> = ExactConverter::new(vec!['a', 'b', 'c']);
    let mut matched = ConvertedIterator::new(source, conv);
    assert_eq!(Some(Err(UnmatchedError)), matched.next());
}

#[test]
fn exact_converter_reports_an_unfinished_pattern_at_the_end() {
    // Only part of the pattern arrives before the input ends: the driver
    // finalizes the matcher and the unfinished match surfaces as an error.
    let source = VecSource::new("ab".chars().collect());
    let conv: ExactConverter<char, ()> = ExactConverter::new(vec!['a', 'b', 'c']);
    let mut matched = ConvertedIterator::new(source, conv);
    assert_eq!(Some(Err(UnmatchedError)), matched.next());
}

#[test]
fn item_eq_agrees_with_equality() {
    assert!('a'.eq_item(&'a'));
    assert!(!'a'.eq_item(&'b'));
    assert!('\u{1F4A3}'.eq_item(&'\u{1F4A3}'));
    assert!(0xFFu8.eq_item(&0xFF));
    assert!(!0u64.eq_item(&1));
    assert!(true.eq_item(&true));
}

#[test]
fn map_converter_applies_the_function() {
    let source = VecSource::new(vec![1i32, 2, 3]);
    let mut doubled = ConvertedIterator::new(source, MapConverter::new(|x: i32| 2 * x));
    assert_eq!(Some(Ok(2)), doubled.next());
    assert_eq!(Some(Ok(4)), doubled.next());
    assert_eq!(Some(Ok(6)), doubled.next());
    assert_eq!(None, doubled.next());
}

#[test]
fn try_map_converter_surfaces_its_errors() {
    let source = VecSource::new(vec![3i32, 0, 7]);
    let divide = TryMapConverter::new(|i: i32| 42i32.checked_div(i).ok_or("division by zero"));
    let mut converted = ConvertedIterator::new(source, divide);
    assert_eq!(Some(Ok(14)), converted.next());
    assert_eq!(Some(Err("division by zero")), converted.next());
    assert_eq!(Some(Ok(6)), converted.next());
    assert_eq!(None, converted.next());
}

#[test]
fn iter_converter_emits_every_output() {
    let source = VecSource::new(vec![1u8, 2]);
    let tripled = IterConverter::new(|x: u8| vec![x, x, x]);
    let mut converted = ConvertedIterator::new(source, tripled);
    assert_eq!(Some(Ok(1)), converted.next());
    assert_eq!(Some(Ok(1)), converted.next());
    assert_eq!(Some(Ok(1)), converted.next());
    assert_eq!(Some(Ok(2)), converted.next());
    assert_eq!(Some(Ok(2)), converted.next());
    assert_eq!(Some(Ok(2)), converted.next());
    assert_eq!(None, converted.next());
}

#[test]
fn into_converter_uses_the_standard_conversion() {
    let source = VecSource::new(vec![0x2764u32, 0x110000]);
    let mut decoded = ConvertedIterator::new(source, IntoConverter::<u32, char>::new());
    assert_eq!(Some(Ok('❤')), decoded.next());
    assert!(matches!(decoded.next(), Some(Err(_))));
    assert_eq!(None, decoded.next());
}

#[test]
fn infallible_converter_unwraps_without_errors() {
    let mut buf: VecDeque<u8> = VecDeque::new();
    let mut encoder = conversion::converter::encoding::utf8::UTF8Encoder::new();
    let n = encoder.convert_ok('À', &mut buf);
    assert_eq!(n, 2);
    assert_eq!(buf, VecDeque::from(vec![0xC3, 0x80]));
    encoder.finalize_ok();
}

#[test]
fn unwrap_infallible_returns_the_success_value() {
    let mut buf: VecDeque<u16> = VecDeque::new();
    let mut encoder = conversion::converter::encoding::utf16::UTF16Encoder::new();
    let n = encoder.convert('A', &mut buf).unwrap_infallible();
    assert_eq!(n, 1);
    assert_eq!(buf, VecDeque::from(vec![0x41]));
}

#[test]
fn size_hints_report_the_documented_bounds() {
    assert_eq!(ASCIIDecoder::new().size_hint(), (1, Some(1)));
    assert_eq!(
        conversion::converter::encoding::utf8::UTF8Decoder::new().size_hint(),
        (0, Some(1))
    );
    assert_eq!(
        conversion::converter::encoding::utf8::UTF8Encoder::new().size_hint(),
        (1, Some(4))
    );
    assert_eq!(
        conversion::converter::encoding::utf16::UTF16BEEncoder::new().size_hint(),
        (2, Some(4))
    );
    let exact: ExactConverter<char, ()> = ExactConverter::new(vec!['a']);
    assert_eq!(exact.size_hint(), (0, Some(0)));
}
