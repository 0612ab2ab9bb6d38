//! Tests of the drivers in the `iterator` module.

use conversion::converter::encoding::utf8::UTF8Decoder;
use conversion::converter::TryMapConverter;
use conversion::error::CombinedError;
use conversion::iterator::{ConvertedIterator, ConvertedTryIterator};
use conversion::source::VecSource;

#[test]
fn iterator_module_decodes_utf8() {
    let source = VecSource::new(b"stra\xC3\x9Fe".to_vec());
    let mut decoded = ConvertedIterator::new(source, UTF8Decoder::new());
    let mut out = String::new();
    while let Some(step) = decoded.next() {
        out.push(step.expect("valid UTF-8 must decode"));
    }
    assert_eq!(out, "straße");
}

#[test]
fn iterator_module_try_driver_passes_source_errors_through() {
    let items: Vec<Result<i32, &str>> = vec![Ok(1), Err("gone")];
    let source = VecSource::new(items);
    let conv = TryMapConverter::new(|i: i32| Ok::<i32, &str>(i + 1));
    let mut converted = ConvertedTryIterator::new(source, conv);
    assert_eq!(Some(Ok(2)), converted.next());
    assert_eq!(Some(Err(CombinedError::Stream("gone"))), converted.next());
    assert_eq!(None, converted.next());
}
