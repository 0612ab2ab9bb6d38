//! Tests of the drivers: chaining, fallible sources, buffering, and the
//! stream state machine.

use conversion::converter::encoding::utf16::{UTF16Encoder, UTF16LEDecoder};
use conversion::converter::{ChainedConverter, ChainedError, ExactConverter, TryMapConverter};
use conversion::error::CombinedError;
use conversion::iter::{ConvertedIterator, ConvertedTryIterator};
use conversion::source::{Source, VecSource};
use conversion::stream::{ConvertedStream, ConvertedTryStream, PollNext};

#[test]
fn chained_byte_pattern_then_utf16le() {
    // A UTF-16LE byte-order mark, then the little-endian bytes of a
    // surrogate pair for U+1F4A3.
    let source = VecSource::new(vec![0xFFu8, 0xFE, 0x3D, 0xD8, 0xA3, 0xDC]);
    let marker: ExactConverter<u8, char> = ExactConverter::new(vec![0xFF, 0xFE]);
    let conv = ChainedConverter::new(marker, UTF16LEDecoder::new());
    let mut decoded = ConvertedIterator::new(source, conv);
    assert_eq!(Some(Ok('💣')), decoded.next());
    assert_eq!(None, decoded.next());
}

#[test]
fn chained_error_reports_the_failing_side() {
    let source = VecSource::new(vec![0x00u8, 0x41]);
    let marker: ExactConverter<u8, char> = ExactConverter::new(vec![0xFF, 0xFE]);
    let conv = ChainedConverter::new(marker, UTF16LEDecoder::new());
    let mut decoded = ConvertedIterator::new(source, conv);
    assert!(matches!(decoded.next(), Some(Err(ChainedError::First(_)))));
}

#[test]
fn try_iterator_tells_source_errors_from_conversion_errors() {
    let items: Vec<Result<i32, &str>> = vec![Ok(3), Ok(0), Err("broken source"), Ok(7)];
    let source = VecSource::new(items);
    let divide = TryMapConverter::new(|i: i32| 42i32.checked_div(i).ok_or("division by zero"));
    let mut converted = ConvertedTryIterator::new(source, divide);
    assert_eq!(Some(Ok(14)), converted.next());
    assert_eq!(
        Some(Err(CombinedError::Conversion("division by zero"))),
        converted.next()
    );
    assert_eq!(
        Some(Err(CombinedError::Stream("broken source"))),
        converted.next()
    );
    assert_eq!(Some(Ok(6)), converted.next());
    assert_eq!(None, converted.next());
}

#[test]
fn buffered_outputs_are_drained_before_the_source_is_pulled() {
    // One character becomes two UTF-16 units in a single conversion; the
    // driver must yield them across two pulls before touching the source.
    let source = VecSource::new(vec!['𝄞', 'A']);
    let mut encoded = ConvertedIterator::new(source, UTF16Encoder::new());
    assert_eq!(Some(Ok(0xD834)), encoded.next());
    assert_eq!(Some(Ok(0xDD1E)), encoded.next());
    assert_eq!(Some(Ok(0x0041)), encoded.next());
    assert_eq!(None, encoded.next());
}

#[test]
fn vec_source_hands_items_out_in_order() {
    let mut source = VecSource::new(vec![10u8, 20, 30]);
    assert_eq!(source.size_estimate(), (3, Some(3)));
    assert_eq!(Some(10), source.pull());
    assert_eq!(Some(20), source.pull());
    assert_eq!(Some(30), source.pull());
    assert_eq!(None, source.pull());
}

#[test]
fn stream_state_machine_buffers_and_finishes() {
    let mut state = ConvertedStream::new(UTF16Encoder::new());
    assert_eq!(None, state.next_buffered());
    assert_eq!(PollNext::Item(0xD834), state.on_item('𝄞'));
    assert_eq!(Some(0xDD1E), state.next_buffered());
    assert_eq!(None, state.next_buffered());
    assert_eq!(PollNext::Item(0x0041), state.on_item('A'));
    assert_eq!(PollNext::Finished, state.on_end());
}

#[test]
fn stream_state_machine_reports_pending_decoder_state() {
    let mut state = ConvertedStream::new(UTF16LEDecoder::new());
    assert_eq!(PollNext::NotReady, state.on_item(0x3D));
    assert_eq!(PollNext::NotReady, state.on_item(0xD8));
    assert_eq!(PollNext::NotReady, state.on_item(0xA3));
    assert_eq!(PollNext::Item('💣'), state.on_item(0xDC));
    assert_eq!(PollNext::Finished, state.on_end());
}

#[test]
fn try_stream_state_machine_keeps_error_sides_apart() {
    let mut state: ConvertedTryStream<_, &str> = ConvertedTryStream::new(UTF16LEDecoder::new());
    assert_eq!(PollNext::NotReady, state.on_item(0x34));
    assert_eq!(
        CombinedError::Stream("lost connection"),
        state.on_source_error("lost connection")
    );
    assert_eq!(PollNext::NotReady, state.on_item(0xD8));
    // The lone byte and the pending high surrogate are finalize errors.
    assert!(matches!(
        state.on_end(),
        PollNext::Failed(CombinedError::Conversion(_))
    ));
}
