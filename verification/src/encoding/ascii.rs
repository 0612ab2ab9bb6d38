//! 7-bit ASCII decoders and encoders.

use crate::Converter;
use std::collections::VecDeque;
use vstd::prelude::*;

verus! {

/// An error while encoding or decoding ASCII characters.
#[derive(Clone, Copy, Debug, PartialEq, Eq)]
pub struct ASCIIEncodingError;

/// A decoder for 7-bit ASCII: a byte up to 0x7F decodes to the character
/// with the same value, and any larger byte is rejected.
#[derive(Clone, Copy, Debug, PartialEq, Eq)]
pub struct ASCIIDecoder;

impl ASCIIDecoder {
    /// Creates a new instance.
    pub fn new() -> (r: Self) {
        ASCIIDecoder
    }
}

impl Converter for ASCIIDecoder {
    type Item = u8;

    type Output = char;

    type Error = ASCIIEncodingError;

    open spec fn pre(&self, item: u8) -> bool {
        true
    }

    open spec fn ended(&self) -> bool {
        false
    }

    open spec fn fin_ok(&self) -> bool {
        true
    }

    open spec fn fin_err(&self) -> ASCIIEncodingError {
        ASCIIEncodingError
    }

    open spec fn hint(&self) -> (usize, Option<usize>) {
        (1usize, Some(1usize))
    }

    open spec fn convert_rel(
        pre: Self,
        item: u8,
        post: Self,
        out: Seq<char>,
        r: Result<usize, ASCIIEncodingError>,
    ) -> bool {
        &&& post == pre
        &&& if item <= 0x7F {
            out == seq![(item as char)] && r == Ok::<usize, ASCIIEncodingError>(1usize)
        } else {
            out.len() == 0 && r == Err::<usize, ASCIIEncodingError>(ASCIIEncodingError)
        }
    }

    fn convert(&mut self, item: u8, buf: &mut VecDeque<char>) -> (r: Result<
        usize,
        ASCIIEncodingError,
    >) {
        if item <= 0x7F {
            buf.push_back(item as char);
            proof {
                assert(buf@.skip(old(buf)@.len() as int) =~= seq![(item as char)]);
            }
            Ok(1)
        } else {
            Err(ASCIIEncodingError)
        }
    }

    fn is_ended(&self) -> (r: bool) {
        false
    }

    fn finalize(&mut self) -> (r: Result<(), ASCIIEncodingError>) {
        Ok(())
    }

    fn size_hint(&self) -> (r: (usize, Option<usize>)) {
        (1, Some(1))
    }
}

/// An encoder for 7-bit ASCII: a character with code point up to 0x7F
/// encodes to the byte with the same value, and any larger character is
/// rejected.
#[derive(Clone, Copy, Debug, PartialEq, Eq)]
pub struct ASCIIEncoder;

impl ASCIIEncoder {
    /// Creates a new instance.
    pub fn new() -> (r: Self) {
        ASCIIEncoder
    }
}

impl Converter for ASCIIEncoder {
    type Item = char;

    type Output = u8;

    type Error = ASCIIEncodingError;

    open spec fn pre(&self, item: char) -> bool {
        true
    }

    open spec fn ended(&self) -> bool {
        false
    }

    open spec fn fin_ok(&self) -> bool {
        true
    }

    open spec fn fin_err(&self) -> ASCIIEncodingError {
        ASCIIEncodingError
    }

    open spec fn hint(&self) -> (usize, Option<usize>) {
        (1usize, Some(1usize))
    }

    open spec fn convert_rel(
        pre: Self,
        item: char,
        post: Self,
        out: Seq<u8>,
        r: Result<usize, ASCIIEncodingError>,
    ) -> bool {
        &&& post == pre
        &&& if item as u32 <= 0x7F {
            out == seq![((item as u32) as u8)] && r == Ok::<usize, ASCIIEncodingError>(1usize)
        } else {
            out.len() == 0 && r == Err::<usize, ASCIIEncodingError>(ASCIIEncodingError)
        }
    }

    fn convert(&mut self, item: char, buf: &mut VecDeque<u8>) -> (r: Result<
        usize,
        ASCIIEncodingError,
    >) {
        let v: u32 = item as u32;
        if v <= 0x7F {
            buf.push_back(v as u8);
            proof {
                assert(buf@.skip(old(buf)@.len() as int) =~= seq![((item as u32) as u8)]);
            }
            Ok(1)
        } else {
            Err(ASCIIEncodingError)
        }
    }

    fn is_ended(&self) -> (r: bool) {
        false
    }

    fn finalize(&mut self) -> (r: Result<(), ASCIIEncodingError>) {
        Ok(())
    }

    fn size_hint(&self) -> (r: (usize, Option<usize>)) {
        (1, Some(1))
    }
}

} // verus!
