//! UTF-32 decoders and encoders.
//!
//! A UTF-32 code unit is valid exactly when it is a Unicode scalar value, so
//! the 32-bit decoder is stateless. The byte-oriented big- and little-endian
//! decoders accumulate exactly four bytes and then decode the assembled
//! word.

use crate::encoding::{is_scalar_value, lemma_run_steps_append, run_steps, step_rel, Step};
use crate::infallible::{never_value, InfallibleConverter, InfallibleResult, NeverError};
use crate::Converter;
use std::collections::VecDeque;
use vstd::prelude::*;

verus! {

broadcast use {vstd::utf8::char_is_scalar, vstd::utf8::char_u32_cast};

/// An error while encoding or decoding UTF-32 characters.
#[derive(Clone, Copy, Debug, PartialEq, Eq)]
pub struct UTF32EncodingError;

/// The big-endian bytes of a 32-bit value, most significant first.
pub open spec fn be_bytes_of(v: u32) -> Seq<u8> {
    seq![
        (v / 0x1000000) as u8,
        ((v / 0x10000) % 0x100) as u8,
        ((v / 0x100) % 0x100) as u8,
        (v % 0x100) as u8,
    ]
}

/// The little-endian bytes of a 32-bit value, least significant first.
pub open spec fn le_bytes_of(v: u32) -> Seq<u8> {
    seq![
        (v % 0x100) as u8,
        ((v / 0x100) % 0x100) as u8,
        ((v / 0x10000) % 0x100) as u8,
        (v / 0x1000000) as u8,
    ]
}

/// One step of the 32-bit decoder: a unit decodes to the character with its
/// value when it is a Unicode scalar value, and is rejected otherwise.
pub open spec fn utf32_step(s: UTF32Decoder, v: u32) -> Step<UTF32Decoder, char, UTF32EncodingError> {
    if is_scalar_value(v) {
        (s, Ok(seq![v as char]))
    } else {
        (s, Err(UTF32EncodingError))
    }
}

/// The sequence of 32-bit units that encodes `chars`, one unit per
/// character.
pub open spec fn utf32_encode(chars: Seq<char>) -> Seq<u32> {
    chars.map(|i: int, c: char| c as u32)
}

/// A 32-bit decoder for UTF-32.
#[derive(Clone, Copy, Debug, PartialEq, Eq)]
pub struct UTF32Decoder;

impl UTF32Decoder {
    /// Creates a new instance.
    pub fn new() -> (r: Self) {
        UTF32Decoder
    }
}

impl Converter for UTF32Decoder {
    type Item = u32;

    type Output = char;

    type Error = UTF32EncodingError;

    open spec fn pre(&self, item: u32) -> bool {
        true
    }

    open spec fn ended(&self) -> bool {
        false
    }

    open spec fn fin_ok(&self) -> bool {
        true
    }

    open spec fn fin_err(&self) -> UTF32EncodingError {
        UTF32EncodingError
    }

    open spec fn hint(&self) -> (usize, Option<usize>) {
        (1usize, Some(1usize))
    }

    open spec fn convert_rel(
        pre: Self,
        item: u32,
        post: Self,
        out: Seq<char>,
        r: Result<usize, UTF32EncodingError>,
    ) -> bool {
        step_rel(utf32_step(pre, item), post, out, r)
    }

    fn convert(&mut self, item: u32, buf: &mut VecDeque<char>) -> (r: Result<
        usize,
        UTF32EncodingError,
    >) {
        match char::from_u32(item) {
            Some(c) => {
                buf.push_back(c);
                proof {
                    assert(buf@.skip(old(buf)@.len() as int) =~= seq![(item as char)]);
                }
                Ok(1)
            },
            None => Err(UTF32EncodingError),
        }
    }

    fn is_ended(&self) -> (r: bool) {
        false
    }

    fn finalize(&mut self) -> (r: Result<(), UTF32EncodingError>) {
        Ok(())
    }

    fn size_hint(&self) -> (r: (usize, Option<usize>)) {
        (1, Some(1))
    }
}

/// A 32-bit encoder for UTF-32: each character is emitted as its scalar
/// value, and no input can fail.
#[derive(Clone, Copy, Debug, PartialEq, Eq)]
pub struct UTF32Encoder;

impl UTF32Encoder {
    /// Creates a new instance.
    pub fn new() -> (r: Self) {
        UTF32Encoder
    }
}

impl Converter for UTF32Encoder {
    type Item = char;

    type Output = u32;

    type Error = NeverError;

    open spec fn pre(&self, item: char) -> bool {
        true
    }

    open spec fn ended(&self) -> bool {
        false
    }

    open spec fn fin_ok(&self) -> bool {
        true
    }

    open spec fn fin_err(&self) -> NeverError {
        never_value()
    }

    open spec fn hint(&self) -> (usize, Option<usize>) {
        (1usize, Some(1usize))
    }

    open spec fn convert_rel(
        pre: Self,
        item: char,
        post: Self,
        out: Seq<u32>,
        r: Result<usize, NeverError>,
    ) -> bool {
        &&& post == pre
        &&& out == seq![(item as u32)]
        &&& r == Ok::<usize, NeverError>(1usize)
    }

    fn convert(&mut self, item: char, buf: &mut VecDeque<u32>) -> (r: Result<usize, NeverError>)
        ensures
            r == Ok::<usize, NeverError>(1usize),
            final(buf)@ == old(buf)@.push(item as u32),
    {
        buf.push_back(item as u32);
        proof {
            assert(buf@.skip(old(buf)@.len() as int) =~= seq![(item as u32)]);
        }
        Ok(1)
    }

    fn is_ended(&self) -> (r: bool) {
        false
    }

    fn finalize(&mut self) -> (r: Result<(), NeverError>) {
        Ok(())
    }

    fn size_hint(&self) -> (r: (usize, Option<usize>)) {
        (1, Some(1))
    }
}

/// One step of the big-endian byte decoder: the first three bytes of a unit
/// are accumulated, the fourth completes a 32-bit word that is decoded as a
/// UTF-32 unit.
pub open spec fn utf32_be_step(s: UTF32BEDecoder, b: u8) -> Step<
    UTF32BEDecoder,
    char,
    UTF32EncodingError,
> {
    let v = (s.acc as int * 0x100 + b as int) as u32;
    if s.count < 3 {
        (UTF32BEDecoder { acc: v, count: (s.count + 1) as u8 }, Ok(Seq::empty()))
    } else {
        if is_scalar_value(v) {
            (UTF32BEDecoder { acc: 0, count: 0 }, Ok(seq![v as char]))
        } else {
            (UTF32BEDecoder { acc: 0, count: 0 }, Err(UTF32EncodingError))
        }
    }
}

/// The big-endian byte encoding of `chars`, four bytes per character.
pub open spec fn utf32_be_encode(chars: Seq<char>) -> Seq<u8>
    decreases chars.len(),
{
    if chars.len() == 0 {
        Seq::empty()
    } else {
        be_bytes_of(chars[0] as u32) + utf32_be_encode(chars.drop_first())
    }
}

/// A byte decoder for UTF-32 (big-endian).
#[derive(Clone, Copy, Debug, PartialEq, Eq)]
pub struct UTF32BEDecoder {
    /// The value assembled from the bytes accumulated so far.
    pub acc: u32,
    /// How many bytes of the current unit have been accumulated.
    pub count: u8,
}

impl UTF32BEDecoder {
    /// Creates a new instance.
    pub fn new() -> (r: Self)
        ensures
            r == (UTF32BEDecoder { acc: 0u32, count: 0u8 }),
    {
        UTF32BEDecoder { acc: 0, count: 0 }
    }

    /// The state invariant: at most three bytes are pending, and the
    /// accumulator holds exactly the bytes counted so far.
    pub open spec fn wf(&self) -> bool {
        &&& self.count <= 3
        &&& (self.count == 0 ==> self.acc == 0)
        &&& (self.count == 1 ==> self.acc < 0x100)
        &&& (self.count == 2 ==> self.acc < 0x10000)
        &&& (self.count == 3 ==> self.acc < 0x1000000)
    }
}

impl Converter for UTF32BEDecoder {
    type Item = u8;

    type Output = char;

    type Error = UTF32EncodingError;

    open spec fn pre(&self, item: u8) -> bool {
        self.wf()
    }

    open spec fn ended(&self) -> bool {
        false
    }

    open spec fn fin_ok(&self) -> bool {
        self.count == 0
    }

    open spec fn fin_err(&self) -> UTF32EncodingError {
        UTF32EncodingError
    }

    open spec fn hint(&self) -> (usize, Option<usize>) {
        (0usize, Some(1usize))
    }

    open spec fn convert_rel(
        pre: Self,
        item: u8,
        post: Self,
        out: Seq<char>,
        r: Result<usize, UTF32EncodingError>,
    ) -> bool {
        step_rel(utf32_be_step(pre, item), post, out, r)
    }

    fn convert(&mut self, item: u8, buf: &mut VecDeque<char>) -> (r: Result<
        usize,
        UTF32EncodingError,
    >)
        ensures
            final(self).wf(),
    {
        let v: u32 = self.acc * 0x100 + item as u32;
        if self.count < 3 {
            self.acc = v;
            self.count = self.count + 1;
            proof {
                assert(buf@.skip(old(buf)@.len() as int) =~= Seq::<char>::empty());
            }
            Ok(0)
        } else {
            self.acc = 0;
            self.count = 0;
            match char::from_u32(v) {
                Some(c) => {
                    buf.push_back(c);
                    proof {
                        assert(buf@.skip(old(buf)@.len() as int) =~= seq![(v as char)]);
                    }
                    Ok(1)
                },
                None => Err(UTF32EncodingError),
            }
        }
    }

    fn is_ended(&self) -> (r: bool) {
        false
    }

    fn finalize(&mut self) -> (r: Result<(), UTF32EncodingError>) {
        if self.count == 0 {
            Ok(())
        } else {
            Err(UTF32EncodingError)
        }
    }

    fn size_hint(&self) -> (r: (usize, Option<usize>)) {
        (0, Some(1))
    }
}

/// A byte encoder for UTF-32 (big-endian): each character is emitted as the
/// four big-endian bytes of its scalar value, and no input can fail.
#[derive(Clone, Copy, Debug, PartialEq, Eq)]
pub struct UTF32BEEncoder;

impl UTF32BEEncoder {
    /// Creates a new instance.
    pub fn new() -> (r: Self) {
        UTF32BEEncoder
    }
}

impl Converter for UTF32BEEncoder {
    type Item = char;

    type Output = u8;

    type Error = NeverError;

    open spec fn pre(&self, item: char) -> bool {
        true
    }

    open spec fn ended(&self) -> bool {
        false
    }

    open spec fn fin_ok(&self) -> bool {
        true
    }

    open spec fn fin_err(&self) -> NeverError {
        never_value()
    }

    open spec fn hint(&self) -> (usize, Option<usize>) {
        (4usize, Some(4usize))
    }

    open spec fn convert_rel(
        pre: Self,
        item: char,
        post: Self,
        out: Seq<u8>,
        r: Result<usize, NeverError>,
    ) -> bool {
        &&& post == pre
        &&& out == be_bytes_of(item as u32)
        &&& r == Ok::<usize, NeverError>(4usize)
    }

    fn convert(&mut self, item: char, buf: &mut VecDeque<u8>) -> (r: Result<usize, NeverError>)
        ensures
            r == Ok::<usize, NeverError>(4usize),
            final(buf)@ == old(buf)@ + be_bytes_of(item as u32),
    {
        let v: u32 = item as u32;
        buf.push_back((v / 0x1000000) as u8);
        buf.push_back(((v / 0x10000) % 0x100) as u8);
        buf.push_back(((v / 0x100) % 0x100) as u8);
        buf.push_back((v % 0x100) as u8);
        proof {
            assert(final(buf)@ =~= old(buf)@ + be_bytes_of(item as u32));
            assert(buf@.skip(old(buf)@.len() as int) =~= be_bytes_of(item as u32));
        }
        Ok(4)
    }

    fn is_ended(&self) -> (r: bool) {
        false
    }

    fn finalize(&mut self) -> (r: Result<(), NeverError>) {
        Ok(())
    }

    fn size_hint(&self) -> (r: (usize, Option<usize>)) {
        (4, Some(4))
    }
}

impl InfallibleConverter for UTF32Encoder {
    fn convert_ok(&mut self, item: char, buf: &mut VecDeque<u32>) -> (r: usize) {
        self.convert(item, buf).unwrap_infallible()
    }

    fn finalize_ok(&mut self) {
        self.finalize().unwrap_infallible()
    }
}

impl InfallibleConverter for UTF32BEEncoder {
    fn convert_ok(&mut self, item: char, buf: &mut VecDeque<u8>) -> (r: usize) {
        self.convert(item, buf).unwrap_infallible()
    }

    fn finalize_ok(&mut self) {
        self.finalize().unwrap_infallible()
    }
}

/// One step of the little-endian byte decoder: bytes are accumulated least
/// significant first, and the fourth byte completes a unit.
pub open spec fn utf32_le_step(s: UTF32LEDecoder, b: u8) -> Step<
    UTF32LEDecoder,
    char,
    UTF32EncodingError,
> {
    let v = (s.acc as int + b as int * le_shift(s.count)) as u32;
    if s.count < 3 {
        (UTF32LEDecoder { acc: v, count: (s.count + 1) as u8 }, Ok(Seq::empty()))
    } else {
        if is_scalar_value(v) {
            (UTF32LEDecoder { acc: 0, count: 0 }, Ok(seq![v as char]))
        } else {
            (UTF32LEDecoder { acc: 0, count: 0 }, Err(UTF32EncodingError))
        }
    }
}

/// The weight of the byte at position `count` in a little-endian 32-bit
/// word.
pub open spec fn le_shift(count: u8) -> int {
    if count == 0 {
        0x1
    } else if count == 1 {
        0x100
    } else if count == 2 {
        0x10000
    } else {
        0x1000000
    }
}

/// The little-endian byte encoding of `chars`, four bytes per character.
pub open spec fn utf32_le_encode(chars: Seq<char>) -> Seq<u8>
    decreases chars.len(),
{
    if chars.len() == 0 {
        Seq::empty()
    } else {
        le_bytes_of(chars[0] as u32) + utf32_le_encode(chars.drop_first())
    }
}

/// A byte decoder for UTF-32 (little-endian).
#[derive(Clone, Copy, Debug, PartialEq, Eq)]
pub struct UTF32LEDecoder {
    /// The value assembled from the bytes accumulated so far.
    pub acc: u32,
    /// How many bytes of the current unit have been accumulated.
    pub count: u8,
}

impl UTF32LEDecoder {
    /// Creates a new instance.
    pub fn new() -> (r: Self)
        ensures
            r == (UTF32LEDecoder { acc: 0u32, count: 0u8 }),
    {
        UTF32LEDecoder { acc: 0, count: 0 }
    }

    /// The state invariant: at most three bytes are pending, and the
    /// accumulator holds exactly the bytes counted so far.
    pub open spec fn wf(&self) -> bool {
        &&& self.count <= 3
        &&& (self.count == 0 ==> self.acc == 0)
        &&& (self.count == 1 ==> self.acc < 0x100)
        &&& (self.count == 2 ==> self.acc < 0x10000)
        &&& (self.count == 3 ==> self.acc < 0x1000000)
    }
}

impl Converter for UTF32LEDecoder {
    type Item = u8;

    type Output = char;

    type Error = UTF32EncodingError;

    open spec fn pre(&self, item: u8) -> bool {
        self.wf()
    }

    open spec fn ended(&self) -> bool {
        false
    }

    open spec fn fin_ok(&self) -> bool {
        self.count == 0
    }

    open spec fn fin_err(&self) -> UTF32EncodingError {
        UTF32EncodingError
    }

    open spec fn hint(&self) -> (usize, Option<usize>) {
        (0usize, Some(1usize))
    }

    open spec fn convert_rel(
        pre: Self,
        item: u8,
        post: Self,
        out: Seq<char>,
        r: Result<usize, UTF32EncodingError>,
    ) -> bool {
        step_rel(utf32_le_step(pre, item), post, out, r)
    }

    fn convert(&mut self, item: u8, buf: &mut VecDeque<char>) -> (r: Result<
        usize,
        UTF32EncodingError,
    >)
        ensures
            final(self).wf(),
    {
        let shift: u32 = if self.count == 0 {
            0x1
        } else if self.count == 1 {
            0x100
        } else if self.count == 2 {
            0x10000
        } else {
            0x1000000
        };
        let v: u32 = self.acc + item as u32 * shift;
        if self.count < 3 {
            self.acc = v;
            self.count = self.count + 1;
            proof {
                assert(buf@.skip(old(buf)@.len() as int) =~= Seq::<char>::empty());
            }
            Ok(0)
        } else {
            self.acc = 0;
            self.count = 0;
            match char::from_u32(v) {
                Some(c) => {
                    buf.push_back(c);
                    proof {
                        assert(buf@.skip(old(buf)@.len() as int) =~= seq![(v as char)]);
                    }
                    Ok(1)
                },
                None => Err(UTF32EncodingError),
            }
        }
    }

    fn is_ended(&self) -> (r: bool) {
        false
    }

    fn finalize(&mut self) -> (r: Result<(), UTF32EncodingError>) {
        if self.count == 0 {
            Ok(())
        } else {
            Err(UTF32EncodingError)
        }
    }

    fn size_hint(&self) -> (r: (usize, Option<usize>)) {
        (0, Some(1))
    }
}

/// A byte encoder for UTF-32 (little-endian): each character is emitted as
/// the four little-endian bytes of its scalar value, and no input can fail.
#[derive(Clone, Copy, Debug, PartialEq, Eq)]
pub struct UTF32LEEncoder;

impl UTF32LEEncoder {
    /// Creates a new instance.
    pub fn new() -> (r: Self) {
        UTF32LEEncoder
    }
}

impl Converter for UTF32LEEncoder {
    type Item = char;

    type Output = u8;

    type Error = NeverError;

    open spec fn pre(&self, item: char) -> bool {
        true
    }

    open spec fn ended(&self) -> bool {
        false
    }

    open spec fn fin_ok(&self) -> bool {
        true
    }

    open spec fn fin_err(&self) -> NeverError {
        never_value()
    }

    open spec fn hint(&self) -> (usize, Option<usize>) {
        (4usize, Some(4usize))
    }

    open spec fn convert_rel(
        pre: Self,
        item: char,
        post: Self,
        out: Seq<u8>,
        r: Result<usize, NeverError>,
    ) -> bool {
        &&& post == pre
        &&& out == le_bytes_of(item as u32)
        &&& r == Ok::<usize, NeverError>(4usize)
    }

    fn convert(&mut self, item: char, buf: &mut VecDeque<u8>) -> (r: Result<usize, NeverError>)
        ensures
            r == Ok::<usize, NeverError>(4usize),
            final(buf)@ == old(buf)@ + le_bytes_of(item as u32),
    {
        let v: u32 = item as u32;
        buf.push_back((v % 0x100) as u8);
        buf.push_back(((v / 0x100) % 0x100) as u8);
        buf.push_back(((v / 0x10000) % 0x100) as u8);
        buf.push_back((v / 0x1000000) as u8);
        proof {
            assert(final(buf)@ =~= old(buf)@ + le_bytes_of(item as u32));
            assert(buf@.skip(old(buf)@.len() as int) =~= le_bytes_of(item as u32));
        }
        Ok(4)
    }

    fn is_ended(&self) -> (r: bool) {
        false
    }

    fn finalize(&mut self) -> (r: Result<(), NeverError>) {
        Ok(())
    }

    fn size_hint(&self) -> (r: (usize, Option<usize>)) {
        (4, Some(4))
    }
}

impl InfallibleConverter for UTF32LEEncoder {
    fn convert_ok(&mut self, item: char, buf: &mut VecDeque<u8>) -> (r: usize) {
        self.convert(item, buf).unwrap_infallible()
    }

    fn finalize_ok(&mut self) {
        self.finalize().unwrap_infallible()
    }
}

/// The 32-bit decoder as a state machine.
pub open spec fn utf32_machine() -> spec_fn(UTF32Decoder, u32) -> Step<
    UTF32Decoder,
    char,
    UTF32EncodingError,
> {
    |s: UTF32Decoder, v: u32| utf32_step(s, v)
}

/// The big-endian byte decoder as a state machine.
pub open spec fn utf32_be_machine() -> spec_fn(UTF32BEDecoder, u8) -> Step<
    UTF32BEDecoder,
    char,
    UTF32EncodingError,
> {
    |s: UTF32BEDecoder, b: u8| utf32_be_step(s, b)
}

/// The little-endian byte decoder as a state machine.
pub open spec fn utf32_le_machine() -> spec_fn(UTF32LEDecoder, u8) -> Step<
    UTF32LEDecoder,
    char,
    UTF32EncodingError,
> {
    |s: UTF32LEDecoder, b: u8| utf32_le_step(s, b)
}

/// Encoding any character sequence as 32-bit units and decoding it again
/// yields the original sequence, and the decoder is left with nothing
/// pending.
pub proof fn lemma_utf32_round_trip(chars: Seq<char>)
    ensures
        run_steps(utf32_machine(), UTF32Decoder, utf32_encode(chars)) == Some((
            UTF32Decoder,
            chars,
        )),
    decreases chars.len(),
{
    if chars.len() == 0 {
        assert(utf32_encode(chars).len() == 0);
        assert(chars =~= Seq::<char>::empty());
    } else {
        let c = chars[0];
        let rest = chars.drop_first();
        lemma_utf32_round_trip(rest);
        assert(utf32_encode(chars).drop_first() =~= utf32_encode(rest));
        vstd::utf8::char_is_scalar(c);
        assert(is_scalar_value(c as u32));
        vstd::utf8::char_u32_cast(c, c as u32);
        assert(seq![(c as u32) as char] + rest =~= chars);
    }
}

/// A 32-bit value is the weighted sum of its four bytes.
proof fn lemma_u32_bytes_reassemble(v: u32)
    ensures
        (v as int / 0x1000000) * 0x1000000 + ((v as int / 0x10000) % 0x100) * 0x10000 + ((
        v as int / 0x100) % 0x100) * 0x100 + (v as int % 0x100) == v as int,
        0 <= v as int / 0x1000000 < 0x100,
        0 <= (v as int / 0x10000) % 0x100 < 0x100,
        0 <= (v as int / 0x100) % 0x100 < 0x100,
        0 <= v as int % 0x100 < 0x100,
{
    vstd::arithmetic::div_mod::lemma_fundamental_div_mod(v as int, 0x100);
    vstd::arithmetic::div_mod::lemma_fundamental_div_mod(v as int / 0x100, 0x100);
    vstd::arithmetic::div_mod::lemma_div_denominator(v as int, 0x100, 0x100);
    vstd::arithmetic::div_mod::lemma_fundamental_div_mod(v as int / 0x10000, 0x100);
    vstd::arithmetic::div_mod::lemma_div_denominator(v as int, 0x10000, 0x100);
    vstd::arithmetic::div_mod::lemma_multiply_divide_lt(v as int, 0x1000000, 0x100);
    vstd::arithmetic::div_mod::lemma_div_pos_is_pos(v as int, 0x1000000);
    vstd::arithmetic::div_mod::lemma_div_pos_is_pos(v as int, 0x10000);
    vstd::arithmetic::div_mod::lemma_div_pos_is_pos(v as int, 0x100);
    vstd::arithmetic::div_mod::lemma_mod_division_less_than_divisor(v as int / 0x10000, 0x100);
    vstd::arithmetic::div_mod::lemma_mod_division_less_than_divisor(v as int / 0x100, 0x100);
    vstd::arithmetic::div_mod::lemma_mod_division_less_than_divisor(v as int, 0x100);
}

/// The big-endian byte machine consumes the four bytes of one scalar value
/// from a clean state, emits exactly its character, and is clean again.
proof fn lemma_utf32_be_char(v: u32)
    requires
        is_scalar_value(v),
    ensures
        run_steps(utf32_be_machine(), (UTF32BEDecoder { acc: 0u32, count: 0u8 }), be_bytes_of(v))
            == Some(((UTF32BEDecoder { acc: 0u32, count: 0u8 }), seq![v as char])),
{
    let step = utf32_be_machine();
    let bs = be_bytes_of(v);
    lemma_u32_bytes_reassemble(v);
    let t1 = bs.drop_first();
    let t2 = t1.drop_first();
    let t3 = t2.drop_first();
    let t4 = t3.drop_first();
    assert(t4.len() == 0);
    let s0 = UTF32BEDecoder { acc: 0u32, count: 0u8 };
    let (s1, r1) = step(s0, bs[0]);
    let (s2, r2) = step(s1, t1[0]);
    let (s3, r3) = step(s2, t2[0]);
    assert(bs[0] as int == v as int / 0x1000000);
    assert(bs[1] as int == (v as int / 0x10000) % 0x100);
    assert(bs[2] as int == (v as int / 0x100) % 0x100);
    assert(bs[3] as int == v as int % 0x100);
    assert(s1.count == 1 && s1.acc as int == bs[0] as int);
    assert(s2.count == 2 && s2.acc as int == bs[0] as int * 0x100 + bs[1] as int);
    assert(s3.count == 3);
    assert(s3.acc as int == (bs[0] as int * 0x100 + bs[1] as int) * 0x100 + bs[2] as int);
    assert(s3.acc as int * 0x100 + t3[0] as int == v as int);
    assert(run_steps(step, s0, t4) == Some((s0, Seq::<char>::empty())));
    assert(run_steps(step, s3, t3) == Some((s0, seq![v as char])));
    assert(run_steps(step, s2, t2) == Some((s0, seq![v as char])));
    assert(run_steps(step, s1, t1) == Some((s0, seq![v as char])));
    assert(run_steps(step, s0, bs) == Some((s0, seq![v as char])));
}

/// Encoding any character sequence as big-endian UTF-32 bytes and decoding
/// it again yields the original sequence, and the decoder is left with
/// nothing pending.
pub proof fn lemma_utf32_be_round_trip(chars: Seq<char>)
    ensures
        run_steps(
            utf32_be_machine(),
            (UTF32BEDecoder { acc: 0u32, count: 0u8 }),
            utf32_be_encode(chars),
        ) == Some(((UTF32BEDecoder { acc: 0u32, count: 0u8 }), chars)),
    decreases chars.len(),
{
    let init = UTF32BEDecoder { acc: 0u32, count: 0u8 };
    if chars.len() == 0 {
        assert(chars =~= Seq::<char>::empty());
    } else {
        let c = chars[0];
        let rest = chars.drop_first();
        vstd::utf8::char_is_scalar(c);
        vstd::utf8::char_u32_cast(c, c as u32);
        lemma_utf32_be_char(c as u32);
        lemma_utf32_be_round_trip(rest);
        lemma_run_steps_append(
            utf32_be_machine(),
            init,
            be_bytes_of(c as u32),
            utf32_be_encode(rest),
        );
        assert(seq![c] + rest =~= chars);
    }
}

/// The little-endian byte machine consumes the four bytes of one scalar
/// value from a clean state, emits exactly its character, and is clean
/// again.
proof fn lemma_utf32_le_char(v: u32)
    requires
        is_scalar_value(v),
    ensures
        run_steps(utf32_le_machine(), (UTF32LEDecoder { acc: 0u32, count: 0u8 }), le_bytes_of(v))
            == Some(((UTF32LEDecoder { acc: 0u32, count: 0u8 }), seq![v as char])),
{
    let step = utf32_le_machine();
    let bs = le_bytes_of(v);
    lemma_u32_bytes_reassemble(v);
    let t1 = bs.drop_first();
    let t2 = t1.drop_first();
    let t3 = t2.drop_first();
    let t4 = t3.drop_first();
    assert(t4.len() == 0);
    let s0 = UTF32LEDecoder { acc: 0u32, count: 0u8 };
    let (s1, r1) = step(s0, bs[0]);
    let (s2, r2) = step(s1, t1[0]);
    let (s3, r3) = step(s2, t2[0]);
    assert(bs[0] as int == v as int % 0x100);
    assert(bs[1] as int == (v as int / 0x100) % 0x100);
    assert(bs[2] as int == (v as int / 0x10000) % 0x100);
    assert(bs[3] as int == v as int / 0x1000000);
    assert(s1.count == 1 && s1.acc as int == bs[0] as int);
    assert(s2.count == 2 && s2.acc as int == bs[0] as int + bs[1] as int * 0x100);
    assert(s3.count == 3);
    assert(s3.acc as int == bs[0] as int + bs[1] as int * 0x100 + bs[2] as int * 0x10000);
    assert(s3.acc as int + t3[0] as int * 0x1000000 == v as int);
    assert(run_steps(step, s0, t4) == Some((s0, Seq::<char>::empty())));
    assert(run_steps(step, s3, t3) == Some((s0, seq![v as char])));
    assert(run_steps(step, s2, t2) == Some((s0, seq![v as char])));
    assert(run_steps(step, s1, t1) == Some((s0, seq![v as char])));
    assert(run_steps(step, s0, bs) == Some((s0, seq![v as char])));
}

/// Encoding any character sequence as little-endian UTF-32 bytes and
/// decoding it again yields the original sequence, and the decoder is left
/// with nothing pending.
pub proof fn lemma_utf32_le_round_trip(chars: Seq<char>)
    ensures
        run_steps(
            utf32_le_machine(),
            (UTF32LEDecoder { acc: 0u32, count: 0u8 }),
            utf32_le_encode(chars),
        ) == Some(((UTF32LEDecoder { acc: 0u32, count: 0u8 }), chars)),
    decreases chars.len(),
{
    let init = UTF32LEDecoder { acc: 0u32, count: 0u8 };
    if chars.len() == 0 {
        assert(chars =~= Seq::<char>::empty());
    } else {
        let c = chars[0];
        let rest = chars.drop_first();
        vstd::utf8::char_is_scalar(c);
        vstd::utf8::char_u32_cast(c, c as u32);
        lemma_utf32_le_char(c as u32);
        lemma_utf32_le_round_trip(rest);
        lemma_run_steps_append(
            utf32_le_machine(),
            init,
            le_bytes_of(c as u32),
            utf32_le_encode(rest),
        );
        assert(seq![c] + rest =~= chars);
    }
}

} // verus!
