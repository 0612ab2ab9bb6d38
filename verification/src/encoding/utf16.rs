//! UTF-16 decoders and encoders.
//!
//! The 16-bit decoder reconstructs surrogate pairs: a high surrogate is
//! buffered until the matching low surrogate arrives, and any other pairing
//! of surrogates is rejected. The byte-oriented big- and little-endian
//! decoders pair up bytes into 16-bit units and feed the 16-bit decoder.

use crate::encoding::utf32::UTF32Decoder;
use crate::encoding::{is_scalar_value, lemma_run_steps_append, run_steps, step_rel, Step};
use crate::infallible::{never_value, InfallibleConverter, InfallibleResult, NeverError};
use crate::Converter;
use std::collections::VecDeque;
use vstd::prelude::*;

verus! {

broadcast use {vstd::utf8::char_is_scalar, vstd::utf8::char_u32_cast};

/// An error while encoding or decoding UTF-16 characters.
#[derive(Clone, Copy, Debug, PartialEq, Eq)]
pub struct UTF16EncodingError;

/// True when `u` is a high (leading) surrogate.
pub open spec fn is_high_surrogate(u: u16) -> bool {
    0xD800 <= u && u <= 0xDBFF
}

/// True when `u` is a low (trailing) surrogate.
pub open spec fn is_low_surrogate(u: u16) -> bool {
    0xDC00 <= u && u <= 0xDFFF
}

/// The scalar value encoded by a surrogate pair.
pub open spec fn combine_surrogates(h: u16, l: u16) -> u32
    recommends
        is_high_surrogate(h),
        is_low_surrogate(l),
{
    (0x10000 + (h as int - 0xD800) * 0x400 + (l as int - 0xDC00)) as u32
}

/// The UTF-16 code units that encode scalar value `v`: the value itself for
/// the basic plane, a surrogate pair above it.
pub open spec fn utf16_units_of(v: u32) -> Seq<u16>
    recommends
        is_scalar_value(v),
{
    if v < 0x10000 {
        seq![v as u16]
    } else {
        seq![
            (0xD800 + (v as int - 0x10000) / 0x400) as u16,
            (0xDC00 + (v as int - 0x10000) % 0x400) as u16,
        ]
    }
}

/// The UTF-16 unit encoding of `chars`.
pub open spec fn utf16_encode(chars: Seq<char>) -> Seq<u16>
    decreases chars.len(),
{
    if chars.len() == 0 {
        Seq::empty()
    } else {
        utf16_units_of(chars[0] as u32) + utf16_encode(chars.drop_first())
    }
}

/// The big-endian bytes of a sequence of 16-bit units.
pub open spec fn utf16_be_bytes(units: Seq<u16>) -> Seq<u8>
    decreases units.len(),
{
    if units.len() == 0 {
        Seq::empty()
    } else {
        seq![(units[0] / 0x100) as u8, (units[0] % 0x100) as u8] + utf16_be_bytes(
            units.drop_first(),
        )
    }
}

/// The little-endian bytes of a sequence of 16-bit units.
pub open spec fn utf16_le_bytes(units: Seq<u16>) -> Seq<u8>
    decreases units.len(),
{
    if units.len() == 0 {
        Seq::empty()
    } else {
        seq![(units[0] % 0x100) as u8, (units[0] / 0x100) as u8] + utf16_le_bytes(
            units.drop_first(),
        )
    }
}

/// One step of the 16-bit decoder. With a pending high surrogate, only a
/// low surrogate is accepted and completes a pair; without one, a high
/// surrogate is buffered, a lone low surrogate is rejected, and any other
/// unit is a complete code point.
pub open spec fn utf16_step(s: UTF16Decoder, u: u16) -> Step<
    UTF16Decoder,
    char,
    UTF16EncodingError,
> {
    match s.pending {
        Some(h) => if is_low_surrogate(u) {
            ((UTF16Decoder { pending: None }), Ok(seq![combine_surrogates(h, u) as char]))
        } else {
            ((UTF16Decoder { pending: None }), Err(UTF16EncodingError))
        },
        None => if is_high_surrogate(u) {
            ((UTF16Decoder { pending: Some(u) }), Ok(Seq::empty()))
        } else if is_low_surrogate(u) {
            (s, Err(UTF16EncodingError))
        } else {
            (s, Ok(seq![((u as u32) as char)]))
        },
    }
}

/// A 16-bit decoder for UTF-16.
#[derive(Clone, Copy, Debug, PartialEq, Eq)]
pub struct UTF16Decoder {
    /// A high surrogate waiting for its low surrogate.
    pub pending: Option<u16>,
}

impl UTF16Decoder {
    /// Creates a new instance.
    pub fn new() -> (r: Self)
        ensures
            r == (UTF16Decoder { pending: None::<u16> }),
    {
        UTF16Decoder { pending: None }
    }

    /// The state invariant: only a high surrogate is ever buffered.
    pub open spec fn wf(&self) -> bool {
        match self.pending {
            Some(h) => is_high_surrogate(h),
            None => true,
        }
    }
}

impl Converter for UTF16Decoder {
    type Item = u16;

    type Output = char;

    type Error = UTF16EncodingError;

    open spec fn pre(&self, item: u16) -> bool {
        self.wf()
    }

    open spec fn ended(&self) -> bool {
        false
    }

    open spec fn fin_ok(&self) -> bool {
        self.pending is None
    }

    open spec fn fin_err(&self) -> UTF16EncodingError {
        UTF16EncodingError
    }

    open spec fn hint(&self) -> (usize, Option<usize>) {
        (0usize, Some(1usize))
    }

    open spec fn convert_rel(
        pre: Self,
        item: u16,
        post: Self,
        out: Seq<char>,
        r: Result<usize, UTF16EncodingError>,
    ) -> bool {
        step_rel(utf16_step(pre, item), post, out, r)
    }

    fn convert(&mut self, item: u16, buf: &mut VecDeque<char>) -> (r: Result<
        usize,
        UTF16EncodingError,
    >)
        ensures
            final(self).wf(),
    {
        match self.pending {
            Some(h) => {
                self.pending = None;
                if 0xDC00 <= item && item <= 0xDFFF {
                    let cp: u32 = 0x10000 + (h as u32 - 0xD800) * 0x400 + (item as u32 - 0xDC00);
                    let mut scalar_check = UTF32Decoder::new();
                    let converted = scalar_check.convert(cp, buf);
                    proof {
                        assert(buf@.skip(old(buf)@.len() as int) =~= seq![(cp as char)]);
                    }
                    match converted {
                        Ok(n) => Ok(n),
                        Err(_) => Err(UTF16EncodingError),
                    }
                } else {
                    Err(UTF16EncodingError)
                }
            },
            None => {
                if 0xD800 <= item && item <= 0xDBFF {
                    self.pending = Some(item);
                    proof {
                        assert(buf@.skip(old(buf)@.len() as int) =~= Seq::<char>::empty());
                    }
                    Ok(0)
                } else if 0xDC00 <= item && item <= 0xDFFF {
                    Err(UTF16EncodingError)
                } else {
                    let mut scalar_check = UTF32Decoder::new();
                    let converted = scalar_check.convert(item as u32, buf);
                    proof {
                        assert(buf@.skip(old(buf)@.len() as int) =~= seq![(((
                        item as u32)) as char)]);
                    }
                    match converted {
                        Ok(n) => Ok(n),
                        Err(_) => Err(UTF16EncodingError),
                    }
                }
            },
        }
    }

    fn is_ended(&self) -> (r: bool) {
        false
    }

    fn finalize(&mut self) -> (r: Result<(), UTF16EncodingError>) {
        if self.pending.is_none() {
            Ok(())
        } else {
            Err(UTF16EncodingError)
        }
    }

    fn size_hint(&self) -> (r: (usize, Option<usize>)) {
        (0, Some(1))
    }
}

/// A 16-bit encoder for UTF-16: each character is emitted as one unit or as
/// a surrogate pair, and no input can fail.
#[derive(Clone, Copy, Debug, PartialEq, Eq)]
pub struct UTF16Encoder;

impl UTF16Encoder {
    /// Creates a new instance.
    pub fn new() -> (r: Self) {
        UTF16Encoder
    }
}

impl Converter for UTF16Encoder {
    type Item = char;

    type Output = u16;

    type Error = NeverError;

    open spec fn pre(&self, item: char) -> bool {
        true
    }

    open spec fn ended(&self) -> bool {
        false
    }

    open spec fn fin_ok(&self) -> bool {
        true
    }

    open spec fn fin_err(&self) -> NeverError {
        never_value()
    }

    open spec fn hint(&self) -> (usize, Option<usize>) {
        (1usize, Some(2usize))
    }

    open spec fn convert_rel(
        pre: Self,
        item: char,
        post: Self,
        out: Seq<u16>,
        r: Result<usize, NeverError>,
    ) -> bool {
        &&& post == pre
        &&& out == utf16_units_of(item as u32)
        &&& r == Ok::<usize, NeverError>(utf16_units_of(item as u32).len() as usize)
    }

    fn convert(&mut self, item: char, buf: &mut VecDeque<u16>) -> (r: Result<usize, NeverError>)
        ensures
            final(buf)@ == old(buf)@ + utf16_units_of(item as u32),
            r matches Ok(n) && n == utf16_units_of(item as u32).len(),
    {
        let v: u32 = item as u32;
        if v < 0x10000 {
            buf.push_back(v as u16);
            proof {
                assert(final(buf)@ =~= old(buf)@ + utf16_units_of(item as u32));
                assert(buf@.skip(old(buf)@.len() as int) =~= utf16_units_of(item as u32));
            }
            Ok(1)
        } else {
            let h: u32 = 0xD800 + (v - 0x10000) / 0x400;
            let l: u32 = 0xDC00 + (v - 0x10000) % 0x400;
            buf.push_back(h as u16);
            buf.push_back(l as u16);
            proof {
                assert(final(buf)@ =~= old(buf)@ + utf16_units_of(item as u32));
                assert(buf@.skip(old(buf)@.len() as int) =~= utf16_units_of(item as u32));
            }
            Ok(2)
        }
    }

    fn is_ended(&self) -> (r: bool) {
        false
    }

    fn finalize(&mut self) -> (r: Result<(), NeverError>) {
        Ok(())
    }

    fn size_hint(&self) -> (r: (usize, Option<usize>)) {
        (1, Some(2))
    }
}

impl InfallibleConverter for UTF16Encoder {
    fn convert_ok(&mut self, item: char, buf: &mut VecDeque<u16>) -> (r: usize) {
        self.convert(item, buf).unwrap_infallible()
    }

    fn finalize_ok(&mut self) {
        self.finalize().unwrap_infallible()
    }
}

/// One step of the big-endian byte decoder: the first byte of a unit is
/// stashed, the second completes a unit that is fed to the 16-bit decoder.
pub open spec fn utf16_be_step(s: UTF16BEDecoder, b: u8) -> Step<
    UTF16BEDecoder,
    char,
    UTF16EncodingError,
> {
    match s.pending {
        None => ((UTF16BEDecoder { pending: Some(b), inner: s.inner }), Ok(Seq::empty())),
        Some(hi) => {
            let u = (hi as int * 0x100 + b as int) as u16;
            let (inner2, res) = utf16_step(s.inner, u);
            ((UTF16BEDecoder { pending: None, inner: inner2 }), res)
        },
    }
}

/// A byte decoder for UTF-16 (big-endian).
#[derive(Clone, Copy, Debug, PartialEq, Eq)]
pub struct UTF16BEDecoder {
    /// The first byte of a unit whose second byte has not arrived yet.
    pub pending: Option<u8>,
    /// The 16-bit decoder fed with the assembled units.
    pub inner: UTF16Decoder,
}

impl UTF16BEDecoder {
    /// Creates a new instance.
    pub fn new() -> (r: Self)
        ensures
            r == (UTF16BEDecoder {
                pending: None::<u8>,
                inner: (UTF16Decoder { pending: None::<u16> }),
            }),
    {
        UTF16BEDecoder { pending: None, inner: UTF16Decoder::new() }
    }
}

impl Converter for UTF16BEDecoder {
    type Item = u8;

    type Output = char;

    type Error = UTF16EncodingError;

    open spec fn pre(&self, item: u8) -> bool {
        self.inner.wf()
    }

    open spec fn ended(&self) -> bool {
        false
    }

    open spec fn fin_ok(&self) -> bool {
        self.pending is None && self.inner.pending is None
    }

    open spec fn fin_err(&self) -> UTF16EncodingError {
        UTF16EncodingError
    }

    open spec fn hint(&self) -> (usize, Option<usize>) {
        (0usize, Some(1usize))
    }

    open spec fn convert_rel(
        pre: Self,
        item: u8,
        post: Self,
        out: Seq<char>,
        r: Result<usize, UTF16EncodingError>,
    ) -> bool {
        step_rel(utf16_be_step(pre, item), post, out, r)
    }

    fn convert(&mut self, item: u8, buf: &mut VecDeque<char>) -> (r: Result<
        usize,
        UTF16EncodingError,
    >)
        ensures
            final(self).inner.wf(),
    {
        match self.pending {
            None => {
                self.pending = Some(item);
                proof {
                    assert(buf@.skip(old(buf)@.len() as int) =~= Seq::<char>::empty());
                }
                Ok(0)
            },
            Some(hi) => {
                self.pending = None;
                let unit: u16 = hi as u16 * 0x100 + item as u16;
                self.inner.convert(unit, buf)
            },
        }
    }

    fn is_ended(&self) -> (r: bool) {
        false
    }

    fn finalize(&mut self) -> (r: Result<(), UTF16EncodingError>) {
        match self.inner.finalize() {
            Ok(_) => {
                if self.pending.is_none() {
                    Ok(())
                } else {
                    Err(UTF16EncodingError)
                }
            },
            Err(e) => Err(e),
        }
    }

    fn size_hint(&self) -> (r: (usize, Option<usize>)) {
        (0, Some(1))
    }
}

/// A byte encoder for UTF-16 (big-endian): each unit of the UTF-16
/// encoding is emitted as two big-endian bytes, and no input can fail.
#[derive(Clone, Copy, Debug, PartialEq, Eq)]
pub struct UTF16BEEncoder;

impl UTF16BEEncoder {
    /// Creates a new instance.
    pub fn new() -> (r: Self) {
        UTF16BEEncoder
    }
}

impl Converter for UTF16BEEncoder {
    type Item = char;

    type Output = u8;

    type Error = NeverError;

    open spec fn pre(&self, item: char) -> bool {
        true
    }

    open spec fn ended(&self) -> bool {
        false
    }

    open spec fn fin_ok(&self) -> bool {
        true
    }

    open spec fn fin_err(&self) -> NeverError {
        never_value()
    }

    open spec fn hint(&self) -> (usize, Option<usize>) {
        (2usize, Some(4usize))
    }

    open spec fn convert_rel(
        pre: Self,
        item: char,
        post: Self,
        out: Seq<u8>,
        r: Result<usize, NeverError>,
    ) -> bool {
        &&& post == pre
        &&& out == utf16_be_bytes(utf16_units_of(item as u32))
        &&& r == Ok::<usize, NeverError>(utf16_be_bytes(utf16_units_of(item as u32)).len() as usize)
    }

    fn convert(&mut self, item: char, buf: &mut VecDeque<u8>) -> (r: Result<usize, NeverError>)
        ensures
            final(buf)@ == old(buf)@ + utf16_be_bytes(utf16_units_of(item as u32)),
            r matches Ok(n) && n == utf16_be_bytes(utf16_units_of(item as u32)).len(),
    {
        let v: u32 = item as u32;
        if v < 0x10000 {
            let u: u16 = v as u16;
            buf.push_back((u / 0x100) as u8);
            buf.push_back((u % 0x100) as u8);
            proof {
                let units = utf16_units_of(item as u32);
                assert(units =~= seq![u]);
                lemma_utf16_be_bytes_one(u);
                assert(final(buf)@ =~= old(buf)@ + utf16_be_bytes(units));
                assert(buf@.skip(old(buf)@.len() as int) =~= utf16_be_bytes(units));
            }
            Ok(2)
        } else {
            let h: u32 = 0xD800 + (v - 0x10000) / 0x400;
            let l: u32 = 0xDC00 + (v - 0x10000) % 0x400;
            let hu: u16 = h as u16;
            let lu: u16 = l as u16;
            buf.push_back((hu / 0x100) as u8);
            buf.push_back((hu % 0x100) as u8);
            buf.push_back((lu / 0x100) as u8);
            buf.push_back((lu % 0x100) as u8);
            proof {
                let units = utf16_units_of(item as u32);
                assert(units =~= seq![hu, lu]);
                lemma_utf16_be_bytes_two(hu, lu);
                assert(final(buf)@ =~= old(buf)@ + utf16_be_bytes(units));
                assert(buf@.skip(old(buf)@.len() as int) =~= utf16_be_bytes(units));
            }
            Ok(4)
        }
    }

    fn is_ended(&self) -> (r: bool) {
        false
    }

    fn finalize(&mut self) -> (r: Result<(), NeverError>) {
        Ok(())
    }

    fn size_hint(&self) -> (r: (usize, Option<usize>)) {
        (2, Some(4))
    }
}

impl InfallibleConverter for UTF16BEEncoder {
    fn convert_ok(&mut self, item: char, buf: &mut VecDeque<u8>) -> (r: usize) {
        self.convert(item, buf).unwrap_infallible()
    }

    fn finalize_ok(&mut self) {
        self.finalize().unwrap_infallible()
    }
}

/// One step of the little-endian byte decoder: the first byte of a unit is
/// stashed, the second completes a unit that is fed to the 16-bit decoder.
pub open spec fn utf16_le_step(s: UTF16LEDecoder, b: u8) -> Step<
    UTF16LEDecoder,
    char,
    UTF16EncodingError,
> {
    match s.pending {
        None => ((UTF16LEDecoder { pending: Some(b), inner: s.inner }), Ok(Seq::empty())),
        Some(lo) => {
            let u = (b as int * 0x100 + lo as int) as u16;
            let (inner2, res) = utf16_step(s.inner, u);
            ((UTF16LEDecoder { pending: None, inner: inner2 }), res)
        },
    }
}

/// A byte decoder for UTF-16 (little-endian).
#[derive(Clone, Copy, Debug, PartialEq, Eq)]
pub struct UTF16LEDecoder {
    /// The first byte of a unit whose second byte has not arrived yet.
    pub pending: Option<u8>,
    /// The 16-bit decoder fed with the assembled units.
    pub inner: UTF16Decoder,
}

impl UTF16LEDecoder {
    /// Creates a new instance.
    pub fn new() -> (r: Self)
        ensures
            r == (UTF16LEDecoder {
                pending: None::<u8>,
                inner: (UTF16Decoder { pending: None::<u16> }),
            }),
    {
        UTF16LEDecoder { pending: None, inner: UTF16Decoder::new() }
    }
}

impl Converter for UTF16LEDecoder {
    type Item = u8;

    type Output = char;

    type Error = UTF16EncodingError;

    open spec fn pre(&self, item: u8) -> bool {
        self.inner.wf()
    }

    open spec fn ended(&self) -> bool {
        false
    }

    open spec fn fin_ok(&self) -> bool {
        self.pending is None && self.inner.pending is None
    }

    open spec fn fin_err(&self) -> UTF16EncodingError {
        UTF16EncodingError
    }

    open spec fn hint(&self) -> (usize, Option<usize>) {
        (0usize, Some(1usize))
    }

    open spec fn convert_rel(
        pre: Self,
        item: u8,
        post: Self,
        out: Seq<char>,
        r: Result<usize, UTF16EncodingError>,
    ) -> bool {
        step_rel(utf16_le_step(pre, item), post, out, r)
    }

    fn convert(&mut self, item: u8, buf: &mut VecDeque<char>) -> (r: Result<
        usize,
        UTF16EncodingError,
    >)
        ensures
            final(self).inner.wf(),
    {
        match self.pending {
            None => {
                self.pending = Some(item);
                proof {
                    assert(buf@.skip(old(buf)@.len() as int) =~= Seq::<char>::empty());
                }
                Ok(0)
            },
            Some(lo) => {
                self.pending = None;
                let unit: u16 = item as u16 * 0x100 + lo as u16;
                self.inner.convert(unit, buf)
            },
        }
    }

    fn is_ended(&self) -> (r: bool) {
        false
    }

    fn finalize(&mut self) -> (r: Result<(), UTF16EncodingError>) {
        match self.inner.finalize() {
            Ok(_) => {
                if self.pending.is_none() {
                    Ok(())
                } else {
                    Err(UTF16EncodingError)
                }
            },
            Err(e) => Err(e),
        }
    }

    fn size_hint(&self) -> (r: (usize, Option<usize>)) {
        (0, Some(1))
    }
}

/// A byte encoder for UTF-16 (little-endian): each unit of the UTF-16
/// encoding is emitted as two little-endian bytes, and no input can fail.
#[derive(Clone, Copy, Debug, PartialEq, Eq)]
pub struct UTF16LEEncoder;

impl UTF16LEEncoder {
    /// Creates a new instance.
    pub fn new() -> (r: Self) {
        UTF16LEEncoder
    }
}

impl Converter for UTF16LEEncoder {
    type Item = char;

    type Output = u8;

    type Error = NeverError;

    open spec fn pre(&self, item: char) -> bool {
        true
    }

    open spec fn ended(&self) -> bool {
        false
    }

    open spec fn fin_ok(&self) -> bool {
        true
    }

    open spec fn fin_err(&self) -> NeverError {
        never_value()
    }

    open spec fn hint(&self) -> (usize, Option<usize>) {
        (2usize, Some(4usize))
    }

    open spec fn convert_rel(
        pre: Self,
        item: char,
        post: Self,
        out: Seq<u8>,
        r: Result<usize, NeverError>,
    ) -> bool {
        &&& post == pre
        &&& out == utf16_le_bytes(utf16_units_of(item as u32))
        &&& r == Ok::<usize, NeverError>(utf16_le_bytes(utf16_units_of(item as u32)).len() as usize)
    }

    fn convert(&mut self, item: char, buf: &mut VecDeque<u8>) -> (r: Result<usize, NeverError>)
        ensures
            final(buf)@ == old(buf)@ + utf16_le_bytes(utf16_units_of(item as u32)),
            r matches Ok(n) && n == utf16_le_bytes(utf16_units_of(item as u32)).len(),
    {
        let v: u32 = item as u32;
        if v < 0x10000 {
            let u: u16 = v as u16;
            buf.push_back((u % 0x100) as u8);
            buf.push_back((u / 0x100) as u8);
            proof {
                let units = utf16_units_of(item as u32);
                assert(units =~= seq![u]);
                lemma_utf16_le_bytes_one(u);
                assert(final(buf)@ =~= old(buf)@ + utf16_le_bytes(units));
                assert(buf@.skip(old(buf)@.len() as int) =~= utf16_le_bytes(units));
            }
            Ok(2)
        } else {
            let h: u32 = 0xD800 + (v - 0x10000) / 0x400;
            let l: u32 = 0xDC00 + (v - 0x10000) % 0x400;
            let hu: u16 = h as u16;
            let lu: u16 = l as u16;
            buf.push_back((hu % 0x100) as u8);
            buf.push_back((hu / 0x100) as u8);
            buf.push_back((lu % 0x100) as u8);
            buf.push_back((lu / 0x100) as u8);
            proof {
                let units = utf16_units_of(item as u32);
                assert(units =~= seq![hu, lu]);
                lemma_utf16_le_bytes_two(hu, lu);
                assert(final(buf)@ =~= old(buf)@ + utf16_le_bytes(units));
                assert(buf@.skip(old(buf)@.len() as int) =~= utf16_le_bytes(units));
            }
            Ok(4)
        }
    }

    fn is_ended(&self) -> (r: bool) {
        false
    }

    fn finalize(&mut self) -> (r: Result<(), NeverError>) {
        Ok(())
    }

    fn size_hint(&self) -> (r: (usize, Option<usize>)) {
        (2, Some(4))
    }
}

impl InfallibleConverter for UTF16LEEncoder {
    fn convert_ok(&mut self, item: char, buf: &mut VecDeque<u8>) -> (r: usize) {
        self.convert(item, buf).unwrap_infallible()
    }

    fn finalize_ok(&mut self) {
        self.finalize().unwrap_infallible()
    }
}

/// The big-endian bytes of a single unit, spelled out.
proof fn lemma_utf16_be_bytes_one(u: u16)
    ensures
        utf16_be_bytes(seq![u]) =~= seq![(u / 0x100) as u8, (u % 0x100) as u8],
{
    assert(seq![u].drop_first().len() == 0);
    assert(utf16_be_bytes(seq![u].drop_first()) =~= Seq::<u8>::empty());
}

/// The big-endian bytes of a surrogate pair, spelled out.
proof fn lemma_utf16_be_bytes_two(h: u16, l: u16)
    ensures
        utf16_be_bytes(seq![h, l]) =~= seq![
            (h / 0x100) as u8,
            (h % 0x100) as u8,
            (l / 0x100) as u8,
            (l % 0x100) as u8,
        ],
{
    assert(seq![h, l].drop_first() =~= seq![l]);
    lemma_utf16_be_bytes_one(l);
}

/// The little-endian bytes of a single unit, spelled out.
proof fn lemma_utf16_le_bytes_one(u: u16)
    ensures
        utf16_le_bytes(seq![u]) =~= seq![(u % 0x100) as u8, (u / 0x100) as u8],
{
    assert(seq![u].drop_first().len() == 0);
    assert(utf16_le_bytes(seq![u].drop_first()) =~= Seq::<u8>::empty());
}

/// The little-endian bytes of a surrogate pair, spelled out.
proof fn lemma_utf16_le_bytes_two(h: u16, l: u16)
    ensures
        utf16_le_bytes(seq![h, l]) =~= seq![
            (h % 0x100) as u8,
            (h / 0x100) as u8,
            (l % 0x100) as u8,
            (l / 0x100) as u8,
        ],
{
    assert(seq![h, l].drop_first() =~= seq![l]);
    lemma_utf16_le_bytes_one(l);
}

/// The 16-bit decoder as a state machine.
pub open spec fn utf16_machine() -> spec_fn(UTF16Decoder, u16) -> Step<
    UTF16Decoder,
    char,
    UTF16EncodingError,
> {
    |s: UTF16Decoder, u: u16| utf16_step(s, u)
}

/// The big-endian byte decoder as a state machine.
pub open spec fn utf16_be_machine() -> spec_fn(UTF16BEDecoder, u8) -> Step<
    UTF16BEDecoder,
    char,
    UTF16EncodingError,
> {
    |s: UTF16BEDecoder, b: u8| utf16_be_step(s, b)
}

/// The little-endian byte decoder as a state machine.
pub open spec fn utf16_le_machine() -> spec_fn(UTF16LEDecoder, u8) -> Step<
    UTF16LEDecoder,
    char,
    UTF16EncodingError,
> {
    |s: UTF16LEDecoder, b: u8| utf16_le_step(s, b)
}

/// The 16-bit machine consumes the unit encoding of one scalar value from a
/// clean state, emits exactly its character, and is clean again.
proof fn lemma_utf16_char(v: u32)
    requires
        is_scalar_value(v),
    ensures
        run_steps(utf16_machine(), (UTF16Decoder { pending: None::<u16> }), utf16_units_of(v))
            == Some(((UTF16Decoder { pending: None::<u16> }), seq![v as char])),
{
    let step = utf16_machine();
    let s0 = UTF16Decoder { pending: None::<u16> };
    let units = utf16_units_of(v);
    if v < 0x10000 {
        assert(units.drop_first().len() == 0);
        assert(((v as u16) as u32) == v);
        assert(run_steps(step, s0, units.drop_first()) == Some((s0, Seq::<char>::empty())));
        assert(seq![(((v as u16) as u32) as char)] + Seq::<char>::empty() =~= seq![v as char]);
        assert(run_steps(step, s0, units) == Some((s0, seq![v as char])));
    } else {
        let h = units[0];
        let l = units[1];
        vstd::arithmetic::div_mod::lemma_fundamental_div_mod(v as int - 0x10000, 0x400);
        vstd::arithmetic::div_mod::lemma_mod_division_less_than_divisor(v as int - 0x10000, 0x400);
        vstd::arithmetic::div_mod::lemma_div_pos_is_pos(v as int - 0x10000, 0x400);
        vstd::arithmetic::div_mod::lemma_multiply_divide_lt(v as int - 0x10000, 0x400, 0x400);
        assert(is_high_surrogate(h));
        assert(is_low_surrogate(l));
        assert(combine_surrogates(h, l) == v);
        let t1 = units.drop_first();
        let t2 = t1.drop_first();
        assert(t2.len() == 0);
        let (s1, r1) = step(s0, h);
        assert(s1 == (UTF16Decoder { pending: Some(h) }));
        assert(run_steps(step, s0, t2) == Some((s0, Seq::<char>::empty())));
        assert(run_steps(step, s1, t1) == Some((s0, seq![v as char])));
        assert(Seq::<char>::empty() + seq![v as char] =~= seq![v as char]);
    }
}

/// Encoding any character sequence as UTF-16 units and decoding it again
/// yields the original sequence, and the decoder is left with no pending
/// surrogate.
pub proof fn lemma_utf16_round_trip(chars: Seq<char>)
    ensures
        run_steps(utf16_machine(), (UTF16Decoder { pending: None::<u16> }), utf16_encode(chars))
            == Some(((UTF16Decoder { pending: None::<u16> }), chars)),
    decreases chars.len(),
{
    let init = UTF16Decoder { pending: None::<u16> };
    if chars.len() == 0 {
        assert(chars =~= Seq::<char>::empty());
    } else {
        let c = chars[0];
        let rest = chars.drop_first();
        vstd::utf8::char_is_scalar(c);
        vstd::utf8::char_u32_cast(c, c as u32);
        lemma_utf16_char(c as u32);
        lemma_utf16_round_trip(rest);
        lemma_run_steps_append(
            utf16_machine(),
            init,
            utf16_units_of(c as u32),
            utf16_encode(rest),
        );
        assert(seq![c] + rest =~= chars);
    }
}

/// The big-endian byte machine consumes the two bytes of one unit from a
/// state with no pending byte and acts exactly as one step of the 16-bit
/// machine on that unit.
proof fn lemma_utf16_be_pair(s: UTF16Decoder, u: u16)
    ensures
        ({
            let (s1, res) = utf16_step(s, u);
            run_steps(
                utf16_be_machine(),
                (UTF16BEDecoder { pending: None::<u8>, inner: s }),
                seq![(u / 0x100) as u8, (u % 0x100) as u8],
            ) == match res {
                Ok(out) => Some(((UTF16BEDecoder { pending: None::<u8>, inner: s1 }), out)),
                Err(_) => None::<(UTF16BEDecoder, Seq<char>)>,
            }
        }),
{
    let bstep = utf16_be_machine();
    let b0 = UTF16BEDecoder { pending: None::<u8>, inner: s };
    let hi = (u / 0x100) as u8;
    let lo = (u % 0x100) as u8;
    vstd::arithmetic::div_mod::lemma_fundamental_div_mod(u as int, 0x100);
    vstd::arithmetic::div_mod::lemma_mod_division_less_than_divisor(u as int, 0x100);
    vstd::arithmetic::div_mod::lemma_div_pos_is_pos(u as int, 0x100);
    vstd::arithmetic::div_mod::lemma_multiply_divide_lt(u as int, 0x100, 0x100);
    assert(hi as int * 0x100 + lo as int == u as int);
    let (bs1, bres1) = bstep(b0, hi);
    assert(bs1 == (UTF16BEDecoder { pending: Some(hi), inner: s }));
    let (s1, res) = utf16_step(s, u);
    let b2 = UTF16BEDecoder { pending: None::<u8>, inner: s1 };
    assert(seq![hi, lo].drop_first() =~= seq![lo]);
    assert(seq![lo].drop_first() =~= Seq::<u8>::empty());
    assert(run_steps(bstep, b2, Seq::<u8>::empty()) == Some((b2, Seq::<char>::empty())));
    match res {
        Ok(out) => {
            assert(run_steps(bstep, bs1, seq![lo]) == Some((b2, out))) by {
                assert(out + Seq::<char>::empty() =~= out);
            }
            assert(run_steps(bstep, b0, seq![hi, lo]) == Some((b2, out))) by {
                assert(Seq::<char>::empty() + out =~= out);
            }
        },
        Err(_) => {
            assert(run_steps(bstep, bs1, seq![lo]) is None);
            assert(run_steps(bstep, b0, seq![hi, lo]) is None);
        },
    }
}

/// Feeding the big-endian byte machine the bytes of a unit sequence acts
/// exactly as feeding the 16-bit machine the units themselves.
proof fn lemma_utf16_be_bytes_run(s: UTF16Decoder, units: Seq<u16>)
    ensures
        run_steps(
            utf16_be_machine(),
            (UTF16BEDecoder { pending: None::<u8>, inner: s }),
            utf16_be_bytes(units),
        ) == match run_steps(utf16_machine(), s, units) {
            Some((s2, out)) => Some(((UTF16BEDecoder { pending: None::<u8>, inner: s2 }), out)),
            None => None::<(UTF16BEDecoder, Seq<char>)>,
        },
    decreases units.len(),
{
    let bstep = utf16_be_machine();
    let b0 = UTF16BEDecoder { pending: None::<u8>, inner: s };
    if units.len() == 0 {
        assert(utf16_be_bytes(units).len() == 0);
    } else {
        let u = units[0];
        let hi = (u / 0x100) as u8;
        let lo = (u % 0x100) as u8;
        lemma_utf16_be_pair(s, u);
        let (s1, res) = utf16_step(s, u);
        lemma_run_steps_append(bstep, b0, seq![hi, lo], utf16_be_bytes(units.drop_first()));
        assert(utf16_be_bytes(units) =~= seq![hi, lo] + utf16_be_bytes(units.drop_first()));
        match res {
            Ok(out) => {
                lemma_utf16_be_bytes_run(s1, units.drop_first());
                match run_steps(utf16_machine(), s1, units.drop_first()) {
                    Some((s2, out2)) => {
                        assert(run_steps(utf16_machine(), s, units) == Some((s2, out + out2)));
                    },
                    None => {},
                }
            },
            Err(_) => {},
        }
    }
}

/// The little-endian byte machine consumes the two bytes of one unit from
/// a state with no pending byte and acts exactly as one step of the 16-bit
/// machine on that unit.
proof fn lemma_utf16_le_pair(s: UTF16Decoder, u: u16)
    ensures
        ({
            let (s1, res) = utf16_step(s, u);
            run_steps(
                utf16_le_machine(),
                (UTF16LEDecoder { pending: None::<u8>, inner: s }),
                seq![(u % 0x100) as u8, (u / 0x100) as u8],
            ) == match res {
                Ok(out) => Some(((UTF16LEDecoder { pending: None::<u8>, inner: s1 }), out)),
                Err(_) => None::<(UTF16LEDecoder, Seq<char>)>,
            }
        }),
{
    let bstep = utf16_le_machine();
    let b0 = UTF16LEDecoder { pending: None::<u8>, inner: s };
    let hi = (u / 0x100) as u8;
    let lo = (u % 0x100) as u8;
    vstd::arithmetic::div_mod::lemma_fundamental_div_mod(u as int, 0x100);
    vstd::arithmetic::div_mod::lemma_mod_division_less_than_divisor(u as int, 0x100);
    vstd::arithmetic::div_mod::lemma_div_pos_is_pos(u as int, 0x100);
    vstd::arithmetic::div_mod::lemma_multiply_divide_lt(u as int, 0x100, 0x100);
    assert(hi as int * 0x100 + lo as int == u as int);
    let (bs1, bres1) = bstep(b0, lo);
    assert(bs1 == (UTF16LEDecoder { pending: Some(lo), inner: s }));
    let (s1, res) = utf16_step(s, u);
    let b2 = UTF16LEDecoder { pending: None::<u8>, inner: s1 };
    assert(seq![lo, hi].drop_first() =~= seq![hi]);
    assert(seq![hi].drop_first() =~= Seq::<u8>::empty());
    assert(run_steps(bstep, b2, Seq::<u8>::empty()) == Some((b2, Seq::<char>::empty())));
    match res {
        Ok(out) => {
            assert(run_steps(bstep, bs1, seq![hi]) == Some((b2, out))) by {
                assert(out + Seq::<char>::empty() =~= out);
            }
            assert(run_steps(bstep, b0, seq![lo, hi]) == Some((b2, out))) by {
                assert(Seq::<char>::empty() + out =~= out);
            }
        },
        Err(_) => {
            assert(run_steps(bstep, bs1, seq![hi]) is None);
            assert(run_steps(bstep, b0, seq![lo, hi]) is None);
        },
    }
}

/// Feeding the little-endian byte machine the bytes of a unit sequence
/// acts exactly as feeding the 16-bit machine the units themselves.
proof fn lemma_utf16_le_bytes_run(s: UTF16Decoder, units: Seq<u16>)
    ensures
        run_steps(
            utf16_le_machine(),
            (UTF16LEDecoder { pending: None::<u8>, inner: s }),
            utf16_le_bytes(units),
        ) == match run_steps(utf16_machine(), s, units) {
            Some((s2, out)) => Some(((UTF16LEDecoder { pending: None::<u8>, inner: s2 }), out)),
            None => None::<(UTF16LEDecoder, Seq<char>)>,
        },
    decreases units.len(),
{
    let bstep = utf16_le_machine();
    let b0 = UTF16LEDecoder { pending: None::<u8>, inner: s };
    if units.len() == 0 {
        assert(utf16_le_bytes(units).len() == 0);
    } else {
        let u = units[0];
        let hi = (u / 0x100) as u8;
        let lo = (u % 0x100) as u8;
        lemma_utf16_le_pair(s, u);
        let (s1, res) = utf16_step(s, u);
        lemma_run_steps_append(bstep, b0, seq![lo, hi], utf16_le_bytes(units.drop_first()));
        assert(utf16_le_bytes(units) =~= seq![lo, hi] + utf16_le_bytes(units.drop_first()));
        match res {
            Ok(out) => {
                lemma_utf16_le_bytes_run(s1, units.drop_first());
                match run_steps(utf16_machine(), s1, units.drop_first()) {
                    Some((s2, out2)) => {
                        assert(run_steps(utf16_machine(), s, units) == Some((s2, out + out2)));
                    },
                    None => {},
                }
            },
            Err(_) => {},
        }
    }
}

/// Encoding any character sequence as big-endian UTF-16 bytes and decoding
/// it again yields the original sequence, and the decoder is left with
/// nothing pending.
pub proof fn lemma_utf16_be_round_trip(chars: Seq<char>)
    ensures
        run_steps(
            utf16_be_machine(),
            (UTF16BEDecoder { pending: None::<u8>, inner: (UTF16Decoder { pending: None::<u16> }) }),
            utf16_be_bytes(utf16_encode(chars)),
        ) == Some(
            (
                (UTF16BEDecoder {
                    pending: None::<u8>,
                    inner: (UTF16Decoder { pending: None::<u16> }),
                }),
                chars,
            ),
        ),
{
    let init = UTF16Decoder { pending: None::<u16> };
    lemma_utf16_round_trip(chars);
    lemma_utf16_be_bytes_run(init, utf16_encode(chars));
}

/// Encoding any character sequence as little-endian UTF-16 bytes and
/// decoding it again yields the original sequence, and the decoder is left
/// with nothing pending.
pub proof fn lemma_utf16_le_round_trip(chars: Seq<char>)
    ensures
        run_steps(
            utf16_le_machine(),
            (UTF16LEDecoder { pending: None::<u8>, inner: (UTF16Decoder { pending: None::<u16> }) }),
            utf16_le_bytes(utf16_encode(chars)),
        ) == Some(
            (
                (UTF16LEDecoder {
                    pending: None::<u8>,
                    inner: (UTF16Decoder { pending: None::<u16> }),
                }),
                chars,
            ),
        ),
{
    let init = UTF16Decoder { pending: None::<u16> };
    lemma_utf16_round_trip(chars);
    lemma_utf16_le_bytes_run(init, utf16_encode(chars));
}

} // verus!
