//! UTF-8 decoders and encoders.
//!
//! The decoder is a state machine over single bytes: a lead byte opens a
//! sequence of one to four bytes, each continuation byte must lie between a
//! lower bound that rules out overlong encodings and 0xBF, and a completed
//! code point must be a Unicode scalar value. Its step function is written
//! with the building blocks of [`vstd::utf8`], so the round-trip law below
//! connects the machine to that module's `decode_utf8` and `encode_utf8`.
//!
//! After any decoding error the state is reset to empty: errors are fatal
//! for the stream, and a deterministic reset keeps the behaviour defined.

use crate::encoding::{is_scalar_value, run_steps, step_rel, Step};
use crate::infallible::{never_value, InfallibleConverter, InfallibleResult, NeverError};
use crate::Converter;
use std::collections::VecDeque;
use vstd::prelude::*;
use vstd::utf8::{
    codepoint_width_1, codepoint_width_2, codepoint_width_3, codepoint_width_4, continuation_bits,
    decode_utf8, encode_scalar, encode_utf8, leading_bits_width_2, leading_bits_width_3,
    leading_bits_width_4, valid_utf8,
};

verus! {

broadcast use {vstd::utf8::char_is_scalar, vstd::utf8::char_u32_cast};

/// An error while decoding UTF-8.
#[derive(Clone, Copy, Debug, PartialEq, Eq)]
pub struct UTF8EncodingError;

/// The empty decoder state: no bytes of a sequence are pending.
pub open spec fn utf8_init() -> UTF8Decoder {
    UTF8Decoder { remain: 0, codepoint: 0, lower: 0 }
}

/// The shift at which a continuation byte's bits enter the code point when
/// `r` more continuation bytes will follow it.
pub open spec fn cont_shift(r: u8) -> u32 {
    if r >= 2 {
        12
    } else {
        6
    }
}

/// One step of the UTF-8 decoder. With no pending sequence, a byte up to
/// 0x7F is a complete character, 0xC2-0xDF, 0xE0-0xEF and 0xF0-0xF4 open
/// two-, three- and four-byte sequences, and anything else is rejected; the
/// lower bound for the first continuation byte is raised after 0xE0 and
/// 0xF0 to rule out overlong encodings. A continuation byte outside
/// `[lower, 0xBF]` is rejected, and a completed code point must be a
/// Unicode scalar value. The state after an error is always the empty
/// state.
pub open spec fn utf8_step(s: UTF8Decoder, b: u8) -> Step<UTF8Decoder, char, UTF8EncodingError> {
    if s.remain == 0 {
        if b <= 0x7F {
            (s, Ok(seq![(((b as u32)) as char)]))
        } else if 0xC2 <= b && b <= 0xDF {
            (
                (UTF8Decoder { remain: 1, codepoint: leading_bits_width_2(b) << 6, lower: 0x80 }),
                Ok(Seq::empty()),
            )
        } else if 0xE0 <= b && b <= 0xEF {
            (
                (UTF8Decoder {
                    remain: 2,
                    codepoint: leading_bits_width_3(b) << 12,
                    lower: if b == 0xE0 {
                        0xA0
                    } else {
                        0x80
                    },
                }),
                Ok(Seq::empty()),
            )
        } else if 0xF0 <= b && b <= 0xF4 {
            (
                (UTF8Decoder {
                    remain: 3,
                    codepoint: leading_bits_width_4(b) << 18,
                    lower: if b == 0xF0 {
                        0x90
                    } else {
                        0x80
                    },
                }),
                Ok(Seq::empty()),
            )
        } else {
            (utf8_init(), Err(UTF8EncodingError))
        }
    } else {
        if s.lower <= b && b <= 0xBF {
            let r2 = (s.remain - 1) as u8;
            let cp = if r2 == 0 {
                s.codepoint | continuation_bits(b)
            } else {
                s.codepoint | (continuation_bits(b) << cont_shift(r2))
            };
            if r2 == 0 {
                if is_scalar_value(cp) {
                    (utf8_init(), Ok(seq![(cp as char)]))
                } else {
                    (utf8_init(), Err(UTF8EncodingError))
                }
            } else {
                ((UTF8Decoder { remain: r2, codepoint: cp, lower: 0x80 }), Ok(Seq::empty()))
            }
        } else {
            (utf8_init(), Err(UTF8EncodingError))
        }
    }
}

/// A decoder for UTF-8.
#[derive(Clone, Copy, Debug, PartialEq, Eq)]
pub struct UTF8Decoder {
    /// How many continuation bytes are still needed.
    pub remain: u8,
    /// The partially assembled code point.
    pub codepoint: u32,
    /// The lower bound for the next continuation byte.
    pub lower: u8,
}

impl UTF8Decoder {
    /// Creates a new instance.
    pub fn new() -> (r: Self)
        ensures
            r == utf8_init(),
    {
        UTF8Decoder { remain: 0, codepoint: 0, lower: 0 }
    }
}

impl Converter for UTF8Decoder {
    type Item = u8;

    type Output = char;

    type Error = UTF8EncodingError;

    open spec fn pre(&self, item: u8) -> bool {
        true
    }

    open spec fn ended(&self) -> bool {
        false
    }

    open spec fn fin_ok(&self) -> bool {
        self.remain == 0
    }

    open spec fn fin_err(&self) -> UTF8EncodingError {
        UTF8EncodingError
    }

    open spec fn hint(&self) -> (usize, Option<usize>) {
        (0usize, Some(1usize))
    }

    open spec fn convert_rel(
        pre: Self,
        item: u8,
        post: Self,
        out: Seq<char>,
        r: Result<usize, UTF8EncodingError>,
    ) -> bool {
        step_rel(utf8_step(pre, item), post, out, r)
    }

    fn convert(&mut self, item: u8, buf: &mut VecDeque<char>) -> (r: Result<
        usize,
        UTF8EncodingError,
    >) {
        if self.remain == 0 {
            if item <= 0x7F {
                match char::from_u32(item as u32) {
                    Some(c) => {
                        buf.push_back(c);
                        proof {
                            assert(buf@.skip(old(buf)@.len() as int) =~= seq![(((
                            item as u32)) as char)]);
                        }
                        Ok(1)
                    },
                    None => Err(UTF8EncodingError),
                }
            } else if 0xC2 <= item && item <= 0xDF {
                self.remain = 1;
                self.codepoint = ((item & 0x1F) as u32) << 6;
                self.lower = 0x80;
                proof {
                    assert(buf@.skip(old(buf)@.len() as int) =~= Seq::<char>::empty());
                }
                Ok(0)
            } else if 0xE0 <= item && item <= 0xEF {
                self.remain = 2;
                self.codepoint = ((item & 0x0F) as u32) << 12;
                self.lower = if item == 0xE0 {
                    0xA0
                } else {
                    0x80
                };
                proof {
                    assert(buf@.skip(old(buf)@.len() as int) =~= Seq::<char>::empty());
                }
                Ok(0)
            } else if 0xF0 <= item && item <= 0xF4 {
                self.remain = 3;
                self.codepoint = ((item & 0x07) as u32) << 18;
                self.lower = if item == 0xF0 {
                    0x90
                } else {
                    0x80
                };
                proof {
                    assert(buf@.skip(old(buf)@.len() as int) =~= Seq::<char>::empty());
                }
                Ok(0)
            } else {
                self.codepoint = 0;
                self.lower = 0;
                Err(UTF8EncodingError)
            }
        } else {
            if self.lower <= item && item <= 0xBF {
                let r2: u8 = self.remain - 1;
                let cont: u32 = (item & 0x3F) as u32;
                let cp: u32 = if r2 == 0 {
                    self.codepoint | cont
                } else if r2 >= 2 {
                    self.codepoint | (cont << 12)
                } else {
                    self.codepoint | (cont << 6)
                };
                if r2 == 0 {
                    self.remain = 0;
                    self.codepoint = 0;
                    self.lower = 0;
                    match char::from_u32(cp) {
                        Some(c) => {
                            buf.push_back(c);
                            proof {
                                assert(buf@.skip(old(buf)@.len() as int) =~= seq![(cp as char)]);
                            }
                            Ok(1)
                        },
                        None => Err(UTF8EncodingError),
                    }
                } else {
                    self.remain = r2;
                    self.codepoint = cp;
                    self.lower = 0x80;
                    proof {
                        assert(buf@.skip(old(buf)@.len() as int) =~= Seq::<char>::empty());
                    }
                    Ok(0)
                }
            } else {
                self.remain = 0;
                self.codepoint = 0;
                self.lower = 0;
                Err(UTF8EncodingError)
            }
        }
    }

    fn is_ended(&self) -> (r: bool) {
        false
    }

    fn finalize(&mut self) -> (r: Result<(), UTF8EncodingError>) {
        if self.remain == 0 {
            Ok(())
        } else {
            Err(UTF8EncodingError)
        }
    }

    fn size_hint(&self) -> (r: (usize, Option<usize>)) {
        (0, Some(1))
    }
}

/// An encoder for UTF-8: each character is emitted as the one to four
/// bytes of its standard UTF-8 encoding, and no input can fail.
#[derive(Clone, Copy, Debug, PartialEq, Eq)]
pub struct UTF8Encoder;

impl UTF8Encoder {
    /// Creates a new instance.
    pub fn new() -> (r: Self) {
        UTF8Encoder
    }
}

impl Converter for UTF8Encoder {
    type Item = char;

    type Output = u8;

    type Error = NeverError;

    open spec fn pre(&self, item: char) -> bool {
        true
    }

    open spec fn ended(&self) -> bool {
        false
    }

    open spec fn fin_ok(&self) -> bool {
        true
    }

    open spec fn fin_err(&self) -> NeverError {
        never_value()
    }

    open spec fn hint(&self) -> (usize, Option<usize>) {
        (1usize, Some(4usize))
    }

    open spec fn convert_rel(
        pre: Self,
        item: char,
        post: Self,
        out: Seq<u8>,
        r: Result<usize, NeverError>,
    ) -> bool {
        &&& post == pre
        &&& out == encode_scalar(item as u32)
        &&& r == Ok::<usize, NeverError>(encode_scalar(item as u32).len() as usize)
    }

    fn convert(&mut self, item: char, buf: &mut VecDeque<u8>) -> (r: Result<usize, NeverError>)
        ensures
            final(buf)@ == old(buf)@ + encode_scalar(item as u32),
            r matches Ok(n) && n == encode_scalar(item as u32).len(),
    {
        let v: u32 = item as u32;
        if v <= 0x7F {
            buf.push_back((v & 0x7F) as u8);
            proof {
                assert(final(buf)@ =~= old(buf)@ + encode_scalar(item as u32));
                assert(buf@.skip(old(buf)@.len() as int) =~= encode_scalar(item as u32));
            }
            Ok(1)
        } else if v <= 0x7FF {
            buf.push_back(0xC0 | ((v >> 6) & 0x1F) as u8);
            buf.push_back(0x80 | (v & 0x3F) as u8);
            proof {
                assert(final(buf)@ =~= old(buf)@ + encode_scalar(item as u32));
                assert(buf@.skip(old(buf)@.len() as int) =~= encode_scalar(item as u32));
            }
            Ok(2)
        } else if v <= 0xFFFF {
            buf.push_back(0xE0 | ((v >> 12) & 0x0F) as u8);
            buf.push_back(0x80 | ((v >> 6) & 0x3F) as u8);
            buf.push_back(0x80 | (v & 0x3F) as u8);
            proof {
                vstd::utf8::char_is_scalar(item);
                assert(final(buf)@ =~= old(buf)@ + encode_scalar(item as u32));
                assert(buf@.skip(old(buf)@.len() as int) =~= encode_scalar(item as u32));
            }
            Ok(3)
        } else {
            buf.push_back(0xF0 | ((v >> 18) & 0x7) as u8);
            buf.push_back(0x80 | ((v >> 12) & 0x3F) as u8);
            buf.push_back(0x80 | ((v >> 6) & 0x3F) as u8);
            buf.push_back(0x80 | (v & 0x3F) as u8);
            proof {
                assert(final(buf)@ =~= old(buf)@ + encode_scalar(item as u32));
                assert(buf@.skip(old(buf)@.len() as int) =~= encode_scalar(item as u32));
            }
            Ok(4)
        }
    }

    fn is_ended(&self) -> (r: bool) {
        false
    }

    fn finalize(&mut self) -> (r: Result<(), NeverError>) {
        Ok(())
    }

    fn size_hint(&self) -> (r: (usize, Option<usize>)) {
        (1, Some(4))
    }
}

impl InfallibleConverter for UTF8Encoder {
    fn convert_ok(&mut self, item: char, buf: &mut VecDeque<u8>) -> (r: usize) {
        self.convert(item, buf).unwrap_infallible()
    }

    fn finalize_ok(&mut self) {
        self.finalize().unwrap_infallible()
    }
}

/// The UTF-8 decoder as a state machine.
pub open spec fn utf8_machine() -> spec_fn(UTF8Decoder, u8) -> Step<
    UTF8Decoder,
    char,
    UTF8EncodingError,
> {
    |s: UTF8Decoder, b: u8| utf8_step(s, b)
}

/// When the UTF-8 machine consumes a whole byte sequence without an error
/// and without a pending sequence at the end, the bytes are valid UTF-8
/// and the machine emitted exactly their decoding.
pub proof fn lemma_utf8_machine_decodes(bytes: Seq<u8>)
    ensures
        match run_steps(utf8_machine(), utf8_init(), bytes) {
            Some((s, out)) => s.remain == 0 ==> valid_utf8(bytes) && out == decode_utf8(bytes),
            None => true,
        },
    decreases bytes.len(), 1int,
{
    let step = utf8_machine();
    let s0 = utf8_init();
    if bytes.len() == 0 {
        assert(run_steps(step, s0, bytes) == Some((s0, Seq::<char>::empty())));
        assert(decode_utf8(bytes) =~= Seq::<char>::empty());
    } else {
        let b0 = bytes[0];
        let d1 = bytes.drop_first();
        let (s1, res1) = step(s0, b0);
        if b0 <= 0x7F {
            lemma_utf8_machine_decodes(d1);
            match run_steps(step, s0, d1) {
                Some((s2, o2)) => {
                    assert(run_steps(step, s0, bytes) == Some(
                        (s2, seq![(((b0 as u32)) as char)] + o2),
                    ));
                    if s2.remain == 0 {
                        assert((b0 & 0x7F) == b0) by (bit_vector)
                            requires
                                b0 <= 0x7F,
                        ;
                        assert(codepoint_width_1(b0) == b0 as u32);
                        assert(vstd::utf8::length_of_first_codepoint(bytes) == 1);
                        assert(vstd::utf8::valid_first_scalar(bytes));
                        assert(vstd::utf8::pop_first_scalar(bytes) =~= d1);
                        assert(valid_utf8(bytes));
                        assert(decode_utf8(bytes) == seq![(
                        vstd::utf8::decode_first_scalar(bytes) as char)] + decode_utf8(d1));
                        assert(seq![(((b0 as u32)) as char)] + o2 == decode_utf8(bytes));
                    }
                },
                None => {
                    assert(run_steps(step, s0, bytes) is None);
                },
            }
        } else if 0xC2 <= b0 && b0 <= 0xDF {
            lemma_utf8_machine_decodes_w2(bytes);
        } else if 0xE0 <= b0 && b0 <= 0xEF {
            lemma_utf8_machine_decodes_w3(bytes);
        } else if 0xF0 <= b0 && b0 <= 0xF4 {
            lemma_utf8_machine_decodes_w4(bytes);
        } else {
            assert(run_steps(step, s0, bytes) is None);
        }
    }
}

/// The case of [`lemma_utf8_machine_decodes`] for a two-byte lead.
proof fn lemma_utf8_machine_decodes_w2(bytes: Seq<u8>)
    requires
        bytes.len() > 0,
        0xC2 <= bytes[0] && bytes[0] <= 0xDF,
    ensures
        match run_steps(utf8_machine(), utf8_init(), bytes) {
            Some((s, out)) => s.remain == 0 ==> valid_utf8(bytes) && out == decode_utf8(bytes),
            None => true,
        },
    decreases bytes.len(), 0int,
{
    let step = utf8_machine();
    let s0 = utf8_init();
    let b0 = bytes[0];
    let d1 = bytes.drop_first();
    let (s1, res1) = step(s0, b0);
    assert(s1 == (UTF8Decoder {
        remain: 1,
        codepoint: leading_bits_width_2(b0) << 6,
        lower: 0x80,
    }));
    if d1.len() == 0 {
        assert(run_steps(step, s1, d1) == Some((s1, Seq::<char>::empty())));
        assert(run_steps(step, s0, bytes) == Some(
            (s1, Seq::<char>::empty() + Seq::<char>::empty()),
        ));
    } else {
        let b1 = d1[0];
        let d2 = d1.drop_first();
        let (s2, res2) = step(s1, b1);
        if 0x80 <= b1 && b1 <= 0xBF {
            let cp = codepoint_width_2(b0, b1);
            assert(0x80 <= ((((b0 & 0x1F) as u32) << 6) | ((b1 & 0x3F) as u32))
                <= 0x7FF) by (bit_vector)
                requires
                    0xC2 <= b0 && b0 <= 0xDF && 0x80 <= b1 && b1 <= 0xBF,
            ;
            assert(0x80 <= cp <= 0x7FF);
            assert(is_scalar_value(cp));
            assert(s2 == s0);
            assert(res2 == Ok::<Seq<char>, UTF8EncodingError>(seq![(cp as char)]));
            lemma_utf8_machine_decodes(d2);
            match run_steps(step, s0, d2) {
                Some((s3, o3)) => {
                    assert(run_steps(step, s1, d1) == Some((s3, seq![(cp as char)] + o3)));
                    assert(run_steps(step, s0, bytes) == Some(
                        (s3, Seq::<char>::empty() + (seq![(cp as char)] + o3)),
                    ));
                    if s3.remain == 0 {
                        assert(vstd::utf8::is_leading_byte_width_2(b0));
                        assert(vstd::utf8::is_continuation_byte(b1));
                        assert(vstd::utf8::length_of_first_codepoint(bytes) == 2);
                        assert(vstd::utf8::decode_first_codepoint(bytes) == cp);
                        assert(vstd::utf8::valid_first_scalar(bytes));
                        assert(vstd::utf8::pop_first_scalar(bytes) =~= d2);
                        assert(valid_utf8(bytes));
                        assert(decode_utf8(bytes) == seq![(cp as char)] + decode_utf8(d2));
                        assert(Seq::<char>::empty() + (seq![(cp as char)] + o3)
                            == decode_utf8(bytes)) by {
                            assert(Seq::<char>::empty() + (seq![(cp as char)] + o3) =~= seq![(
                            cp as char)] + o3);
                        }
                    }
                },
                None => {
                    assert(run_steps(step, s1, d1) is None);
                    assert(run_steps(step, s0, bytes) is None);
                },
            }
        } else {
            assert(run_steps(step, s1, d1) is None);
            assert(run_steps(step, s0, bytes) is None);
        }
    }
}

/// The case of [`lemma_utf8_machine_decodes`] for a three-byte lead.
proof fn lemma_utf8_machine_decodes_w3(bytes: Seq<u8>)
    requires
        bytes.len() > 0,
        0xE0 <= bytes[0] && bytes[0] <= 0xEF,
    ensures
        match run_steps(utf8_machine(), utf8_init(), bytes) {
            Some((s, out)) => s.remain == 0 ==> valid_utf8(bytes) && out == decode_utf8(bytes),
            None => true,
        },
    decreases bytes.len(), 0int,
{
    let step = utf8_machine();
    let s0 = utf8_init();
    let b0 = bytes[0];
    let d1 = bytes.drop_first();
    let (s1, res1) = step(s0, b0);
    let low1: u8 = if b0 == 0xE0 {
        0xA0
    } else {
        0x80
    };
    assert(s1 == (UTF8Decoder {
        remain: 2,
        codepoint: leading_bits_width_3(b0) << 12,
        lower: low1,
    }));
    if d1.len() == 0 {
        assert(run_steps(step, s1, d1) == Some((s1, Seq::<char>::empty())));
        assert(run_steps(step, s0, bytes) == Some(
            (s1, Seq::<char>::empty() + Seq::<char>::empty()),
        ));
    } else {
        let b1 = d1[0];
        let d2 = d1.drop_first();
        let (s2, res2) = step(s1, b1);
        if low1 <= b1 && b1 <= 0xBF {
            assert(s2 == (UTF8Decoder {
                remain: 1,
                codepoint: (leading_bits_width_3(b0) << 12) | (continuation_bits(b1) << 6),
                lower: 0x80,
            }));
            if d2.len() == 0 {
                assert(run_steps(step, s2, d2) == Some((s2, Seq::<char>::empty())));
                assert(run_steps(step, s1, d1) == Some(
                    (s2, Seq::<char>::empty() + Seq::<char>::empty()),
                ));
                assert(run_steps(step, s0, bytes) == Some(
                    (s2, Seq::<char>::empty() + (Seq::<char>::empty() + Seq::<char>::empty())),
                ));
            } else {
                let b2 = d2[0];
                let d3 = d2.drop_first();
                let (s3, res3) = step(s2, b2);
                if 0x80 <= b2 && b2 <= 0xBF {
                    let cp = codepoint_width_3(b0, b1, b2);
                    assert(s3 == s0);
                    if is_scalar_value(cp) {
                        assert(res3 == Ok::<Seq<char>, UTF8EncodingError>(seq![(cp as char)]));
                        assert((((b0 & 0x0F) as u32) << 12) | (((b1 & 0x3F) as u32) << 6) | ((b2
                            & 0x3F) as u32) >= 0x800) by (bit_vector)
                            requires
                                0xE0 <= b0 && b0 <= 0xEF && 0x80 <= b1 && b1 <= 0xBF && (b0 == 0xE0
                                    ==> 0xA0 <= b1),
                        ;
                        assert(cp >= 0x800);
                        lemma_utf8_machine_decodes(d3);
                        match run_steps(step, s0, d3) {
                            Some((s4, o4)) => {
                                assert(run_steps(step, s2, d2) == Some(
                                    (s4, seq![(cp as char)] + o4),
                                ));
                                assert(run_steps(step, s1, d1) == Some(
                                    (s4, Seq::<char>::empty() + (seq![(cp as char)] + o4)),
                                ));
                                assert(run_steps(step, s0, bytes) == Some(
                                    (s4, Seq::<char>::empty() + (Seq::<char>::empty() + (seq![(
                                    cp as char)] + o4))),
                                ));
                                if s4.remain == 0 {
                                    assert(vstd::utf8::is_leading_byte_width_3(b0));
                                    assert(vstd::utf8::is_continuation_byte(b1));
                                    assert(vstd::utf8::is_continuation_byte(b2));
                                    assert(d1[1] == bytes[2]);
                                    assert(vstd::utf8::length_of_first_codepoint(bytes) == 3);
                                    assert(vstd::utf8::decode_first_codepoint(bytes) == cp);
                                    assert(vstd::utf8::valid_first_scalar(bytes));
                                    assert(vstd::utf8::pop_first_scalar(bytes) =~= d3);
                                    assert(valid_utf8(bytes));
                                    assert(decode_utf8(bytes) == seq![(cp as char)] + decode_utf8(
                                        d3,
                                    ));
                                    assert(Seq::<char>::empty() + (Seq::<char>::empty() + (seq![(
                                    cp as char)] + o4)) == decode_utf8(bytes)) by {
                                        assert(Seq::<char>::empty() + (Seq::<char>::empty() + (
                                        seq![(cp as char)] + o4)) =~= seq![(cp as char)] + o4);
                                    }
                                }
                            },
                            None => {
                                assert(run_steps(step, s2, d2) is None);
                                assert(run_steps(step, s1, d1) is None);
                                assert(run_steps(step, s0, bytes) is None);
                            },
                        }
                    } else {
                        assert(run_steps(step, s2, d2) is None);
                        assert(run_steps(step, s1, d1) is None);
                        assert(run_steps(step, s0, bytes) is None);
                    }
                } else {
                    assert(run_steps(step, s2, d2) is None);
                    assert(run_steps(step, s1, d1) is None);
                    assert(run_steps(step, s0, bytes) is None);
                }
            }
        } else {
            assert(run_steps(step, s1, d1) is None);
            assert(run_steps(step, s0, bytes) is None);
        }
    }
}

/// The case of [`lemma_utf8_machine_decodes`] for a four-byte lead.
#[verifier::rlimit(50)]
proof fn lemma_utf8_machine_decodes_w4(bytes: Seq<u8>)
    requires
        bytes.len() > 0,
        0xF0 <= bytes[0] && bytes[0] <= 0xF4,
    ensures
        match run_steps(utf8_machine(), utf8_init(), bytes) {
            Some((s, out)) => s.remain == 0 ==> valid_utf8(bytes) && out == decode_utf8(bytes),
            None => true,
        },
    decreases bytes.len(), 0int,
{
    let step = utf8_machine();
    let s0 = utf8_init();
    let b0 = bytes[0];
    let d1 = bytes.drop_first();
    let (s1, res1) = step(s0, b0);
    let low1: u8 = if b0 == 0xF0 {
        0x90
    } else {
        0x80
    };
    assert(s1 == (UTF8Decoder {
        remain: 3,
        codepoint: leading_bits_width_4(b0) << 18,
        lower: low1,
    }));
    if d1.len() == 0 {
        assert(run_steps(step, s1, d1) == Some((s1, Seq::<char>::empty())));
        assert(run_steps(step, s0, bytes) == Some(
            (s1, Seq::<char>::empty() + Seq::<char>::empty()),
        ));
    } else {
        let b1 = d1[0];
        let d2 = d1.drop_first();
        let (s2, res2) = step(s1, b1);
        if low1 <= b1 && b1 <= 0xBF {
            assert(s2 == (UTF8Decoder {
                remain: 2,
                codepoint: (leading_bits_width_4(b0) << 18) | (continuation_bits(b1) << 12),
                lower: 0x80,
            }));
            if d2.len() == 0 {
                assert(run_steps(step, s2, d2) == Some((s2, Seq::<char>::empty())));
                assert(run_steps(step, s1, d1) == Some(
                    (s2, Seq::<char>::empty() + Seq::<char>::empty()),
                ));
                assert(run_steps(step, s0, bytes) == Some(
                    (s2, Seq::<char>::empty() + (Seq::<char>::empty() + Seq::<char>::empty())),
                ));
            } else {
                let b2 = d2[0];
                let d3 = d2.drop_first();
                let (s3, res3) = step(s2, b2);
                if 0x80 <= b2 && b2 <= 0xBF {
                    assert(s3 == (UTF8Decoder {
                        remain: 1,
                        codepoint: (leading_bits_width_4(b0) << 18) | (continuation_bits(b1)
                            << 12) | (continuation_bits(b2) << 6),
                        lower: 0x80,
                    }));
                    if d3.len() == 0 {
                        assert(run_steps(step, s3, d3) == Some((s3, Seq::<char>::empty())));
                        assert(run_steps(step, s2, d2) == Some(
                            (s3, Seq::<char>::empty() + Seq::<char>::empty()),
                        ));
                        assert(run_steps(step, s1, d1) == Some(
                            (s3, Seq::<char>::empty() + (Seq::<char>::empty() + Seq::<
                                char,
                            >::empty())),
                        ));
                        assert(run_steps(step, s0, bytes) == Some(
                            (s3, Seq::<char>::empty() + (Seq::<char>::empty() + (Seq::<
                                char,
                            >::empty() + Seq::<char>::empty()))),
                        ));
                    } else {
                        let b3 = d3[0];
                        let d4 = d3.drop_first();
                        let (s4, res4) = step(s3, b3);
                        if 0x80 <= b3 && b3 <= 0xBF {
                            let cp = codepoint_width_4(b0, b1, b2, b3);
                            assert(s4 == s0);
                            if is_scalar_value(cp) {
                                assert(res4 == Ok::<Seq<char>, UTF8EncodingError>(
                                    seq![(cp as char)],
                                ));
                                assert((((b0 & 0x07) as u32) << 18) | (((b1 & 0x3F) as u32) << 12)
                                    | (((b2 & 0x3F) as u32) << 6) | ((b3 & 0x3F) as u32)
                                    >= 0x10000) by (bit_vector)
                                    requires
                                        0xF0 <= b0 && b0 <= 0xF4 && 0x80 <= b1 && b1 <= 0xBF && (b0
                                            == 0xF0 ==> 0x90 <= b1),
                                ;
                                assert(cp >= 0x10000);
                                lemma_utf8_machine_decodes(d4);
                                match run_steps(step, s0, d4) {
                                    Some((s5, o5)) => {
                                        assert(run_steps(step, s3, d3) == Some(
                                            (s5, seq![(cp as char)] + o5),
                                        ));
                                        assert(run_steps(step, s2, d2) == Some(
                                            (s5, Seq::<char>::empty() + (seq![(cp as char)] + o5)),
                                        ));
                                        assert(run_steps(step, s1, d1) == Some(
                                            (s5, Seq::<char>::empty() + (Seq::<char>::empty() + (
                                            seq![(cp as char)] + o5))),
                                        ));
                                        assert(run_steps(step, s0, bytes) == Some(
                                            (s5, Seq::<char>::empty() + (Seq::<char>::empty() + (
                                            Seq::<char>::empty() + (seq![(cp as char)] + o5)))),
                                        ));
                                        if s5.remain == 0 {
                                            assert(vstd::utf8::is_leading_byte_width_4(b0));
                                            assert(vstd::utf8::is_continuation_byte(b1));
                                            assert(vstd::utf8::is_continuation_byte(b2));
                                            assert(vstd::utf8::is_continuation_byte(b3));
                                            assert(d1[1] == bytes[2]);
                                            assert(d1[2] == bytes[3]);
                                            assert(vstd::utf8::length_of_first_codepoint(bytes)
                                                == 4);
                                            assert(vstd::utf8::decode_first_codepoint(bytes)
                                                == cp);
                                            assert(vstd::utf8::valid_first_scalar(bytes));
                                            assert(vstd::utf8::pop_first_scalar(bytes) =~= d4);
                                            assert(valid_utf8(bytes));
                                            assert(decode_utf8(bytes) == seq![(cp as char)]
                                                + decode_utf8(d4));
                                            assert(Seq::<char>::empty() + (Seq::<char>::empty() + (
                                            Seq::<char>::empty() + (seq![(cp as char)] + o5)))
                                                == decode_utf8(bytes)) by {
                                                assert(Seq::<char>::empty() + (Seq::<
                                                    char,
                                                >::empty() + (Seq::<char>::empty() + (seq![(
                                                cp as char)] + o5))) =~= seq![(cp as char)] + o5);
                                            }
                                        }
                                    },
                                    None => {
                                        assert(run_steps(step, s3, d3) is None);
                                        assert(run_steps(step, s2, d2) is None);
                                        assert(run_steps(step, s1, d1) is None);
                                        assert(run_steps(step, s0, bytes) is None);
                                    },
                                }
                            } else {
                                assert(run_steps(step, s3, d3) is None);
                                assert(run_steps(step, s2, d2) is None);
                                assert(run_steps(step, s1, d1) is None);
                                assert(run_steps(step, s0, bytes) is None);
                            }
                        } else {
                            assert(run_steps(step, s3, d3) is None);
                            assert(run_steps(step, s2, d2) is None);
                            assert(run_steps(step, s1, d1) is None);
                            assert(run_steps(step, s0, bytes) is None);
                        }
                    }
                } else {
                    assert(run_steps(step, s2, d2) is None);
                    assert(run_steps(step, s1, d1) is None);
                    assert(run_steps(step, s0, bytes) is None);
                }
            }
        } else {
            assert(run_steps(step, s1, d1) is None);
            assert(run_steps(step, s0, bytes) is None);
        }
    }
}


/// A byte sequence that is not valid UTF-8 is never consumed silently:
/// the machine reports a decoding error at some byte, or it is left in
/// the middle of a sequence, so that finalizing the decoder fails. In
/// particular an overlong or otherwise invalid encoding always produces a
/// decoding error, and a truncated trailing sequence always produces a
/// finalization error.
pub proof fn lemma_utf8_rejects_invalid(bytes: Seq<u8>)
    requires
        !valid_utf8(bytes),
    ensures
        match run_steps(utf8_machine(), utf8_init(), bytes) {
            Some((s, out)) => s.remain != 0,
            None => true,
        },
{
    lemma_utf8_machine_decodes(bytes);
}

/// Decoding a byte sequence with the UTF-8 machine and re-encoding the
/// characters it emitted yields the original bytes: decode-then-encode
/// round-trips on every byte sequence the decoder accepts.
pub proof fn lemma_utf8_round_trip(bytes: Seq<u8>)
    ensures
        match run_steps(utf8_machine(), utf8_init(), bytes) {
            Some((s, out)) => s.remain == 0 ==> encode_utf8(out) == bytes,
            None => true,
        },
{
    lemma_utf8_machine_decodes(bytes);
    match run_steps(utf8_machine(), utf8_init(), bytes) {
        Some((s, out)) => {
            if s.remain == 0 {
                vstd::utf8::decode_utf8_encode_utf8(bytes);
            }
        },
        None => {},
    }
}

/// The machine also accepts everything it should: consuming a valid
/// UTF-8 byte sequence from the empty state never errors, emits exactly
/// the sequence's decoding, and ends in the empty state again.
pub proof fn lemma_utf8_machine_complete(bytes: Seq<u8>)
    requires
        valid_utf8(bytes),
    ensures
        run_steps(utf8_machine(), utf8_init(), bytes) == Some((utf8_init(), decode_utf8(bytes))),
    decreases bytes.len(), 1int,
{
    let step = utf8_machine();
    let s0 = utf8_init();
    if bytes.len() == 0 {
        assert(decode_utf8(bytes) =~= Seq::<char>::empty());
    } else {
        let b0 = bytes[0];
        if vstd::utf8::is_leading_byte_width_1(b0) {
            let d1 = bytes.drop_first();
            assert(vstd::utf8::pop_first_scalar(bytes) =~= d1);
            lemma_utf8_machine_complete(d1);
            assert((b0 & 0x7F) == b0) by (bit_vector)
                requires
                    b0 <= 0x7F,
            ;
            assert(run_steps(step, s0, bytes) == Some(
                (s0, seq![(((b0 as u32)) as char)] + decode_utf8(d1)),
            ));
            assert(decode_utf8(bytes) == seq![(vstd::utf8::decode_first_scalar(bytes) as char)]
                + decode_utf8(d1));
        } else if vstd::utf8::is_leading_byte_width_2(b0) {
            lemma_utf8_machine_complete_w2(bytes);
        } else if vstd::utf8::is_leading_byte_width_3(b0) {
            lemma_utf8_machine_complete_w3(bytes);
        } else {
            lemma_utf8_machine_complete_w4(bytes);
        }
    }
}

/// The case of [`lemma_utf8_machine_complete`] for a two-byte lead.
proof fn lemma_utf8_machine_complete_w2(bytes: Seq<u8>)
    requires
        valid_utf8(bytes),
        bytes.len() > 0,
        vstd::utf8::is_leading_byte_width_2(bytes[0]),
    ensures
        run_steps(utf8_machine(), utf8_init(), bytes) == Some((utf8_init(), decode_utf8(bytes))),
    decreases bytes.len(), 0int,
{
    let step = utf8_machine();
    let s0 = utf8_init();
    let b0 = bytes[0];
    let d1 = bytes.drop_first();
    let b1 = bytes[1];
    let d2 = d1.drop_first();
    let cp = codepoint_width_2(b0, b1);
    assert(vstd::utf8::valid_first_scalar(bytes));
    assert(vstd::utf8::is_continuation_byte(b1));
    assert(cp >= 0x80);
    assert(0xC2 <= b0 && ((((b0 & 0x1F) as u32) << 6) | ((b1 & 0x3F) as u32))
        <= 0x7FF) by (bit_vector)
        requires
            0xC0 <= b0 && b0 <= 0xDF && 0x80 <= b1 && b1 <= 0xBF && ((((b0 & 0x1F) as u32) << 6) | (
            (b1 & 0x3F) as u32)) >= 0x80,
    ;
    assert(cp <= 0x7FF);
    assert(is_scalar_value(cp));
    let (s1, r1) = step(s0, b0);
    assert(s1 == (UTF8Decoder {
        remain: 1,
        codepoint: leading_bits_width_2(b0) << 6,
        lower: 0x80,
    }));
    let (s2, r2) = step(s1, b1);
    assert(s2 == s0);
    assert(r2 == Ok::<Seq<char>, UTF8EncodingError>(seq![(cp as char)]));
    assert(vstd::utf8::pop_first_scalar(bytes) =~= d2);
    assert(d1[0] == b1);
    lemma_utf8_machine_complete(d2);
    assert(run_steps(step, s1, d1) == Some((s0, seq![(cp as char)] + decode_utf8(d2))));
    assert(run_steps(step, s0, bytes) == Some(
        (s0, Seq::<char>::empty() + (seq![(cp as char)] + decode_utf8(d2))),
    ));
    assert(decode_utf8(bytes) == seq![(cp as char)] + decode_utf8(d2));
    assert(Seq::<char>::empty() + (seq![(cp as char)] + decode_utf8(d2)) =~= seq![(cp as char)]
        + decode_utf8(d2));
}

/// The case of [`lemma_utf8_machine_complete`] for a three-byte lead.
proof fn lemma_utf8_machine_complete_w3(bytes: Seq<u8>)
    requires
        valid_utf8(bytes),
        bytes.len() > 0,
        vstd::utf8::is_leading_byte_width_3(bytes[0]),
    ensures
        run_steps(utf8_machine(), utf8_init(), bytes) == Some((utf8_init(), decode_utf8(bytes))),
    decreases bytes.len(), 0int,
{
    let step = utf8_machine();
    let s0 = utf8_init();
    let b0 = bytes[0];
    let d1 = bytes.drop_first();
    let b1 = bytes[1];
    let d2 = d1.drop_first();
    let b2 = bytes[2];
    let d3 = d2.drop_first();
    let cp = codepoint_width_3(b0, b1, b2);
    assert(vstd::utf8::valid_first_scalar(bytes));
    assert(vstd::utf8::is_continuation_byte(b1));
    assert(vstd::utf8::is_continuation_byte(b2));
    assert(cp >= 0x800);
    assert(vstd::utf8::not_surrogate(cp));
    assert((b0 != 0xE0 || 0xA0 <= b1) && ((((b0 & 0x0F) as u32) << 12) | (((b1 & 0x3F) as u32)
        << 6) | ((b2 & 0x3F) as u32)) <= 0xFFFF) by (bit_vector)
        requires
            0xE0 <= b0 && b0 <= 0xEF && 0x80 <= b1 && b1 <= 0xBF && 0x80 <= b2 && b2 <= 0xBF && ((((
            b0 & 0x0F) as u32) << 12) | (((b1 & 0x3F) as u32) << 6) | ((b2 & 0x3F) as u32))
                >= 0x800,
    ;
    assert(cp <= 0xFFFF);
    assert(is_scalar_value(cp));
    let low1: u8 = if b0 == 0xE0 {
        0xA0
    } else {
        0x80
    };
    let (s1, r1) = step(s0, b0);
    assert(s1 == (UTF8Decoder {
        remain: 2,
        codepoint: leading_bits_width_3(b0) << 12,
        lower: low1,
    }));
    assert(d1[0] == b1);
    let (s2, r2) = step(s1, b1);
    assert(s2 == (UTF8Decoder {
        remain: 1,
        codepoint: (leading_bits_width_3(b0) << 12) | (continuation_bits(b1) << 6),
        lower: 0x80,
    }));
    assert(d2[0] == b2);
    let (s3, r3) = step(s2, b2);
    assert(s3 == s0);
    assert(r3 == Ok::<Seq<char>, UTF8EncodingError>(seq![(cp as char)]));
    assert(vstd::utf8::pop_first_scalar(bytes) =~= d3);
    lemma_utf8_machine_complete(d3);
    assert(run_steps(step, s2, d2) == Some((s0, seq![(cp as char)] + decode_utf8(d3))));
    assert(run_steps(step, s1, d1) == Some(
        (s0, Seq::<char>::empty() + (seq![(cp as char)] + decode_utf8(d3))),
    ));
    assert(run_steps(step, s0, bytes) == Some(
        (s0, Seq::<char>::empty() + (Seq::<char>::empty() + (seq![(cp as char)] + decode_utf8(
            d3,
        )))),
    ));
    assert(decode_utf8(bytes) == seq![(cp as char)] + decode_utf8(d3));
    assert(Seq::<char>::empty() + (Seq::<char>::empty() + (seq![(cp as char)] + decode_utf8(d3)))
        =~= seq![(cp as char)] + decode_utf8(d3));
}

/// The case of [`lemma_utf8_machine_complete`] for a four-byte lead.
#[verifier::rlimit(50)]
proof fn lemma_utf8_machine_complete_w4(bytes: Seq<u8>)
    requires
        valid_utf8(bytes),
        bytes.len() > 0,
        vstd::utf8::is_leading_byte_width_4(bytes[0]),
        !vstd::utf8::is_leading_byte_width_1(bytes[0]),
        !vstd::utf8::is_leading_byte_width_2(bytes[0]),
        !vstd::utf8::is_leading_byte_width_3(bytes[0]),
    ensures
        run_steps(utf8_machine(), utf8_init(), bytes) == Some((utf8_init(), decode_utf8(bytes))),
    decreases bytes.len(), 0int,
{
    let step = utf8_machine();
    let s0 = utf8_init();
    let b0 = bytes[0];
    let d1 = bytes.drop_first();
    let b1 = bytes[1];
    let d2 = d1.drop_first();
    let b2 = bytes[2];
    let d3 = d2.drop_first();
    let b3 = bytes[3];
    let d4 = d3.drop_first();
    let cp = codepoint_width_4(b0, b1, b2, b3);
    assert(vstd::utf8::valid_first_scalar(bytes));
    assert(vstd::utf8::is_continuation_byte(b1));
    assert(vstd::utf8::is_continuation_byte(b2));
    assert(vstd::utf8::is_continuation_byte(b3));
    assert(0x10000 <= cp <= 0x10FFFF);
    assert(b0 <= 0xF4 && (b0 != 0xF0 || 0x90 <= b1)) by (bit_vector)
        requires
            0xF0 <= b0 && b0 <= 0xF7 && 0x80 <= b1 && b1 <= 0xBF && 0x80 <= b2 && b2 <= 0xBF && 0x80
                <= b3 && b3 <= 0xBF && 0x10000 <= ((((b0 & 0x07) as u32) << 18) | (((b1
                & 0x3F) as u32) << 12) | (((b2 & 0x3F) as u32) << 6) | ((b3 & 0x3F) as u32))
                <= 0x10FFFF,
    ;
    assert(is_scalar_value(cp));
    let low1: u8 = if b0 == 0xF0 {
        0x90
    } else {
        0x80
    };
    let (s1, r1) = step(s0, b0);
    assert(s1 == (UTF8Decoder {
        remain: 3,
        codepoint: leading_bits_width_4(b0) << 18,
        lower: low1,
    }));
    assert(d1[0] == b1);
    let (s2, r2) = step(s1, b1);
    assert(s2 == (UTF8Decoder {
        remain: 2,
        codepoint: (leading_bits_width_4(b0) << 18) | (continuation_bits(b1) << 12),
        lower: 0x80,
    }));
    assert(d2[0] == b2);
    let (s3, r3) = step(s2, b2);
    assert(s3 == (UTF8Decoder {
        remain: 1,
        codepoint: (leading_bits_width_4(b0) << 18) | (continuation_bits(b1) << 12) | (
        continuation_bits(b2) << 6),
        lower: 0x80,
    }));
    assert(d3[0] == b3);
    let (s4, r4) = step(s3, b3);
    assert(s4 == s0);
    assert(r4 == Ok::<Seq<char>, UTF8EncodingError>(seq![(cp as char)]));
    assert(vstd::utf8::pop_first_scalar(bytes) =~= d4);
    lemma_utf8_machine_complete(d4);
    assert(run_steps(step, s3, d3) == Some((s0, seq![(cp as char)] + decode_utf8(d4))));
    assert(run_steps(step, s2, d2) == Some(
        (s0, Seq::<char>::empty() + (seq![(cp as char)] + decode_utf8(d4))),
    ));
    assert(run_steps(step, s1, d1) == Some(
        (s0, Seq::<char>::empty() + (Seq::<char>::empty() + (seq![(cp as char)] + decode_utf8(
            d4,
        )))),
    ));
    assert(run_steps(step, s0, bytes) == Some(
        (s0, Seq::<char>::empty() + (Seq::<char>::empty() + (Seq::<char>::empty() + (seq![(
        cp as char)] + decode_utf8(d4))))),
    ));
    assert(decode_utf8(bytes) == seq![(cp as char)] + decode_utf8(d4));
    assert(Seq::<char>::empty() + (Seq::<char>::empty() + (Seq::<char>::empty() + (seq![(
    cp as char)] + decode_utf8(d4)))) =~= seq![(cp as char)] + decode_utf8(d4));
}


} // verus!
