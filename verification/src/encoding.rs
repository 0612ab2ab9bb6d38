//! Character-set transcoders and the specifications they are verified
//! against.
//!
//! Each decoder in the submodules is a small state machine that consumes one
//! code unit per call. The machine itself is written down as a spec step
//! function, the executable `convert` method is proved to implement exactly
//! one step, and [`run_steps`] lifts a step function to whole input
//! sequences so that round-trip laws can be stated and proved.

pub mod ascii;
pub mod utf16;
pub mod utf32;
pub mod utf8;

use vstd::prelude::*;

verus! {

/// True when `v` is a Unicode scalar value: a code point no greater than
/// 0x10FFFF that is not a surrogate. These are exactly the values a `char`
/// can hold.
pub open spec fn is_scalar_value(v: u32) -> bool {
    v <= 0x10FFFF && !(0xD800 <= v && v <= 0xDFFF)
}

/// Relies on `char::from_u32`: it returns the character with scalar value
/// `v`, or `None` when `v` is a surrogate code point or above 0x10FFFF.
pub assume_specification[ char::from_u32 ](v: u32) -> (r: Option<char>)
    ensures
        r == (if is_scalar_value(v) {
            Some(v as char)
        } else {
            None::<char>
        }),
;

/// The result of one step of a decoder state machine: the successor state,
/// and either the outputs the step emits or the error it reports.
pub type Step<S, O, E> = (S, Result<Seq<O>, E>);

/// The conversion relation of a decoder whose behaviour is the step `st`:
/// the converter moves to the step's successor state, and either the
/// step's outputs are appended and counted in the result, or the step's
/// error is returned with nothing appended.
pub open spec fn step_rel<S, O, E>(st: Step<S, O, E>, post: S, out: Seq<O>, r: Result<
    usize,
    E,
>) -> bool {
    let (s2, res) = st;
    &&& post == s2
    &&& match res {
        Ok(o) => out == o && r == Ok::<usize, E>(o.len() as usize),
        Err(e) => out.len() == 0 && r == Err::<usize, E>(e),
    }
}

/// Runs a decoder state machine over a whole input sequence: `None` when
/// some step reports an error, otherwise the final state and the
/// concatenation of all emitted outputs.
pub open spec fn run_steps<S, I, O, E>(
    step: spec_fn(S, I) -> Step<S, O, E>,
    s: S,
    input: Seq<I>,
) -> Option<(S, Seq<O>)>
    decreases input.len(),
{
    if input.len() == 0 {
        Some((s, Seq::empty()))
    } else {
        let (s1, res) = step(s, input[0]);
        match res {
            Ok(out) => match run_steps(step, s1, input.drop_first()) {
                Some((s2, rest)) => Some((s2, out + rest)),
                None => None,
            },
            Err(_) => None,
        }
    }
}

/// Running a machine over `a + b` is running it over `a` and then, from the
/// state it reached, over `b`.
pub proof fn lemma_run_steps_append<S, I, O, E>(
    step: spec_fn(S, I) -> Step<S, O, E>,
    s: S,
    a: Seq<I>,
    b: Seq<I>,
)
    ensures
        run_steps(step, s, a + b) == match run_steps(step, s, a) {
            Some((s1, out1)) => match run_steps(step, s1, b) {
                Some((s2, out2)) => Some((s2, out1 + out2)),
                None => None::<(S, Seq<O>)>,
            },
            None => None::<(S, Seq<O>)>,
        },
    decreases a.len(),
{
    if a.len() == 0 {
        assert(a + b =~= b);
        match run_steps(step, s, b) {
            Some((s2, out2)) => {
                assert(Seq::<O>::empty() + out2 =~= out2);
            },
            None => {},
        }
    } else {
        let (s1, res) = step(s, a[0]);
        assert((a + b).drop_first() =~= a.drop_first() + b);
        match res {
            Ok(out) => {
                lemma_run_steps_append(step, s1, a.drop_first(), b);
                match run_steps(step, s1, a.drop_first() + b) {
                    Some((s2, rest)) => {
                        match run_steps(step, s1, a.drop_first()) {
                            Some((sm, outm)) => match run_steps(step, sm, b) {
                                Some((s3, out3)) => {
                                    assert(out + (outm + out3) =~= (out + outm) + out3);
                                },
                                None => {},
                            },
                            None => {},
                        }
                    },
                    None => {},
                }
            },
            Err(_) => {},
        }
    }
}

} // verus!
