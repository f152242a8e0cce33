//! A stable external representation for the values that outlive a session:
//! movement intents and durations flatten to a short sequence of words that
//! preserves the variant tag and its fields, and decoding restores the value
//! losslessly.

use vstd::prelude::*;
use crate::duration::Duration;
use crate::movement::LocationVec;
use crate::movement::MoveIntent;

verus! {

/// The word sequence a movement intent flattens to: a variant tag, the two
/// vector components, and the speed.
pub open spec fn spec_encode_intent(m: MoveIntent) -> Seq<i64> {
    match m {
        MoveIntent::Vector(d, s) => seq![0i64, d.x, d.y, s],
        MoveIntent::Position(t, s) => seq![1i64, t.x, t.y, s],
    }
}

/// The movement intent a word sequence decodes to, `None` for any sequence
/// that is not the encoding of one.
pub open spec fn spec_decode_intent(w: Seq<i64>) -> Option<MoveIntent> {
    if w.len() == 4 && w[0] == 0i64 {
        Some(MoveIntent::Vector(LocationVec { x: w[1], y: w[2] }, w[3]))
    } else if w.len() == 4 && w[0] == 1i64 {
        Some(MoveIntent::Position(LocationVec { x: w[1], y: w[2] }, w[3]))
    } else {
        None
    }
}

/// Serializes a movement intent.
pub fn encode_intent(m: &MoveIntent) -> (r: Vec<i64>)
    ensures
        r@ == spec_encode_intent(*m),
{
    let mut out: Vec<i64> = Vec::new();
    match *m {
        MoveIntent::Vector(d, s) => {
            out.push(0);
            out.push(d.x);
            out.push(d.y);
            out.push(s);
        },
        MoveIntent::Position(t, s) => {
            out.push(1);
            out.push(t.x);
            out.push(t.y);
            out.push(s);
        },
    }
    assert(out@ =~= spec_encode_intent(*m));
    out
}

/// Deserializes a movement intent.
pub fn decode_intent(words: &Vec<i64>) -> (r: Option<MoveIntent>)
    ensures
        r == spec_decode_intent(words@),
{
    if words.len() != 4 {
        return None;
    }
    let tag = words[0];
    if tag == 0 {
        Some(MoveIntent::Vector(LocationVec { x: words[1], y: words[2] }, words[3]))
    } else if tag == 1 {
        Some(MoveIntent::Position(LocationVec { x: words[1], y: words[2] }, words[3]))
    } else {
        None
    }
}

/// Serializing then deserializing any movement intent yields it back.
pub proof fn lemma_intent_round_trip(m: MoveIntent)
    ensures
        spec_decode_intent(spec_encode_intent(m)) == Some(m),
{
}

/// The word sequence a duration flattens to: a variant tag and the
/// remaining count (zero for `Infinite`).
pub open spec fn spec_encode_duration(d: Duration) -> Seq<i64> {
    match d {
        Duration::Infinite => seq![0i64, 0i64],
        Duration::Steps(n) => seq![1i64, n as i64],
        Duration::Updates(n) => seq![2i64, n as i64],
    }
}

/// The duration a word sequence decodes to, `None` for any sequence that is
/// not the encoding of one.
pub open spec fn spec_decode_duration(w: Seq<i64>) -> Option<Duration> {
    if w.len() == 2 && w[0] == 0i64 && w[1] == 0i64 {
        Some(Duration::Infinite)
    } else if w.len() == 2 && w[0] == 1i64 && i32::MIN <= w[1] <= i32::MAX {
        Some(Duration::Steps(w[1] as i32))
    } else if w.len() == 2 && w[0] == 2i64 && i32::MIN <= w[1] <= i32::MAX {
        Some(Duration::Updates(w[1] as i32))
    } else {
        None
    }
}

/// Serializes a duration.
pub fn encode_duration(d: &Duration) -> (r: Vec<i64>)
    ensures
        r@ == spec_encode_duration(*d),
{
    let mut out: Vec<i64> = Vec::new();
    match *d {
        Duration::Infinite => {
            out.push(0);
            out.push(0);
        },
        Duration::Steps(n) => {
            out.push(1);
            out.push(n as i64);
        },
        Duration::Updates(n) => {
            out.push(2);
            out.push(n as i64);
        },
    }
    assert(out@ =~= spec_encode_duration(*d));
    out
}

/// Deserializes a duration.
pub fn decode_duration(words: &Vec<i64>) -> (r: Option<Duration>)
    ensures
        r == spec_decode_duration(words@),
{
    if words.len() != 2 {
        return None;
    }
    let tag = words[0];
    let val = words[1];
    if tag == 0 && val == 0 {
        Some(Duration::Infinite)
    } else if tag == 1 && i32::MIN as i64 <= val && val <= i32::MAX as i64 {
        Some(Duration::Steps(val as i32))
    } else if tag == 2 && i32::MIN as i64 <= val && val <= i32::MAX as i64 {
        Some(Duration::Updates(val as i32))
    } else {
        None
    }
}

/// Serializing then deserializing any duration yields it back.
pub proof fn lemma_duration_round_trip(d: Duration)
    ensures
        spec_decode_duration(spec_encode_duration(d)) == Some(d),
{
}

} // verus!
