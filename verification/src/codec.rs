//! Codec for the persisted template file: one user's ordered template
//! sequence as bytes, written whole on every save and read back whole on
//! load, with the round-trip proved lossless.
//!
//! The layout is little-endian and length-prefixed: a count of templates,
//! then per template its id, its enrollment time (a sign byte and a
//! magnitude), its label as a count of characters followed by one 64-bit
//! scalar value per character, and its embedding as a count followed by
//! one 64-bit word per component.

use vstd::prelude::*;
use vstd::bytes::{
    lemma_auto_spec_u64_to_from_le_bytes, spec_u64_from_le_bytes, spec_u64_to_le_bytes,
    u64_from_le_bytes, u64_to_le_bytes,
};
use vstd::slice::slice_subrange;
use vstd::string::StrSliceExecFns;
use vstd::utf8::{char_is_scalar, char_u32_cast, is_scalar};
use crate::ext;
use crate::store::{Model, ModelView};

verus! {

/// The persisted template data could not be read back: it does not spell
/// a template sequence in the store's layout.
#[derive(Clone, Copy, PartialEq, Eq, Structural, Debug)]
pub enum StorageError {
    Malformed,
}

// ---------------------------------------------------------------------------
// The layout, as spec functions: encoding ...
// ---------------------------------------------------------------------------

/// The enrollment time: a sign byte, then the magnitude. A non-negative
/// time t is (0, t); a negative one is (1, -(t + 1)), so every value of
/// the type has exactly one spelling.
pub open spec fn spec_enc_time(t: i64) -> Seq<u8> {
    if t >= 0 {
        seq![0u8] + spec_u64_to_le_bytes(t as u64)
    } else {
        seq![1u8] + spec_u64_to_le_bytes((-(t + 1)) as u64)
    }
}

/// The embedding words, each as eight little-endian bytes.
pub open spec fn spec_enc_u64s(xs: Seq<u64>) -> Seq<u8>
    decreases xs.len(),
{
    if xs.len() == 0 {
        Seq::empty()
    } else {
        spec_u64_to_le_bytes(xs[0]) + spec_enc_u64s(xs.drop_first())
    }
}

/// The label characters, each as its Unicode scalar value in eight
/// little-endian bytes.
pub open spec fn spec_enc_chars(cs: Seq<char>) -> Seq<u8>
    decreases cs.len(),
{
    if cs.len() == 0 {
        Seq::empty()
    } else {
        spec_u64_to_le_bytes((cs[0] as u32) as u64) + spec_enc_chars(cs.drop_first())
    }
}

/// One template record: id, time, label (count, then characters),
/// embedding (count, then words).
pub open spec fn spec_enc_model(m: ModelView) -> Seq<u8> {
    spec_u64_to_le_bytes(m.id as u64) + spec_enc_time(m.time) + spec_u64_to_le_bytes(
        m.label.len() as u64,
    ) + spec_enc_chars(m.label) + spec_u64_to_le_bytes(m.data.len() as u64) + spec_enc_u64s(m.data)
}

/// The records, in store order.
pub open spec fn spec_enc_models(ms: Seq<ModelView>) -> Seq<u8>
    decreases ms.len(),
{
    if ms.len() == 0 {
        Seq::empty()
    } else {
        spec_enc_model(ms[0]) + spec_enc_models(ms.drop_first())
    }
}

/// The whole file: the count of templates, then the records.
pub open spec fn spec_encode(ms: Seq<ModelView>) -> Seq<u8> {
    spec_u64_to_le_bytes(ms.len() as u64) + spec_enc_models(ms)
}

// ---------------------------------------------------------------------------
// ... and decoding. Each reader consumes a prefix and returns the value
// with the remaining suffix, or nothing when the bytes do not fit the
// layout.
// ---------------------------------------------------------------------------

/// Reads one 64-bit word.
pub open spec fn spec_dec_u64(b: Seq<u8>) -> Option<(u64, Seq<u8>)> {
    if b.len() >= 8 {
        Some((spec_u64_from_le_bytes(b.take(8)), b.skip(8)))
    } else {
        None
    }
}

/// Reads a time: sign byte, then magnitude, accepting only the one
/// spelling each value has.
pub open spec fn spec_dec_time(b: Seq<u8>) -> Option<(i64, Seq<u8>)> {
    if b.len() < 1 {
        None
    } else {
        match spec_dec_u64(b.drop_first()) {
            Some((m, rest)) => if b[0] == 0 && m <= i64::MAX as u64 {
                Some((m as i64, rest))
            } else if b[0] == 1 && m <= i64::MAX as u64 {
                Some(((-(m as int) - 1) as i64, rest))
            } else {
                None
            },
            None => None,
        }
    }
}

/// Reads n embedding words.
pub open spec fn spec_dec_u64s(b: Seq<u8>, n: nat) -> Option<(Seq<u64>, Seq<u8>)>
    decreases n,
{
    if n == 0 {
        Some((Seq::empty(), b))
    } else {
        match spec_dec_u64(b) {
            Some((x, rest)) => match spec_dec_u64s(rest, (n - 1) as nat) {
                Some((xs, rest2)) => Some((seq![x] + xs, rest2)),
                None => None,
            },
            None => None,
        }
    }
}

/// Reads n label characters, each a word holding a Unicode scalar value.
pub open spec fn spec_dec_chars(b: Seq<u8>, n: nat) -> Option<(Seq<char>, Seq<u8>)>
    decreases n,
{
    if n == 0 {
        Some((Seq::empty(), b))
    } else {
        match spec_dec_u64(b) {
            Some((v, rest)) => if v <= u32::MAX as u64 && is_scalar(v as u32) {
                match spec_dec_chars(rest, (n - 1) as nat) {
                    Some((cs, rest2)) => Some((seq![(v as u32) as char] + cs, rest2)),
                    None => None,
                }
            } else {
                None
            },
            None => None,
        }
    }
}

/// Reads one template record.
pub open spec fn spec_dec_model(b: Seq<u8>) -> Option<(ModelView, Seq<u8>)> {
    match spec_dec_u64(b) {
        Some((id, b1)) => if id <= usize::MAX as u64 {
            match spec_dec_time(b1) {
                Some((time, b2)) => match spec_dec_u64(b2) {
                    Some((nlabel, b3)) => match spec_dec_chars(b3, nlabel as nat) {
                        Some((label, b4)) => match spec_dec_u64(b4) {
                            Some((ndata, b5)) => match spec_dec_u64s(b5, ndata as nat) {
                                Some((data, b6)) => Some(
                                    (ModelView { data, label, id: id as usize, time }, b6),
                                ),
                                None => None,
                            },
                            None => None,
                        },
                        None => None,
                    },
                    None => None,
                },
                None => None,
            }
        } else {
            None
        },
        None => None,
    }
}

/// Reads n template records.
pub open spec fn spec_dec_models(b: Seq<u8>, n: nat) -> Option<(Seq<ModelView>, Seq<u8>)>
    decreases n,
{
    if n == 0 {
        Some((Seq::empty(), b))
    } else {
        match spec_dec_model(b) {
            Some((m, rest)) => match spec_dec_models(rest, (n - 1) as nat) {
                Some((ms, rest2)) => Some((seq![m] + ms, rest2)),
                None => None,
            },
            None => None,
        }
    }
}

/// The whole file: the count, then exactly that many records and nothing
/// after them.
pub open spec fn spec_decode(b: Seq<u8>) -> Option<Seq<ModelView>> {
    match spec_dec_u64(b) {
        Some((n, rest)) => match spec_dec_models(rest, n as nat) {
            Some((ms, rest2)) => if rest2.len() == 0 {
                Some(ms)
            } else {
                None
            },
            None => None,
        },
        None => None,
    }
}

/// The bounds under which a template view can be spelled in the layout at
/// all; every template actually held in a store satisfies them.
pub open spec fn wf_model_view(m: ModelView) -> bool {
    m.label.len() <= u64::MAX && m.data.len() <= u64::MAX
}

// ---------------------------------------------------------------------------
// Round trip: decoding inverts encoding.
// ---------------------------------------------------------------------------

proof fn lemma_dec_enc_u64(x: u64, rest: Seq<u8>)
    ensures
        spec_dec_u64(spec_u64_to_le_bytes(x) + rest) == Some((x, rest)),
{
    lemma_auto_spec_u64_to_from_le_bytes();
    let b = spec_u64_to_le_bytes(x) + rest;
    assert(b.take(8) =~= spec_u64_to_le_bytes(x));
    assert(b.skip(8) =~= rest);
}

proof fn lemma_dec_enc_time(t: i64, rest: Seq<u8>)
    ensures
        spec_dec_time(spec_enc_time(t) + rest) == Some((t, rest)),
{
    let b = spec_enc_time(t) + rest;
    if t >= 0 {
        let m = t as u64;
        assert(b.drop_first() =~= spec_u64_to_le_bytes(m) + rest);
        lemma_dec_enc_u64(m, rest);
        assert(b[0] == 0);
        assert(m <= i64::MAX as u64);
        assert(m as i64 == t);
    } else {
        let m = (-(t + 1)) as u64;
        assert(b.drop_first() =~= spec_u64_to_le_bytes(m) + rest);
        lemma_dec_enc_u64(m, rest);
        assert(b[0] == 1);
        assert(m <= i64::MAX as u64);
        assert((-(m as int) - 1) as i64 == t);
    }
}

proof fn lemma_dec_enc_u64s(xs: Seq<u64>, rest: Seq<u8>)
    ensures
        spec_dec_u64s(spec_enc_u64s(xs) + rest, xs.len()) == Some((xs, rest)),
    decreases xs.len(),
{
    if xs.len() == 0 {
        assert(spec_enc_u64s(xs) + rest =~= rest);
        assert(xs =~= Seq::<u64>::empty());
    } else {
        let tail = xs.drop_first();
        assert(spec_enc_u64s(xs) + rest =~= spec_u64_to_le_bytes(xs[0]) + (spec_enc_u64s(tail)
            + rest));
        lemma_dec_enc_u64(xs[0], spec_enc_u64s(tail) + rest);
        lemma_dec_enc_u64s(tail, rest);
        assert(seq![xs[0]] + tail =~= xs);
    }
}

proof fn lemma_dec_enc_chars(cs: Seq<char>, rest: Seq<u8>)
    ensures
        spec_dec_chars(spec_enc_chars(cs) + rest, cs.len()) == Some((cs, rest)),
    decreases cs.len(),
{
    if cs.len() == 0 {
        assert(spec_enc_chars(cs) + rest =~= rest);
        assert(cs =~= Seq::<char>::empty());
    } else {
        let c = cs[0];
        let v = (c as u32) as u64;
        let tail = cs.drop_first();
        assert(spec_enc_chars(cs) + rest =~= spec_u64_to_le_bytes(v) + (spec_enc_chars(tail)
            + rest));
        lemma_dec_enc_u64(v, spec_enc_chars(tail) + rest);
        char_is_scalar(c);
        assert(v <= u32::MAX as u64);
        assert(v as u32 == c as u32);
        assert(is_scalar(v as u32));
        char_u32_cast(c, v as u32);
        assert((v as u32) as char == c);
        lemma_dec_enc_chars(tail, rest);
        assert(seq![c] + tail =~= cs);
    }
}

proof fn lemma_dec_enc_model(m: ModelView, rest: Seq<u8>)
    requires
        wf_model_view(m),
    ensures
        spec_dec_model(spec_enc_model(m) + rest) == Some((m, rest)),
{
    let e_id = spec_u64_to_le_bytes(m.id as u64);
    let e_time = spec_enc_time(m.time);
    let e_nlabel = spec_u64_to_le_bytes(m.label.len() as u64);
    let e_label = spec_enc_chars(m.label);
    let e_ndata = spec_u64_to_le_bytes(m.data.len() as u64);
    let e_data = spec_enc_u64s(m.data);
    let b = spec_enc_model(m) + rest;
    let r5 = e_data + rest;
    let r4 = e_ndata + r5;
    let r3 = e_label + r4;
    let r2 = e_nlabel + r3;
    let r1 = e_time + r2;
    assert(b =~= e_id + r1);
    lemma_dec_enc_u64(m.id as u64, r1);
    assert(m.id as u64 <= usize::MAX as u64);
    lemma_dec_enc_time(m.time, r2);
    lemma_dec_enc_u64(m.label.len() as u64, r3);
    lemma_dec_enc_chars(m.label, r4);
    assert((m.label.len() as u64) as nat == m.label.len());
    lemma_dec_enc_u64(m.data.len() as u64, r5);
    lemma_dec_enc_u64s(m.data, rest);
    assert((m.data.len() as u64) as nat == m.data.len());
    assert((m.id as u64) as usize == m.id);
    assert(ModelView {
        data: m.data,
        label: m.label,
        id: (m.id as u64) as usize,
        time: m.time,
    } == m);
}

proof fn lemma_dec_enc_models(ms: Seq<ModelView>, rest: Seq<u8>)
    requires
        forall|i: int| 0 <= i < ms.len() ==> wf_model_view(#[trigger] ms[i]),
    ensures
        spec_dec_models(spec_enc_models(ms) + rest, ms.len()) == Some((ms, rest)),
    decreases ms.len(),
{
    if ms.len() == 0 {
        assert(spec_enc_models(ms) + rest =~= rest);
        assert(ms =~= Seq::<ModelView>::empty());
    } else {
        let tail = ms.drop_first();
        assert(spec_enc_models(ms) + rest =~= spec_enc_model(ms[0]) + (spec_enc_models(tail)
            + rest));
        lemma_dec_enc_model(ms[0], spec_enc_models(tail) + rest);
        assert(forall|i: int| 0 <= i < tail.len() ==> wf_model_view(#[trigger] tail[i]));
        lemma_dec_enc_models(tail, rest);
        assert(seq![ms[0]] + tail =~= ms);
    }
}

/// Store round trip: a template sequence written by the encoder is read
/// back by the decoder as exactly the same ordered sequence — same
/// embedding, label, id and time for every template. Persistence is
/// lossless.
pub proof fn lemma_store_round_trip(ms: Seq<ModelView>)
    requires
        ms.len() <= u64::MAX,
        forall|i: int| 0 <= i < ms.len() ==> wf_model_view(#[trigger] ms[i]),
    ensures
        spec_decode(spec_encode(ms)) == Some(ms),
{
    let b = spec_encode(ms);
    assert(b =~= spec_u64_to_le_bytes(ms.len() as u64) + spec_enc_models(ms));
    lemma_dec_enc_u64(ms.len() as u64, spec_enc_models(ms));
    assert(spec_enc_models(ms) =~= spec_enc_models(ms) + Seq::<u8>::empty());
    lemma_dec_enc_models(ms, Seq::<u8>::empty());
    assert((ms.len() as u64) as nat == ms.len());
}

// ---------------------------------------------------------------------------
// Soundness: the decoder accepts only the encoder's spelling.
// ---------------------------------------------------------------------------

proof fn lemma_enc_of_dec_u64(b: Seq<u8>, x: u64, r: Seq<u8>)
    requires
        spec_dec_u64(b) == Some((x, r)),
    ensures
        b == spec_u64_to_le_bytes(x) + r,
{
    lemma_auto_spec_u64_to_from_le_bytes();
    assert(spec_u64_to_le_bytes(spec_u64_from_le_bytes(b.take(8))) == b.take(8));
    assert(b =~= b.take(8) + b.skip(8));
}

proof fn lemma_enc_of_dec_time(b: Seq<u8>, t: i64, r: Seq<u8>)
    requires
        spec_dec_time(b) == Some((t, r)),
    ensures
        b == spec_enc_time(t) + r,
{
    let bd = b.drop_first();
    match spec_dec_u64(bd) {
        Some((m, r2)) => {
            lemma_enc_of_dec_u64(bd, m, r2);
            if b[0] == 0 {
                assert(t == m as i64);
                assert(t as u64 == m);
            } else {
                assert(t == (-(m as int) - 1) as i64);
                assert(t < 0);
                assert((-(t + 1)) as u64 == m);
            }
            assert(b =~= seq![b[0]] + bd);
            assert(b =~= spec_enc_time(t) + r);
        },
        None => {
            assert(false);
        },
    }
}

proof fn lemma_enc_of_dec_u64s(b: Seq<u8>, n: nat, xs: Seq<u64>, r: Seq<u8>)
    requires
        spec_dec_u64s(b, n) == Some((xs, r)),
    ensures
        b == spec_enc_u64s(xs) + r,
        xs.len() == n,
    decreases n,
{
    if n == 0 {
        assert(xs =~= Seq::<u64>::empty());
        assert(b =~= spec_enc_u64s(xs) + r);
    } else {
        match spec_dec_u64(b) {
            Some((x0, b1)) => {
                match spec_dec_u64s(b1, (n - 1) as nat) {
                    Some((xs2, r2)) => {
                        lemma_enc_of_dec_u64(b, x0, b1);
                        lemma_enc_of_dec_u64s(b1, (n - 1) as nat, xs2, r2);
                        assert(xs == seq![x0] + xs2);
                        assert(xs[0] == x0);
                        assert(xs.drop_first() =~= xs2);
                        assert(b =~= spec_u64_to_le_bytes(x0) + (spec_enc_u64s(xs2) + r));
                        assert(b =~= spec_enc_u64s(xs) + r);
                    },
                    None => {
                        assert(false);
                    },
                }
            },
            None => {
                assert(false);
            },
        }
    }
}

proof fn lemma_enc_of_dec_chars(b: Seq<u8>, n: nat, cs: Seq<char>, r: Seq<u8>)
    requires
        spec_dec_chars(b, n) == Some((cs, r)),
    ensures
        b == spec_enc_chars(cs) + r,
        cs.len() == n,
    decreases n,
{
    if n == 0 {
        assert(cs =~= Seq::<char>::empty());
        assert(b =~= spec_enc_chars(cs) + r);
    } else {
        match spec_dec_u64(b) {
            Some((v, b1)) => {
                match spec_dec_chars(b1, (n - 1) as nat) {
                    Some((cs2, r2)) => {
                        lemma_enc_of_dec_u64(b, v, b1);
                        lemma_enc_of_dec_chars(b1, (n - 1) as nat, cs2, r2);
                        let c = (v as u32) as char;
                        assert(cs == seq![c] + cs2);
                        assert(cs[0] == c);
                        assert(cs.drop_first() =~= cs2);
                        assert((c as u32) == v as u32);
                        assert((cs[0] as u32) as u64 == v);
                        assert(b =~= spec_u64_to_le_bytes(v) + (spec_enc_chars(cs2) + r));
                        assert(b =~= spec_enc_chars(cs) + r);
                    },
                    None => {
                        assert(false);
                    },
                }
            },
            None => {
                assert(false);
            },
        }
    }
}

proof fn lemma_enc_of_dec_model(b: Seq<u8>, m: ModelView, r: Seq<u8>)
    requires
        spec_dec_model(b) == Some((m, r)),
    ensures
        b == spec_enc_model(m) + r,
{
    match spec_dec_u64(b) {
        Some((id64, b1)) => match spec_dec_time(b1) {
            Some((time, b2)) => match spec_dec_u64(b2) {
                Some((nlabel, b3)) => match spec_dec_chars(b3, nlabel as nat) {
                    Some((label, b4)) => match spec_dec_u64(b4) {
                        Some((ndata, b5)) => match spec_dec_u64s(b5, ndata as nat) {
                            Some((data, b6)) => {
                                lemma_enc_of_dec_u64(b, id64, b1);
                                lemma_enc_of_dec_time(b1, time, b2);
                                lemma_enc_of_dec_u64(b2, nlabel, b3);
                                lemma_enc_of_dec_chars(b3, nlabel as nat, label, b4);
                                lemma_enc_of_dec_u64(b4, ndata, b5);
                                lemma_enc_of_dec_u64s(b5, ndata as nat, data, b6);
                                assert(m.id as u64 == id64);
                                assert(m.label.len() as u64 == nlabel);
                                assert(m.data.len() as u64 == ndata);
                                assert(b =~= spec_enc_model(m) + r);
                            },
                            None => {
                                assert(false);
                            },
                        },
                        None => {
                            assert(false);
                        },
                    },
                    None => {
                        assert(false);
                    },
                },
                None => {
                    assert(false);
                },
            },
            None => {
                assert(false);
            },
        },
        None => {
            assert(false);
        },
    }
}

proof fn lemma_enc_of_dec_models(b: Seq<u8>, n: nat, ms: Seq<ModelView>, r: Seq<u8>)
    requires
        spec_dec_models(b, n) == Some((ms, r)),
    ensures
        b == spec_enc_models(ms) + r,
        ms.len() == n,
    decreases n,
{
    if n == 0 {
        assert(ms =~= Seq::<ModelView>::empty());
        assert(b =~= spec_enc_models(ms) + r);
    } else {
        match spec_dec_model(b) {
            Some((m0, b1)) => {
                match spec_dec_models(b1, (n - 1) as nat) {
                    Some((ms2, r2)) => {
                        lemma_enc_of_dec_model(b, m0, b1);
                        lemma_enc_of_dec_models(b1, (n - 1) as nat, ms2, r2);
                        assert(ms == seq![m0] + ms2);
                        assert(ms[0] == m0);
                        assert(ms.drop_first() =~= ms2);
                        assert(b =~= spec_enc_model(m0) + (spec_enc_models(ms2) + r));
                        assert(b =~= spec_enc_models(ms) + r);
                    },
                    None => {
                        assert(false);
                    },
                }
            },
            None => {
                assert(false);
            },
        }
    }
}

/// Decoding is sound and injective: a file the decoder accepts is exactly
/// the encoder's spelling of the sequence it returns — there are no two
/// files for one store and no accepted file with another reading.
pub proof fn lemma_decode_sound(b: Seq<u8>, ms: Seq<ModelView>)
    requires
        spec_decode(b) == Some(ms),
    ensures
        b == spec_encode(ms),
{
    match spec_dec_u64(b) {
        Some((n, b1)) => {
            match spec_dec_models(b1, n as nat) {
                Some((ms2, r2)) => {
                    lemma_enc_of_dec_u64(b, n, b1);
                    lemma_enc_of_dec_models(b1, n as nat, ms2, r2);
                    assert(ms == ms2);
                    assert(r2.len() == 0);
                    assert(b1 =~= spec_enc_models(ms) + r2);
                    assert(ms.len() as u64 == n);
                    assert(b =~= spec_encode(ms));
                },
                None => {
                    assert(false);
                },
            }
        },
        None => {
            assert(false);
        },
    }
}

// ---------------------------------------------------------------------------
// The executable encoder.
// ---------------------------------------------------------------------------

/// Appends all of `tail` to `out`.
fn append_bytes(out: &mut Vec<u8>, tail: &Vec<u8>)
    ensures
        final(out)@ == old(out)@ + tail@,
{
    let mut i: usize = 0;
    while i < tail.len()
        invariant
            i <= tail.len(),
            out@ == old(out)@ + tail@.take(i as int),
        decreases tail.len() - i,
    {
        out.push(tail[i]);
        proof {
            assert(old(out)@ + tail@.take(i as int + 1) =~= (old(out)@ + tail@.take(i as int)).push(
                tail@[i as int],
            ));
        }
        i += 1;
    }
    proof {
        assert(tail@.take(tail@.len() as int) =~= tail@);
    }
}

/// Writes a time as its sign byte and magnitude.
fn encode_time(t: i64) -> (r: Vec<u8>)
    ensures
        r@ == spec_enc_time(t),
{
    let mut out: Vec<u8> = Vec::new();
    if t >= 0 {
        out.push(0u8);
        let w = u64_to_le_bytes(t as u64);
        append_bytes(&mut out, &w);
        proof {
            assert(out@ =~= seq![0u8] + spec_u64_to_le_bytes(t as u64));
        }
    } else {
        out.push(1u8);
        let mag: i64 = -(t + 1);
        let w = u64_to_le_bytes(mag as u64);
        append_bytes(&mut out, &w);
        proof {
            assert(out@ =~= seq![1u8] + spec_u64_to_le_bytes((-(t + 1)) as u64));
        }
    }
    out
}

/// Writes the embedding words from position i on.
fn encode_u64s_from(xs: &Vec<u64>, i: usize) -> (r: Vec<u8>)
    requires
        i <= xs.len(),
    ensures
        r@ == spec_enc_u64s(xs@.skip(i as int)),
    decreases xs.len() - i,
{
    if i == xs.len() {
        let r: Vec<u8> = Vec::new();
        proof {
            assert(xs@.skip(i as int) =~= Seq::<u64>::empty());
        }
        r
    } else {
        let mut out = u64_to_le_bytes(xs[i]);
        let tail = encode_u64s_from(xs, i + 1);
        append_bytes(&mut out, &tail);
        proof {
            let s = xs@.skip(i as int);
            assert(s[0] == xs@[i as int]);
            assert(s.drop_first() =~= xs@.skip(i as int + 1));
        }
        out
    }
}

/// Writes the label characters from position i on.
fn encode_chars_from(s: &String, i: usize) -> (r: Vec<u8>)
    requires
        i <= s@.len(),
    ensures
        r@ == spec_enc_chars(s@.skip(i as int)),
    decreases s@.len() - i,
{
    let n = s.as_str().unicode_len();
    if i == n {
        let r: Vec<u8> = Vec::new();
        proof {
            assert(s@.skip(i as int) =~= Seq::<char>::empty());
        }
        r
    } else {
        let c = s.as_str().get_char(i);
        let mut out = u64_to_le_bytes((c as u32) as u64);
        let tail = encode_chars_from(s, i + 1);
        append_bytes(&mut out, &tail);
        proof {
            let cs = s@.skip(i as int);
            assert(cs[0] == s@[i as int]);
            assert(cs.drop_first() =~= s@.skip(i as int + 1));
        }
        out
    }
}

/// Writes one template record.
fn encode_model(m: &Model) -> (r: Vec<u8>)
    ensures
        r@ == spec_enc_model(m@),
{
    let mut out = u64_to_le_bytes(m.id as u64);
    let t = encode_time(m.time);
    append_bytes(&mut out, &t);
    let nl = m.label.as_str().unicode_len();
    let wl = u64_to_le_bytes(nl as u64);
    append_bytes(&mut out, &wl);
    let lc = encode_chars_from(&m.label, 0);
    append_bytes(&mut out, &lc);
    let wd = u64_to_le_bytes(m.data.len() as u64);
    append_bytes(&mut out, &wd);
    let dc = encode_u64s_from(&m.data, 0);
    append_bytes(&mut out, &dc);
    proof {
        assert(m.label@.skip(0) =~= m.label@);
        assert(m.data@.skip(0) =~= m.data@);
        assert(nl as u64 == m@.label.len() as u64);
        assert(m.data.len() as u64 == m@.data.len() as u64);
    }
    out
}

/// Writes the records from position i on.
fn encode_models_from(models: &Vec<Model>, i: usize) -> (r: Vec<u8>)
    requires
        i <= models.len(),
    ensures
        r@ == spec_enc_models(models.deep_view().skip(i as int)),
    decreases models.len() - i,
{
    if i == models.len() {
        let r: Vec<u8> = Vec::new();
        proof {
            assert(models.deep_view().skip(i as int) =~= Seq::<ModelView>::empty());
        }
        r
    } else {
        let mut out = encode_model(&models[i]);
        let tail = encode_models_from(models, i + 1);
        append_bytes(&mut out, &tail);
        proof {
            let s = models.deep_view().skip(i as int);
            assert(models.deep_view()[i as int] == models@[i as int]@);
            assert(s[0] == models.deep_view()[i as int]);
            assert(s.drop_first() =~= models.deep_view().skip(i as int + 1));
        }
        out
    }
}

/// Serializes one user's templates for a save: the result spells exactly
/// the layout's encoding of the given sequence, so a later load returns
/// the same ordered sequence (see `lemma_store_round_trip`).
pub fn encode_models(models: &Vec<Model>) -> (r: Vec<u8>)
    ensures
        r@ == spec_encode(models.deep_view()),
{
    let mut out = u64_to_le_bytes(models.len() as u64);
    let body = encode_models_from(models, 0);
    append_bytes(&mut out, &body);
    proof {
        assert(models.deep_view().skip(0) =~= models.deep_view());
        assert(models.deep_view().len() == models@.len());
    }
    out
}

// ---------------------------------------------------------------------------
// The executable decoder: a cursor over the bytes, each reader proved to
// agree with the layout's spec reader on the suffix at its position.
// ---------------------------------------------------------------------------

/// Reads one 64-bit word at `pos`.
fn read_u64(bytes: &Vec<u8>, pos: usize) -> (r: Option<(u64, usize)>)
    requires
        pos <= bytes.len(),
    ensures
        match r {
            Some((x, p2)) => pos <= p2 <= bytes.len() && spec_dec_u64(bytes@.skip(pos as int))
                == Some((x, bytes@.skip(p2 as int))),
            None => spec_dec_u64(bytes@.skip(pos as int)) is None,
        },
{
    if bytes.len() - pos >= 8 {
        let s = slice_subrange(bytes.as_slice(), pos, pos + 8);
        let x = u64_from_le_bytes(s);
        proof {
            assert(bytes@.skip(pos as int).take(8) =~= bytes@.subrange(pos as int, pos as int + 8));
            assert(bytes@.skip(pos as int).skip(8) =~= bytes@.skip(pos as int + 8));
        }
        Some((x, pos + 8))
    } else {
        None
    }
}

/// Reads a time at `pos`.
fn read_time(bytes: &Vec<u8>, pos: usize) -> (r: Option<(i64, usize)>)
    requires
        pos <= bytes.len(),
    ensures
        match r {
            Some((t, p2)) => pos <= p2 <= bytes.len() && spec_dec_time(bytes@.skip(pos as int))
                == Some((t, bytes@.skip(p2 as int))),
            None => spec_dec_time(bytes@.skip(pos as int)) is None,
        },
{
    if pos >= bytes.len() {
        return None;
    }
    let tag = bytes[pos];
    proof {
        assert(bytes@.skip(pos as int)[0] == bytes@[pos as int]);
        assert(bytes@.skip(pos as int).drop_first() =~= bytes@.skip(pos as int + 1));
    }
    match read_u64(bytes, pos + 1) {
        Some((m, p2)) => {
            if tag == 0 && m <= i64::MAX as u64 {
                Some((m as i64, p2))
            } else if tag == 1 && m <= i64::MAX as u64 {
                let t: i64 = -(m as i64) - 1;
                proof {
                    assert((-(m as int) - 1) as i64 == t);
                }
                Some((t, p2))
            } else {
                None
            }
        },
        None => None,
    }
}

/// Reads n embedding words at `pos`.
fn read_u64s(bytes: &Vec<u8>, pos: usize, n: u64) -> (r: Option<(Vec<u64>, usize)>)
    requires
        pos <= bytes.len(),
    ensures
        match r {
            Some((xs, p2)) => pos <= p2 <= bytes.len() && spec_dec_u64s(
                bytes@.skip(pos as int),
                n as nat,
            ) == Some((xs@, bytes@.skip(p2 as int))),
            None => spec_dec_u64s(bytes@.skip(pos as int), n as nat) is None,
        },
{
    let mut xs: Vec<u64> = Vec::new();
    let mut p = pos;
    let mut i: u64 = 0;
    while i < n
        invariant
            pos <= p <= bytes.len(),
            i <= n,
            (match spec_dec_u64s(bytes@.skip(p as int), (n - i) as nat) {
                Some((tail, rest)) => spec_dec_u64s(bytes@.skip(pos as int), n as nat) == Some(
                    (xs@ + tail, rest),
                ),
                None => spec_dec_u64s(bytes@.skip(pos as int), n as nat) is None,
            }),
        decreases n - i,
    {
        match read_u64(bytes, p) {
            Some((x, p2)) => {
                let ghost pre = bytes@.skip(p as int);
                let ghost old_xs = xs@;
                let ghost k = (n - i) as nat;
                xs.push(x);
                proof {
                    match spec_dec_u64s(bytes@.skip(p2 as int), (k - 1) as nat) {
                        Some((tail2, rest2)) => {
                            assert(spec_dec_u64s(pre, k) == Some((seq![x] + tail2, rest2)));
                            assert(old_xs + (seq![x] + tail2) =~= xs@ + tail2);
                        },
                        None => {
                            assert(spec_dec_u64s(pre, k) is None);
                        },
                    }
                }
                p = p2;
                i += 1;
            },
            None => {
                return None;
            },
        }
    }
    proof {
        assert(xs@ + Seq::<u64>::empty() =~= xs@);
    }
    Some((xs, p))
}

/// Reads n label characters at `pos`.
fn read_chars(bytes: &Vec<u8>, pos: usize, n: u64) -> (r: Option<(String, usize)>)
    requires
        pos <= bytes.len(),
    ensures
        match r {
            Some((s, p2)) => pos <= p2 <= bytes.len() && spec_dec_chars(
                bytes@.skip(pos as int),
                n as nat,
            ) == Some((s@, bytes@.skip(p2 as int))),
            None => spec_dec_chars(bytes@.skip(pos as int), n as nat) is None,
        },
{
    let mut s = String::new();
    let mut p = pos;
    let mut i: u64 = 0;
    while i < n
        invariant
            pos <= p <= bytes.len(),
            i <= n,
            (match spec_dec_chars(bytes@.skip(p as int), (n - i) as nat) {
                Some((tail, rest)) => spec_dec_chars(bytes@.skip(pos as int), n as nat) == Some(
                    (s@ + tail, rest),
                ),
                None => spec_dec_chars(bytes@.skip(pos as int), n as nat) is None,
            }),
        decreases n - i,
    {
        match read_u64(bytes, p) {
            Some((v, p2)) => {
                if v > u32::MAX as u64 {
                    return None;
                }
                match ext::char_from_u32(v as u32) {
                    Some(c) => {
                        let ghost pre = bytes@.skip(p as int);
                        let ghost old_s = s@;
                        let ghost k = (n - i) as nat;
                        ext::push_char(&mut s, c);
                        proof {
                            match spec_dec_chars(bytes@.skip(p2 as int), (k - 1) as nat) {
                                Some((tail2, rest2)) => {
                                    assert(spec_dec_chars(pre, k) == Some(
                                        (seq![c] + tail2, rest2),
                                    ));
                                    assert(old_s + (seq![c] + tail2) =~= s@ + tail2);
                                },
                                None => {
                                    assert(spec_dec_chars(pre, k) is None);
                                },
                            }
                        }
                        p = p2;
                        i += 1;
                    },
                    None => {
                        return None;
                    },
                }
            },
            None => {
                return None;
            },
        }
    }
    proof {
        assert(s@ + Seq::<char>::empty() =~= s@);
    }
    Some((s, p))
}

/// Reads one template record at `pos`.
fn read_model(bytes: &Vec<u8>, pos: usize) -> (r: Option<(Model, usize)>)
    requires
        pos <= bytes.len(),
    ensures
        match r {
            Some((m, p2)) => pos <= p2 <= bytes.len() && spec_dec_model(bytes@.skip(pos as int))
                == Some((m@, bytes@.skip(p2 as int))),
            None => spec_dec_model(bytes@.skip(pos as int)) is None,
        },
{
    let (id64, p1) = match read_u64(bytes, pos) {
        Some(x) => x,
        None => {
            return None;
        },
    };
    if id64 > usize::MAX as u64 {
        return None;
    }
    let id = id64 as usize;
    let (time, p2) = match read_time(bytes, p1) {
        Some(x) => x,
        None => {
            return None;
        },
    };
    let (nlabel, p3) = match read_u64(bytes, p2) {
        Some(x) => x,
        None => {
            return None;
        },
    };
    let (label, p4) = match read_chars(bytes, p3, nlabel) {
        Some(x) => x,
        None => {
            return None;
        },
    };
    let (ndata, p5) = match read_u64(bytes, p4) {
        Some(x) => x,
        None => {
            return None;
        },
    };
    let (data, p6) = match read_u64s(bytes, p5, ndata) {
        Some(x) => x,
        None => {
            return None;
        },
    };
    let m = Model { data, label, id, time };
    proof {
        assert(m@ == ModelView { data: m.data@, label: m.label@, id: id64 as usize, time });
    }
    Some((m, p6))
}

/// Parses a persisted template file: returns the templates exactly when
/// the bytes spell a template sequence in the store's layout, with nothing
/// left over; on any other input the data is reported malformed. Together
/// with `encode_models` and `lemma_store_round_trip`, a load after a save
/// yields the identical ordered sequence.
pub fn decode_models(bytes: &Vec<u8>) -> (r: Result<Vec<Model>, StorageError>)
    ensures
        match r {
            Ok(models) => spec_decode(bytes@) == Some(models.deep_view()),
            Err(e) => spec_decode(bytes@) is None && e == StorageError::Malformed,
        },
{
    proof {
        assert(bytes@.skip(0) =~= bytes@);
    }
    let (n, p0) = match read_u64(bytes, 0) {
        Some(x) => x,
        None => {
            return Err(StorageError::Malformed);
        },
    };
    let mut models: Vec<Model> = Vec::new();
    let mut p = p0;
    let mut i: u64 = 0;
    while i < n
        invariant
            p0 <= bytes.len(),
            p0 <= p <= bytes.len(),
            i <= n,
            spec_dec_u64(bytes@) == Some((n, bytes@.skip(p0 as int))),
            (match spec_dec_models(bytes@.skip(p as int), (n - i) as nat) {
                Some((tail, rest)) => spec_dec_models(bytes@.skip(p0 as int), n as nat) == Some(
                    (models.deep_view() + tail, rest),
                ),
                None => spec_dec_models(bytes@.skip(p0 as int), n as nat) is None,
            }),
        decreases n - i,
    {
        match read_model(bytes, p) {
            Some((m, p2)) => {
                let ghost pre = bytes@.skip(p as int);
                let ghost old_ms = models.deep_view();
                let ghost k = (n - i) as nat;
                models.push(m);
                proof {
                    assert(models.deep_view() =~= old_ms.push(m@));
                    match spec_dec_models(bytes@.skip(p2 as int), (k - 1) as nat) {
                        Some((tail2, rest2)) => {
                            assert(spec_dec_models(pre, k) == Some((seq![m@] + tail2, rest2)));
                            assert(old_ms + (seq![m@] + tail2) =~= models.deep_view() + tail2);
                        },
                        None => {
                            assert(spec_dec_models(pre, k) is None);
                        },
                    }
                }
                p = p2;
                i += 1;
            },
            None => {
                return Err(StorageError::Malformed);
            },
        }
    }
    proof {
        assert(models.deep_view() + Seq::<ModelView>::empty() =~= models.deep_view());
    }
    if p != bytes.len() {
        proof {
            assert(bytes@.skip(p as int).len() != 0);
        }
        return Err(StorageError::Malformed);
    }
    proof {
        assert(bytes@.skip(p as int).len() == 0);
    }
    Ok(models)
}

} // verus!
