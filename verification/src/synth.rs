//! The value synthesiser: decoding a raw byte slice into typed values.
//!
//! Given a list of parameter shapes and an input, the synthesiser reads the
//! input as an unstructured byte stream: primitives consume exactly their
//! width in little-endian order, booleans one byte (the low bit decides),
//! addresses and signers 32 raw bytes, vectors one continue-bit byte before
//! each element, and structs their fields in declared order.  Reads past the
//! end of the input yield zeroes and consume nothing, so the synthesiser is
//! total: every input, however short, decodes to a full value list.
//!
//! The specification functions below define the decoding mathematically;
//! the executable functions are proved to compute exactly them.

use vstd::prelude::*;

use crate::reader::{ByteReader, bool_at, bytes_at, le_at, pos_after};
use crate::schema::{FuzzerType, fixed_width, list_vector_free, list_width, vector_free};
use crate::value::{FuzzerValue, ValueModel, model_matches, models_match, models_of, value_model};

verus! {

/// A position clamped into the window `[lo, hi]` (with `hi` never below
/// `lo`).  The synthesiser's positions always stay inside this window, so
/// the clamp is the identity wherever it is applied; it exists to make the
/// termination of the specification functions self-evident.
pub open spec fn clamp_pos(lo: int, x: int, len: int) -> int {
    let hi = if len < lo {
        lo
    } else {
        len
    };
    if x < lo {
        lo
    } else if x > hi {
        hi
    } else {
        x
    }
}

/// Decode one value of shape `t` at `pos`: the value's model and the
/// position after it.
pub open spec fn spec_synth(t: FuzzerType, data: Seq<u8>, pos: int) -> (ValueModel, int)
    decreases data.len() - pos, t, 0int,
{
    match t {
        FuzzerType::U8 => (ValueModel::U8(le_at(data, pos, 1) as u8), pos_after(data, pos, 1)),
        FuzzerType::U16 => (ValueModel::U16(le_at(data, pos, 2) as u16), pos_after(data, pos, 2)),
        FuzzerType::U32 => (ValueModel::U32(le_at(data, pos, 4) as u32), pos_after(data, pos, 4)),
        FuzzerType::U64 => (ValueModel::U64(le_at(data, pos, 8) as u64), pos_after(data, pos, 8)),
        FuzzerType::U128 => (
            ValueModel::U128(le_at(data, pos, 16) as u128),
            pos_after(data, pos, 16),
        ),
        FuzzerType::U256 => (ValueModel::U256(bytes_at(data, pos, 32)), pos_after(data, pos, 32)),
        FuzzerType::Bool => (ValueModel::Bool(bool_at(data, pos)), pos_after(data, pos, 1)),
        FuzzerType::Vector(inner) => {
            let (es, p) = spec_synth_vec(*inner, data, pos);
            (ValueModel::Vector(es), p)
        },
        FuzzerType::Struct(fields) => {
            let (es, p) = spec_synth_list(fields@, data, pos);
            (ValueModel::Struct(es), p)
        },
        FuzzerType::Signer => (
            ValueModel::Signer(bytes_at(data, pos, 32)),
            pos_after(data, pos, 32),
        ),
        FuzzerType::Address => (
            ValueModel::Address(bytes_at(data, pos, 32)),
            pos_after(data, pos, 32),
        ),
    }
}

/// Decode vector elements of shape `t` at `pos`: one continue-bit byte is
/// read before each element, and an exhausted input reads as `false`.
pub open spec fn spec_synth_vec(t: FuzzerType, data: Seq<u8>, pos: int) -> (Seq<ValueModel>, int)
    decreases data.len() - pos, t, 1int,
{
    if pos < 0 || pos >= data.len() {
        (Seq::empty(), pos_after(data, pos, 1))
    } else if data[pos] % 2 == 0 {
        (Seq::empty(), pos + 1)
    } else {
        let (v, p1) = spec_synth(t, data, pos + 1);
        let p2 = clamp_pos(pos + 1, p1, data.len() as int);
        let (vs, p3) = spec_synth_vec(t, data, p2);
        (seq![v] + vs, p3)
    }
}

/// Decode one value per shape, left to right.
pub open spec fn spec_synth_list(ts: Seq<FuzzerType>, data: Seq<u8>, pos: int) -> (
    Seq<ValueModel>,
    int,
)
    decreases data.len() - pos, ts, 2int,
{
    if ts.len() == 0 {
        (Seq::empty(), pos)
    } else {
        let (v, p1) = spec_synth(ts[0], data, pos);
        let p2 = clamp_pos(pos, p1, data.len() as int);
        let (vs, p3) = spec_synth_list(ts.subrange(1, ts.len() as int), data, p2);
        (seq![v] + vs, p3)
    }
}

/// The decoding of a whole input against a parameter list.
pub open spec fn spec_synthesise(ts: Seq<FuzzerType>, data: Seq<u8>) -> Seq<ValueModel> {
    spec_synth_list(ts, data, 0).0
}

/// Decoding one value never moves the position backwards or past the end.
pub proof fn lemma_synth_bounds(t: FuzzerType, data: Seq<u8>, pos: int)
    requires
        0 <= pos <= data.len(),
    ensures
        pos <= spec_synth(t, data, pos).1 <= data.len(),
    decreases data.len() - pos, t, 0int,
{
    match t {
        FuzzerType::Vector(inner) => {
            lemma_synth_vec_bounds(*inner, data, pos);
        },
        FuzzerType::Struct(fields) => {
            lemma_synth_list_bounds(fields@, data, pos);
        },
        _ => {},
    }
}

/// Decoding vector elements never moves the position backwards or past the
/// end.
pub proof fn lemma_synth_vec_bounds(t: FuzzerType, data: Seq<u8>, pos: int)
    requires
        0 <= pos <= data.len(),
    ensures
        pos <= spec_synth_vec(t, data, pos).1 <= data.len(),
    decreases data.len() - pos, t, 1int,
{
    if pos >= data.len() {
    } else if data[pos] % 2 == 0 {
    } else {
        lemma_synth_bounds(t, data, pos + 1);
        let p2 = clamp_pos(pos + 1, spec_synth(t, data, pos + 1).1, data.len() as int);
        lemma_synth_vec_bounds(t, data, p2);
    }
}

/// Decoding a list of shapes never moves the position backwards or past the
/// end.
pub proof fn lemma_synth_list_bounds(ts: Seq<FuzzerType>, data: Seq<u8>, pos: int)
    requires
        0 <= pos <= data.len(),
    ensures
        pos <= spec_synth_list(ts, data, pos).1 <= data.len(),
    decreases data.len() - pos, ts, 2int,
{
    if ts.len() > 0 {
        lemma_synth_bounds(ts[0], data, pos);
        let p2 = clamp_pos(pos, spec_synth(ts[0], data, pos).1, data.len() as int);
        lemma_synth_list_bounds(ts.subrange(1, ts.len() as int), data, p2);
    }
}

/// Decoding a list of shapes yields exactly one value per shape, whatever
/// the input.
pub proof fn lemma_synth_list_len(ts: Seq<FuzzerType>, data: Seq<u8>, pos: int)
    ensures
        spec_synth_list(ts, data, pos).0.len() == ts.len(),
    decreases ts.len(),
{
    if ts.len() > 0 {
        let p2 = clamp_pos(pos, spec_synth(ts[0], data, pos).1, data.len() as int);
        lemma_synth_list_len(ts.subrange(1, ts.len() as int), data, p2);
    }
}

/// Appending a value to a list appends its model to the list's models.
pub proof fn lemma_models_of_push(s: Seq<FuzzerValue>, v: FuzzerValue)
    ensures
        models_of(s.push(v)) == models_of(s).push(value_model(v)),
{
    crate::value::lemma_models_of(s.push(v));
    crate::value::lemma_models_of(s);
    let lhs = models_of(s.push(v));
    let rhs = models_of(s).push(value_model(v));
    assert forall|i: int| 0 <= i < lhs.len() implies lhs[i] == rhs[i] by {
        assert(lhs[i] == value_model(s.push(v)[i]));
        if i < s.len() {
            assert(s.push(v)[i] == s[i]);
            assert(rhs[i] == models_of(s)[i]);
            assert(models_of(s)[i] == value_model(s[i]));
        } else {
            assert(s.push(v)[i] == v);
        }
    }
    assert(lhs =~= rhs);
}

/// Whatever the input, a decoded value fits its shape.
pub proof fn lemma_synth_well_typed(t: FuzzerType, data: Seq<u8>, pos: int)
    ensures
        model_matches(t, spec_synth(t, data, pos).0),
    decreases data.len() - pos, t, 0int,
{
    match t {
        FuzzerType::Vector(inner) => {
            lemma_synth_vec_well_typed(*inner, data, pos);
            let es = spec_synth_vec(*inner, data, pos).0;
            assert(spec_synth(t, data, pos).0 == ValueModel::Vector(es));
            assert forall|i: int| 0 <= i < es.len() implies model_matches(
                *inner,
                #[trigger] es[i],
            ) by {
                assert(model_matches(*inner, spec_synth_vec(*inner, data, pos).0[i]));
            }
        },
        FuzzerType::Struct(fields) => {
            lemma_synth_list_well_typed(fields@, data, pos);
        },
        _ => {},
    }
}

/// Whatever the input, every decoded vector element fits the element shape.
pub proof fn lemma_synth_vec_well_typed(t: FuzzerType, data: Seq<u8>, pos: int)
    ensures
        forall|i: int|
            0 <= i < spec_synth_vec(t, data, pos).0.len() ==> model_matches(
                t,
                #[trigger] spec_synth_vec(t, data, pos).0[i],
            ),
    decreases data.len() - pos, t, 1int,
{
    if pos < 0 || pos >= data.len() {
    } else if data[pos] % 2 == 0 {
    } else {
        lemma_synth_well_typed(t, data, pos + 1);
        let p2 = clamp_pos(pos + 1, spec_synth(t, data, pos + 1).1, data.len() as int);
        lemma_synth_vec_well_typed(t, data, p2);
        let es = spec_synth_vec(t, data, pos).0;
        assert forall|i: int| 0 <= i < es.len() implies model_matches(t, #[trigger] es[i]) by {
            if i > 0 {
                assert(es[i] == spec_synth_vec(t, data, p2).0[i - 1]);
            }
        }
    }
}

/// Whatever the input, a decoded list fits its shape list, value by value.
pub proof fn lemma_synth_list_well_typed(ts: Seq<FuzzerType>, data: Seq<u8>, pos: int)
    ensures
        models_match(ts, spec_synth_list(ts, data, pos).0),
    decreases data.len() - pos, ts, 2int,
{
    lemma_synth_list_len(ts, data, pos);
    if ts.len() > 0 {
        lemma_synth_well_typed(ts[0], data, pos);
        let p2 = clamp_pos(pos, spec_synth(ts[0], data, pos).1, data.len() as int);
        let tail = ts.subrange(1, ts.len() as int);
        lemma_synth_list_well_typed(tail, data, p2);
        let es = spec_synth_list(ts, data, pos).0;
        assert forall|i: int| 0 <= i < ts.len() implies model_matches(ts[i], #[trigger] es[i]) by {
            if i > 0 {
                assert(es[i] == spec_synth_list(tail, data, p2).0[i - 1]);
                assert(tail[i - 1] == ts[i]);
            }
        }
    }
}

/// The synthesised values fit the shapes: one value per shape, each of the
/// shape's form.  Together with `synthesise`'s own contract this is the
/// totality law: every input decodes to a well-typed list of length
/// `ts.len()`.
pub proof fn lemma_synthesise_well_typed(ts: Seq<FuzzerType>, data: Seq<u8>)
    ensures
        models_match(ts, spec_synthesise(ts, data)),
        spec_synthesise(ts, data).len() == ts.len(),
{
    lemma_synth_list_well_typed(ts, data, 0);
}

/// Two byte strings that agree on a window agree on every window inside it.
proof fn lemma_subrange_agree(d1: Seq<u8>, d2: Seq<u8>, a: int, b: int, c: int, d: int)
    requires
        0 <= a <= c <= d <= b,
        b <= d1.len(),
        b <= d2.len(),
        d1.subrange(a, b) == d2.subrange(a, b),
    ensures
        d1.subrange(c, d) == d2.subrange(c, d),
{
    assert forall|i: int| 0 <= i < d - c implies d1.subrange(c, d)[i] == d2.subrange(c, d)[i] by {
        assert(d1.subrange(a, b)[c - a + i] == d2.subrange(a, b)[c - a + i]);
        assert(d1.subrange(a, b)[c - a + i] == d1[c + i]);
        assert(d2.subrange(a, b)[c - a + i] == d2[c + i]);
    }
    assert(d1.subrange(c, d) =~= d2.subrange(c, d));
}

/// Prefix determinism for one vector-free shape: if two inputs agree on the
/// bytes the shape covers, it decodes to the same value from both, and
/// consumes exactly its fixed width.
pub proof fn lemma_prefix_deterministic_one(t: FuzzerType, d1: Seq<u8>, d2: Seq<u8>, pos: int)
    requires
        vector_free(t),
        0 <= pos,
        pos + fixed_width(t) <= d1.len(),
        pos + fixed_width(t) <= d2.len(),
        d1.subrange(pos, pos + fixed_width(t)) == d2.subrange(pos, pos + fixed_width(t)),
    ensures
        spec_synth(t, d1, pos).0 == spec_synth(t, d2, pos).0,
        spec_synth(t, d1, pos).1 == pos + fixed_width(t),
        spec_synth(t, d2, pos).1 == pos + fixed_width(t),
    decreases t,
{
    match t {
        FuzzerType::Vector(_) => {},
        FuzzerType::Struct(fields) => {
            lemma_prefix_deterministic_list(fields@, d1, d2, pos);
        },
        _ => {
            crate::reader::lemma_bytes_at_agree(d1, d2, pos, fixed_width(t));
        },
    }
}

/// Prefix determinism for a vector-free shape list.
pub proof fn lemma_prefix_deterministic_list(ts: Seq<FuzzerType>, d1: Seq<u8>, d2: Seq<u8>, pos: int)
    requires
        list_vector_free(ts),
        0 <= pos,
        pos + list_width(ts) <= d1.len(),
        pos + list_width(ts) <= d2.len(),
        d1.subrange(pos, pos + list_width(ts)) == d2.subrange(pos, pos + list_width(ts)),
    ensures
        spec_synth_list(ts, d1, pos).0 == spec_synth_list(ts, d2, pos).0,
        spec_synth_list(ts, d1, pos).1 == pos + list_width(ts),
        spec_synth_list(ts, d2, pos).1 == pos + list_width(ts),
    decreases ts,
{
    if ts.len() > 0 {
        let w0 = fixed_width(ts[0]);
        let tail = ts.subrange(1, ts.len() as int);
        let w = list_width(ts);
        lemma_list_width_nonneg(tail);
        lemma_subrange_agree(d1, d2, pos, pos + w, pos, pos + w0);
        lemma_prefix_deterministic_one(ts[0], d1, d2, pos);
        lemma_subrange_agree(d1, d2, pos, pos + w, pos + w0, pos + w);
        lemma_prefix_deterministic_list(tail, d1, d2, pos + w0);
    }
}

/// A list's width is the sum of nonnegative widths.
proof fn lemma_list_width_nonneg(ts: Seq<FuzzerType>)
    ensures
        list_width(ts) >= 0,
{
}

/// Prefix determinism: two inputs that agree on a prefix long enough to
/// cover every read of a vector-free shape list decode to the same values.
pub proof fn lemma_prefix_determinism(ts: Seq<FuzzerType>, d1: Seq<u8>, d2: Seq<u8>)
    requires
        list_vector_free(ts),
        list_width(ts) <= d1.len(),
        list_width(ts) <= d2.len(),
        d1.subrange(0, list_width(ts) as int) == d2.subrange(0, list_width(ts) as int),
    ensures
        spec_synthesise(ts, d1) == spec_synthesise(ts, d2),
{
    lemma_prefix_deterministic_list(ts, d1, d2, 0);
}

/// Decode one value of shape `t` from the reader.
pub fn synthesise_one(t: &FuzzerType, r: &mut ByteReader) -> (v: FuzzerValue)
    requires
        old(r).wf(),
    ensures
        final(r).wf(),
        final(r).bytes() == old(r).bytes(),
        value_model(v) == spec_synth(*t, old(r).bytes(), old(r).position()).0,
        final(r).position() == spec_synth(*t, old(r).bytes(), old(r).position()).1,
    decreases old(r).bytes().len() - old(r).position(), *t, 0int,
{
    match t {
        FuzzerType::U8 => {
            let x = r.read_le(1);
            FuzzerValue::U8(#[verifier::truncate] (x as u8))
        },
        FuzzerType::U16 => {
            let x = r.read_le(2);
            FuzzerValue::U16(#[verifier::truncate] (x as u16))
        },
        FuzzerType::U32 => {
            let x = r.read_le(4);
            FuzzerValue::U32(#[verifier::truncate] (x as u32))
        },
        FuzzerType::U64 => {
            let x = r.read_le(8);
            FuzzerValue::U64(#[verifier::truncate] (x as u64))
        },
        FuzzerType::U128 => {
            let x = r.read_le(16);
            FuzzerValue::U128(x)
        },
        FuzzerType::U256 => {
            let b = r.fill(32);
            FuzzerValue::U256(b)
        },
        FuzzerType::Bool => {
            let x = r.read_bool();
            FuzzerValue::Bool(x)
        },
        FuzzerType::Vector(inner) => {
            let ghost data = r.bytes();
            let ghost p0 = r.position();
            let mut elems: Vec<FuzzerValue> = Vec::new();
            proof {
                assert(spec_synth_vec(**inner, data, p0).0 =~= models_of(elems@) + spec_synth_vec(
                    **inner,
                    data,
                    p0,
                ).0);
            }
            loop
                invariant_except_break
                    r.wf(),
                    data == old(r).bytes(),
                    p0 == old(r).position(),
                    *t == FuzzerType::Vector(*inner),
                    r.bytes() == data,
                    p0 <= r.position() <= data.len(),
                    spec_synth_vec(**inner, data, p0).0 == models_of(elems@) + spec_synth_vec(
                        **inner,
                        data,
                        r.position(),
                    ).0,
                    spec_synth_vec(**inner, data, p0).1 == spec_synth_vec(
                        **inner,
                        data,
                        r.position(),
                    ).1,
                ensures
                    r.wf(),
                    r.bytes() == data,
                    models_of(elems@) == spec_synth_vec(**inner, data, p0).0,
                    r.position() == spec_synth_vec(**inner, data, p0).1,
                decreases data.len() - r.position(),
            {
                let ghost phead = r.position();
                let keep = r.read_bool();
                proof {
                    assert(bytes_at(data, phead, 1)[0] == (if phead < data.len() {
                        data[phead]
                    } else {
                        0u8
                    }));
                }
                if !keep {
                    proof {
                        assert(spec_synth_vec(**inner, data, phead).0 =~= Seq::<ValueModel>::empty());
                        assert(spec_synth_vec(**inner, data, phead).1 == r.position());
                        assert(models_of(elems@) + Seq::<ValueModel>::empty() =~= models_of(elems@));
                    }
                    break;
                }
                proof {
                    assert(phead < data.len() && data[phead as int] % 2 == 1);
                    assert(r.position() == phead + 1);
                }
                let v = synthesise_one(inner, r);
                proof {
                    lemma_synth_bounds(**inner, data, phead + 1);
                    assert(clamp_pos(
                        phead + 1,
                        spec_synth(**inner, data, phead + 1).1,
                        data.len() as int,
                    ) == r.position());
                }
                let ghost p2 = r.position();
                let ghost eold = elems@;
                elems.push(v);
                proof {
                    lemma_models_of_push(eold, v);
                    assert(elems@ == eold.push(v));
                    assert(spec_synth_vec(**inner, data, phead).0 == seq![value_model(v)]
                        + spec_synth_vec(**inner, data, p2).0);
                    assert(models_of(eold) + (seq![value_model(v)] + spec_synth_vec(
                        **inner,
                        data,
                        p2,
                    ).0) =~= models_of(eold).push(value_model(v)) + spec_synth_vec(
                        **inner,
                        data,
                        p2,
                    ).0);
                }
            }
            FuzzerValue::Vector(elems)
        },
        FuzzerType::Struct(fields) => {
            let vs = synthesise_fields(fields, r);
            FuzzerValue::Struct(vs)
        },
        FuzzerType::Signer => {
            let b = r.fill(32);
            FuzzerValue::Signer(b)
        },
        FuzzerType::Address => {
            let b = r.fill(32);
            FuzzerValue::Address(b)
        },
    }
}

/// Decode one value per shape, left to right.
pub fn synthesise_fields(ts: &Vec<FuzzerType>, r: &mut ByteReader) -> (vs: Vec<FuzzerValue>)
    requires
        old(r).wf(),
    ensures
        final(r).wf(),
        final(r).bytes() == old(r).bytes(),
        models_of(vs@) == spec_synth_list(ts@, old(r).bytes(), old(r).position()).0,
        final(r).position() == spec_synth_list(ts@, old(r).bytes(), old(r).position()).1,
        vs@.len() == ts@.len(),
    decreases old(r).bytes().len() - old(r).position(), ts@, 2int,
{
    let ghost data = r.bytes();
    let ghost p0 = r.position();
    let mut out: Vec<FuzzerValue> = Vec::new();
    let mut i: usize = 0;
    proof {
        assert(ts@.subrange(0, ts@.len() as int) =~= ts@);
        assert(spec_synth_list(ts@, data, p0).0 =~= models_of(out@) + spec_synth_list(
            ts@,
            data,
            p0,
        ).0);
    }
    while i < ts.len()
        invariant
            r.wf(),
            data == old(r).bytes(),
            p0 == old(r).position(),
            r.bytes() == data,
            p0 <= r.position() <= data.len(),
            i <= ts@.len(),
            out@.len() == i,
            spec_synth_list(ts@, data, p0).0 == models_of(out@) + spec_synth_list(
                ts@.subrange(i as int, ts@.len() as int),
                data,
                r.position(),
            ).0,
            spec_synth_list(ts@, data, p0).1 == spec_synth_list(
                ts@.subrange(i as int, ts@.len() as int),
                data,
                r.position(),
            ).1,
        decreases ts@.len() - i,
    {
        let ghost phead = r.position();
        let ghost tail = ts@.subrange(i as int, ts@.len() as int);
        proof {
            assert(tail[0] == ts@[i as int]);
        }
        let v = synthesise_one(&ts[i], r);
        proof {
            lemma_synth_bounds(ts@[i as int], data, phead);
            assert(clamp_pos(
                phead,
                spec_synth(ts@[i as int], data, phead).1,
                data.len() as int,
            ) == r.position());
            assert(tail.subrange(1, tail.len() as int) =~= ts@.subrange(
                i + 1,
                ts@.len() as int,
            ));
            assert(spec_synth_list(tail, data, phead).0 == seq![value_model(v)]
                + spec_synth_list(ts@.subrange(i + 1, ts@.len() as int), data, r.position()).0);
            assert(spec_synth_list(tail, data, phead).1 == spec_synth_list(
                ts@.subrange(i + 1, ts@.len() as int),
                data,
                r.position(),
            ).1);
        }
        let ghost p2 = r.position();
        let ghost oold = out@;
        out.push(v);
        proof {
            lemma_models_of_push(oold, v);
            assert(out@ == oold.push(v));
            assert(models_of(oold) + (seq![value_model(v)] + spec_synth_list(
                ts@.subrange(i + 1, ts@.len() as int),
                data,
                p2,
            ).0) =~= models_of(oold).push(value_model(v)) + spec_synth_list(
                ts@.subrange(i + 1, ts@.len() as int),
                data,
                p2,
            ).0);
        }
        i = i + 1;
    }
    proof {
        assert(ts@.subrange(ts@.len() as int, ts@.len() as int) =~= Seq::<FuzzerType>::empty());
        assert(models_of(out@) + Seq::<ValueModel>::empty() =~= models_of(out@));
        crate::value::lemma_models_of(out@);
        lemma_synth_list_len(ts@, data, p0);
    }
    out
}

/// Decode a whole input against a parameter list.
///
/// The synthesiser is total: for every shape list and every input it
/// returns exactly one value per shape, each fitting its shape — the
/// decoding the specification functions define.
pub fn synthesise(ts: &Vec<FuzzerType>, bytes: &Vec<u8>) -> (vs: Vec<FuzzerValue>)
    ensures
        models_of(vs@) == spec_synthesise(ts@, bytes@),
        vs@.len() == ts@.len(),
        models_match(ts@, models_of(vs@)),
{
    let mut r = ByteReader::new(bytes);
    let vs = synthesise_fields(ts, &mut r);
    proof {
        lemma_synthesise_well_typed(ts@, bytes@);
    }
    vs
}

} // verus!
