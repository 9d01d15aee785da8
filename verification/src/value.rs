//! Typed values the synthesiser produces, and their mathematical model.
//!
//! `FuzzerValue` is the executable value; `ValueModel` is the same value
//! over `Seq`, the form the synthesiser's specification speaks of.  Wide
//! integers, addresses and signers carry their raw bytes (little-endian for
//! the 256-bit integers); vectors and structs carry their elements in
//! order.

use vstd::prelude::*;

use crate::schema::FuzzerType;

verus! {

/// A typed value, aligned with one `FuzzerType` shape.
#[derive(Debug, PartialEq, Eq)]
pub enum FuzzerValue {
    U8(u8),
    U16(u16),
    U32(u32),
    U64(u64),
    U128(u128),
    /// The 32 little-endian bytes of a 256-bit integer.
    U256(Vec<u8>),
    Bool(bool),
    Vector(Vec<FuzzerValue>),
    Struct(Vec<FuzzerValue>),
    /// The 32 raw bytes of the signing account's address.
    Signer(Vec<u8>),
    /// The 32 raw bytes of an account address.
    Address(Vec<u8>),
}

/// The mathematical form of a `FuzzerValue`: byte vectors become `Seq<u8>`,
/// element vectors become `Seq<ValueModel>`.
pub enum ValueModel {
    U8(u8),
    U16(u16),
    U32(u32),
    U64(u64),
    U128(u128),
    U256(Seq<u8>),
    Bool(bool),
    Vector(Seq<ValueModel>),
    Struct(Seq<ValueModel>),
    Signer(Seq<u8>),
    Address(Seq<u8>),
}

/// The model of a value: the value itself with every vector abstracted to a
/// sequence.
pub open spec fn value_model(v: FuzzerValue) -> ValueModel
    decreases v, 0int,
{
    match v {
        FuzzerValue::U8(x) => ValueModel::U8(x),
        FuzzerValue::U16(x) => ValueModel::U16(x),
        FuzzerValue::U32(x) => ValueModel::U32(x),
        FuzzerValue::U64(x) => ValueModel::U64(x),
        FuzzerValue::U128(x) => ValueModel::U128(x),
        FuzzerValue::U256(b) => ValueModel::U256(b@),
        FuzzerValue::Bool(x) => ValueModel::Bool(x),
        FuzzerValue::Vector(es) => ValueModel::Vector(models_of(es@)),
        FuzzerValue::Struct(es) => ValueModel::Struct(models_of(es@)),
        FuzzerValue::Signer(b) => ValueModel::Signer(b@),
        FuzzerValue::Address(b) => ValueModel::Address(b@),
    }
}

/// The models of a list of values, in order.
pub open spec fn models_of(vs: Seq<FuzzerValue>) -> Seq<ValueModel>
    decreases vs, 1int,
{
    if vs.len() == 0 {
        Seq::empty()
    } else {
        seq![value_model(vs[0])] + models_of(vs.subrange(1, vs.len() as int))
    }
}

/// `models_of` maps the list pointwise: it keeps the length and models each
/// element in place.
pub proof fn lemma_models_of(vs: Seq<FuzzerValue>)
    ensures
        models_of(vs).len() == vs.len(),
        forall|i: int| 0 <= i < vs.len() ==> models_of(vs)[i] == value_model(#[trigger] vs[i]),
    decreases vs.len(),
{
    if vs.len() > 0 {
        lemma_models_of(vs.subrange(1, vs.len() as int));
        assert forall|i: int| 0 <= i < vs.len() implies models_of(vs)[i] == value_model(
            #[trigger] vs[i],
        ) by {
            if i > 0 {
                assert(vs.subrange(1, vs.len() as int)[i - 1] == vs[i]);
            }
        }
    }
}

/// Whether a model value fits a shape: the variants line up, byte vectors
/// have their fixed widths, and elements fit recursively.
pub open spec fn model_matches(t: FuzzerType, m: ValueModel) -> bool
    decreases t,
{
    match t {
        FuzzerType::U8 => m is U8,
        FuzzerType::U16 => m is U16,
        FuzzerType::U32 => m is U32,
        FuzzerType::U64 => m is U64,
        FuzzerType::U128 => m is U128,
        FuzzerType::U256 => m matches ValueModel::U256(b) && b.len() == 32,
        FuzzerType::Bool => m is Bool,
        FuzzerType::Vector(inner) => m matches ValueModel::Vector(es) && forall|i: int|
            0 <= i < es.len() ==> model_matches(*inner, #[trigger] es[i]),
        FuzzerType::Struct(fields) => m matches ValueModel::Struct(es) && es.len()
            == fields@.len() && forall|i: int|
            0 <= i < es.len() ==> model_matches(fields@[i], #[trigger] es[i]),
        FuzzerType::Signer => m matches ValueModel::Signer(b) && b.len() == 32,
        FuzzerType::Address => m matches ValueModel::Address(b) && b.len() == 32,
    }
}

/// Whether each model in a list fits the shape in the same position.
pub open spec fn models_match(ts: Seq<FuzzerType>, ms: Seq<ValueModel>) -> bool {
    ms.len() == ts.len() && forall|i: int|
        0 <= i < ts.len() ==> model_matches(ts[i], #[trigger] ms[i])
}

} // verus!
