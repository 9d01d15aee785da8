//! The parameter shapes the synthesiser understands.
//!
//! A target function's recovered signature is a list of these shapes.  The
//! set is closed: references, type parameters, tuples and function types are
//! rejected during signature recovery and never reach the synthesiser.

use vstd::prelude::*;

verus! {

/// A parameter shape the synthesiser can fill from raw bytes.
///
/// Struct shapes carry their field shapes positionally: nominal identity is
/// not preserved, the synthesiser fills the fields in declared order.
#[derive(Debug, PartialEq, Eq, Hash)]
pub enum FuzzerType {
    U8,
    U16,
    U32,
    U64,
    U128,
    U256,
    Bool,
    Vector(Box<FuzzerType>),
    Struct(Vec<FuzzerType>),
    Signer,
    Address,
}

/// Whether a shape contains no vector anywhere: such a shape always consumes
/// a statically known number of bytes.
pub open spec fn vector_free(t: FuzzerType) -> bool
    decreases t,
{
    match t {
        FuzzerType::Vector(_) => false,
        FuzzerType::Struct(fields) => forall|i: int|
            0 <= i < fields@.len() ==> vector_free(#[trigger] fields@[i]),
        _ => true,
    }
}

/// Whether every shape in a list is vector-free.
pub open spec fn list_vector_free(ts: Seq<FuzzerType>) -> bool {
    forall|i: int| 0 <= i < ts.len() ==> vector_free(#[trigger] ts[i])
}

/// How many bytes a vector-free shape consumes from the byte stream.
/// (For a vector the value is meaningless and unused; its consumption
/// depends on the bytes themselves.)
pub open spec fn fixed_width(t: FuzzerType) -> nat
    decreases t,
{
    match t {
        FuzzerType::U8 => 1,
        FuzzerType::U16 => 2,
        FuzzerType::U32 => 4,
        FuzzerType::U64 => 8,
        FuzzerType::U128 => 16,
        FuzzerType::U256 => 32,
        FuzzerType::Bool => 1,
        FuzzerType::Vector(_) => 0,
        FuzzerType::Struct(fields) => list_width(fields@),
        FuzzerType::Signer => 32,
        FuzzerType::Address => 32,
    }
}

/// The total byte consumption of a list of vector-free shapes.
pub open spec fn list_width(ts: Seq<FuzzerType>) -> nat
    decreases ts,
{
    if ts.len() == 0 {
        0
    } else {
        fixed_width(ts[0]) + list_width(ts.subrange(1, ts.len() as int))
    }
}

/// A target function's recovered parameter list.
pub struct Parameters(pub Vec<FuzzerType>);

/// The debug rendering of a shape: the variant's name, a vector's element
/// shape in parentheses, a struct's field shapes bracketed.
pub open spec fn type_debug(t: FuzzerType) -> Seq<char>
    decreases t, 0int,
{
    match t {
        FuzzerType::U8 => "U8"@,
        FuzzerType::U16 => "U16"@,
        FuzzerType::U32 => "U32"@,
        FuzzerType::U64 => "U64"@,
        FuzzerType::U128 => "U128"@,
        FuzzerType::U256 => "U256"@,
        FuzzerType::Bool => "Bool"@,
        FuzzerType::Vector(inner) => "Vector("@ + type_debug(*inner) + ")"@,
        FuzzerType::Struct(fields) => "Struct(["@ + type_debug_list(fields@) + "])"@,
        FuzzerType::Signer => "Signer"@,
        FuzzerType::Address => "Address"@,
    }
}

/// The debug renderings of a shape list, comma separated.
pub open spec fn type_debug_list(ts: Seq<FuzzerType>) -> Seq<char>
    decreases ts, 1int,
{
    if ts.len() == 0 {
        Seq::empty()
    } else if ts.len() == 1 {
        type_debug(ts[0])
    } else {
        type_debug_list(ts.drop_last()) + ", "@ + type_debug(ts.last())
    }
}

/// The display rendering of a shape: as the debug one, except that a
/// struct spaces its bracketed field list.
pub open spec fn type_display(t: FuzzerType) -> Seq<char>
    decreases t, 2int,
{
    match t {
        FuzzerType::Struct(fields) => if fields@.len() == 0 {
            "Struct([])"@
        } else {
            "Struct([ "@ + type_display_list(fields@) + " ])"@
        },
        _ => type_debug(t),
    }
}

/// The display renderings of a shape list, comma separated.
pub open spec fn type_display_list(ts: Seq<FuzzerType>) -> Seq<char>
    decreases ts, 3int,
{
    if ts.len() == 0 {
        Seq::empty()
    } else if ts.len() == 1 {
        type_display(ts[0])
    } else {
        type_display_list(ts.drop_last()) + ", "@ + type_display(ts.last())
    }
}

/// The display rendering of a parameter list: the shapes between brackets.
pub open spec fn params_display(ts: Seq<FuzzerType>) -> Seq<char> {
    if ts.len() == 0 {
        "[]"@
    } else {
        "[ "@ + type_display_list(ts) + " ]"@
    }
}

impl FuzzerType {
    /// The debug rendering of this shape.
    pub fn render_debug(&self) -> (r: String)
        ensures
            r@ == type_debug(*self),
        decreases *self, 0int,
    {
        match self {
            FuzzerType::U8 => String::from_str("U8"),
            FuzzerType::U16 => String::from_str("U16"),
            FuzzerType::U32 => String::from_str("U32"),
            FuzzerType::U64 => String::from_str("U64"),
            FuzzerType::U128 => String::from_str("U128"),
            FuzzerType::U256 => String::from_str("U256"),
            FuzzerType::Bool => String::from_str("Bool"),
            FuzzerType::Vector(inner) => {
                let mut s = String::from_str("Vector(");
                let body = inner.render_debug();
                s.append(body.as_str());
                s.append(")");
                proof {
                    assert(s@ =~= type_debug(*self));
                }
                s
            },
            FuzzerType::Struct(fields) => {
                let mut s = String::from_str("Struct([");
                let body = render_debug_list(fields);
                s.append(body.as_str());
                s.append("])");
                proof {
                    assert(s@ =~= type_debug(*self));
                }
                s
            },
            FuzzerType::Signer => String::from_str("Signer"),
            FuzzerType::Address => String::from_str("Address"),
        }
    }

    /// The display rendering of this shape.
    pub fn render(&self) -> (r: String)
        ensures
            r@ == type_display(*self),
        decreases *self, 2int,
    {
        match self {
            FuzzerType::Struct(fields) => {
                if fields.len() == 0 {
                    String::from_str("Struct([])")
                } else {
                    let mut s = String::from_str("Struct([ ");
                    let body = render_display_list(fields);
                    s.append(body.as_str());
                    s.append(" ])");
                    proof {
                        assert(s@ =~= type_display(*self));
                    }
                    s
                }
            },
            _ => self.render_debug(),
        }
    }
}

/// The comma-separated debug renderings of a shape list.
pub fn render_debug_list(ts: &Vec<FuzzerType>) -> (r: String)
    ensures
        r@ == type_debug_list(ts@),
    decreases ts@, 1int,
{
    let mut s = String::new();
    let mut i: usize = 0;
    while i < ts.len()
        invariant
            i <= ts@.len(),
            s@ == type_debug_list(ts@.subrange(0, i as int)),
        decreases ts@.len() - i,
    {
        let ghost prefix = ts@.subrange(0, i as int);
        if i > 0 {
            s.append(", ");
        }
        let piece = ts[i].render_debug();
        s.append(piece.as_str());
        proof {
            let next = ts@.subrange(0, i + 1);
            assert(next.drop_last() =~= prefix);
            assert(next.last() == ts@[i as int]);
            assert(next[0] == ts@[0]);
            assert(s@ =~= type_debug_list(next));
        }
        i = i + 1;
    }
    proof {
        assert(ts@.subrange(0, ts@.len() as int) =~= ts@);
    }
    s
}

/// The comma-separated display renderings of a shape list.
pub fn render_display_list(ts: &Vec<FuzzerType>) -> (r: String)
    ensures
        r@ == type_display_list(ts@),
    decreases ts@, 3int,
{
    let mut s = String::new();
    let mut i: usize = 0;
    while i < ts.len()
        invariant
            i <= ts@.len(),
            s@ == type_display_list(ts@.subrange(0, i as int)),
        decreases ts@.len() - i,
    {
        let ghost prefix = ts@.subrange(0, i as int);
        if i > 0 {
            s.append(", ");
        }
        let piece = ts[i].render();
        s.append(piece.as_str());
        proof {
            let next = ts@.subrange(0, i + 1);
            assert(next.drop_last() =~= prefix);
            assert(next.last() == ts@[i as int]);
            assert(next[0] == ts@[0]);
            assert(s@ =~= type_display_list(next));
        }
        i = i + 1;
    }
    proof {
        assert(ts@.subrange(0, ts@.len() as int) =~= ts@);
    }
    s
}

impl Parameters {
    /// The display rendering of the parameter list.
    pub fn render(&self) -> (r: String)
        ensures
            r@ == params_display(self.0@),
    {
        if self.0.len() == 0 {
            String::from_str("[]")
        } else {
            let mut s = String::from_str("[ ");
            let body = render_display_list(&self.0);
            s.append(body.as_str());
            s.append(" ]");
            proof {
                assert(s@ =~= params_display(self.0@));
            }
            s
        }
    }
}

} // verus!
