//! Recovering a target function's signature from the program model.
//!
//! The compiled modules are analysed outside the library into a plain
//! description: per module its declared name and, per function, the
//! function's short name, its parameter types and its bytecode length.
//! This module holds the decisions: locating the target module by name,
//! locating the target function by short name (the first in declaration
//! order wins when several share it), translating each parameter type into
//! a `FuzzerType` shape, and rejecting the parameter kinds the synthesiser
//! cannot fill — references, type parameters, tuples and function types.

use vstd::prelude::*;

use crate::schema::FuzzerType;

verus! {

/// A parameter type as the program model reports it.  Struct types carry
/// their field types, already resolved, in declared order.
#[derive(Debug, PartialEq, Eq)]
pub enum VmType {
    Bool,
    U8,
    U16,
    U32,
    U64,
    U128,
    U256,
    Address,
    Signer,
    Vector(Box<VmType>),
    Struct(Vec<VmType>),
    /// A reference type: not fuzzable.
    Reference,
    /// A type parameter of a generic function: not fuzzable.
    TypeParameter,
    /// A tuple type: not fuzzable.
    Tuple,
    /// A function type: not fuzzable.
    Function,
    /// Any remaining model shape: not fuzzable.
    Other,
}

/// Why signature recovery failed.
#[derive(Debug, Clone, PartialEq, Eq)]
pub enum AbiError {
    /// No module declares the target module name.
    ModuleNotFound,
    /// The target module has no function with the target short name.
    FunctionNotFound,
    /// The target function uses an unsupported parameter type; the name of
    /// the offending kind is kept for the diagnostic.
    UnsupportedParameterType { kind: String },
}

/// One function of a module, as the model reports it.
#[derive(Debug, PartialEq, Eq)]
pub struct FunctionSig {
    /// The function's short name.
    pub name: String,
    /// The function's parameter types, in declaration order.
    pub params: Vec<VmType>,
    /// How many bytecode instructions the function body holds.
    pub bytecode_len: usize,
}

/// One module of the program model: its declared name and its functions in
/// declaration order.
#[derive(Debug, PartialEq, Eq)]
pub struct ModuleSig {
    /// The module's declared name.
    pub name: String,
    /// The module's functions, in declaration order.
    pub functions: Vec<FunctionSig>,
}

/// A recovered target signature: the parameter shapes the synthesiser will
/// fill, and the target's bytecode length, exposed as a static coverage
/// denominator.
#[derive(Debug, PartialEq, Eq)]
pub struct TargetAbi {
    /// One shape per target parameter, in order.
    pub params: Vec<FuzzerType>,
    /// The target function's bytecode length.
    pub max_coverage: usize,
}

/// Whether the synthesiser can fill a model type.
pub open spec fn supported(t: VmType) -> bool
    decreases t,
{
    match t {
        VmType::Vector(inner) => supported(*inner),
        VmType::Struct(fields) => forall|i: int|
            0 <= i < fields@.len() ==> supported(#[trigger] fields@[i]),
        VmType::Reference => false,
        VmType::TypeParameter => false,
        VmType::Tuple => false,
        VmType::Function => false,
        VmType::Other => false,
        _ => true,
    }
}

/// Whether the synthesiser can fill every type in a list.
pub open spec fn list_supported(ts: Seq<VmType>) -> bool {
    forall|i: int| 0 <= i < ts.len() ==> supported(#[trigger] ts[i])
}

/// The name of the unsupported kind a failed translation reports: the
/// leftmost, outermost unsupported node in left-to-right order.
pub open spec fn first_bad(t: VmType) -> Seq<char>
    decreases t,
{
    match t {
        VmType::Vector(inner) => first_bad(*inner),
        VmType::Struct(fields) => first_bad_list(fields@),
        VmType::Reference => "Reference"@,
        VmType::TypeParameter => "TypeParameter"@,
        VmType::Tuple => "Tuple"@,
        VmType::Function => "Function"@,
        VmType::Other => "Other"@,
        _ => Seq::empty(),
    }
}

/// The reported kind for a list: that of its first unsupported member.
pub open spec fn first_bad_list(ts: Seq<VmType>) -> Seq<char>
    decreases ts,
{
    if ts.len() == 0 {
        Seq::empty()
    } else if !supported(ts[0]) {
        first_bad(ts[0])
    } else {
        first_bad_list(ts.subrange(1, ts.len() as int))
    }
}

/// Whether a shape is the translation of a model type: primitives map one
/// to one, vectors recursively, and a struct becomes the ordered list of
/// its translated field shapes.
pub open spec fn schema_matches(t: VmType, s: FuzzerType) -> bool
    decreases t,
{
    match t {
        VmType::Bool => s is Bool,
        VmType::U8 => s is U8,
        VmType::U16 => s is U16,
        VmType::U32 => s is U32,
        VmType::U64 => s is U64,
        VmType::U128 => s is U128,
        VmType::U256 => s is U256,
        VmType::Address => s is Address,
        VmType::Signer => s is Signer,
        VmType::Vector(inner) => s matches FuzzerType::Vector(si) && schema_matches(*inner, *si),
        VmType::Struct(fields) => s matches FuzzerType::Struct(ss) && ss@.len() == fields@.len()
            && forall|i: int|
            0 <= i < fields@.len() ==> schema_matches(fields@[i], #[trigger] ss@[i]),
        _ => false,
    }
}

/// Whether a shape list is the pointwise translation of a type list.
pub open spec fn schemas_match(ts: Seq<VmType>, ss: Seq<FuzzerType>) -> bool {
    ss.len() == ts.len() && forall|i: int|
        0 <= i < ts.len() ==> schema_matches(ts[i], #[trigger] ss[i])
}

/// The index of the first module with the given declared name.
pub open spec fn module_index(ms: Seq<ModuleSig>, name: Seq<char>) -> Option<int>
    decreases ms,
{
    if ms.len() == 0 {
        Option::None
    } else if ms[0].name@ == name {
        Option::Some(0int)
    } else {
        match module_index(ms.subrange(1, ms.len() as int), name) {
            Option::Some(i) => Option::Some(i + 1),
            Option::None => Option::None,
        }
    }
}

/// The index of the first function with the given short name.
pub open spec fn function_index(fs: Seq<FunctionSig>, name: Seq<char>) -> Option<int>
    decreases fs,
{
    if fs.len() == 0 {
        Option::None
    } else if fs[0].name@ == name {
        Option::Some(0int)
    } else {
        match function_index(fs.subrange(1, fs.len() as int), name) {
            Option::Some(i) => Option::Some(i + 1),
            Option::None => Option::None,
        }
    }
}

/// If the first `i` names miss and the name at `i` hits, `i` is the first
/// module match.
proof fn lemma_module_index_found(ms: Seq<ModuleSig>, name: Seq<char>, i: int)
    requires
        0 <= i < ms.len(),
        ms[i].name@ == name,
        forall|j: int| 0 <= j < i ==> (#[trigger] ms[j].name@) != name,
    ensures
        module_index(ms, name) == Option::Some(i),
    decreases i,
{
    if i > 0 {
        let tail = ms.subrange(1, ms.len() as int);
        assert(tail[i - 1] == ms[i]);
        assert forall|j: int| 0 <= j < i - 1 implies (#[trigger] tail[j].name@) != name by {
            assert(tail[j] == ms[j + 1]);
        }
        lemma_module_index_found(tail, name, i - 1);
    }
}

/// If every name misses, there is no module match.
proof fn lemma_module_index_none(ms: Seq<ModuleSig>, name: Seq<char>)
    requires
        forall|j: int| 0 <= j < ms.len() ==> (#[trigger] ms[j].name@) != name,
    ensures
        module_index(ms, name) is None,
    decreases ms.len(),
{
    if ms.len() > 0 {
        let tail = ms.subrange(1, ms.len() as int);
        assert forall|j: int| 0 <= j < tail.len() implies (#[trigger] tail[j].name@) != name by {
            assert(tail[j] == ms[j + 1]);
        }
        lemma_module_index_none(tail, name);
    }
}

/// If the first `i` names miss and the name at `i` hits, `i` is the first
/// function match.
proof fn lemma_function_index_found(fs: Seq<FunctionSig>, name: Seq<char>, i: int)
    requires
        0 <= i < fs.len(),
        fs[i].name@ == name,
        forall|j: int| 0 <= j < i ==> (#[trigger] fs[j].name@) != name,
    ensures
        function_index(fs, name) == Option::Some(i),
    decreases i,
{
    if i > 0 {
        let tail = fs.subrange(1, fs.len() as int);
        assert(tail[i - 1] == fs[i]);
        assert forall|j: int| 0 <= j < i - 1 implies (#[trigger] tail[j].name@) != name by {
            assert(tail[j] == fs[j + 1]);
        }
        lemma_function_index_found(tail, name, i - 1);
    }
}

/// If every name misses, there is no function match.
proof fn lemma_function_index_none(fs: Seq<FunctionSig>, name: Seq<char>)
    requires
        forall|j: int| 0 <= j < fs.len() ==> (#[trigger] fs[j].name@) != name,
    ensures
        function_index(fs, name) is None,
    decreases fs.len(),
{
    if fs.len() > 0 {
        let tail = fs.subrange(1, fs.len() as int);
        assert forall|j: int| 0 <= j < tail.len() implies (#[trigger] tail[j].name@) != name by {
            assert(tail[j] == fs[j + 1]);
        }
        lemma_function_index_none(tail, name);
    }
}

/// If the first `i` types are supported and the type at `i` is not, the
/// list reports the kind of the type at `i`.
proof fn lemma_first_bad_list_at(ts: Seq<VmType>, i: int)
    requires
        0 <= i < ts.len(),
        !supported(ts[i]),
        forall|j: int| 0 <= j < i ==> supported(#[trigger] ts[j]),
    ensures
        first_bad_list(ts) == first_bad(ts[i]),
    decreases i,
{
    if i > 0 {
        let tail = ts.subrange(1, ts.len() as int);
        assert(tail[i - 1] == ts[i]);
        assert forall|j: int| 0 <= j < i - 1 implies supported(#[trigger] tail[j]) by {
            assert(tail[j] == ts[j + 1]);
        }
        lemma_first_bad_list_at(tail, i - 1);
    }
}

/// Translate one model type into its shape; an unsupported kind is
/// rejected, reporting its leftmost unsupported node.
pub fn schema_of_type(t: &VmType) -> (r: Result<FuzzerType, AbiError>)
    ensures
        r is Ok <==> supported(*t),
        (r matches Ok(s) ==> schema_matches(*t, s)),
        (r matches Err(e) ==> e matches AbiError::UnsupportedParameterType { kind } && kind@
            == first_bad(*t)),
    decreases *t,
{
    match t {
        VmType::Bool => Ok(FuzzerType::Bool),
        VmType::U8 => Ok(FuzzerType::U8),
        VmType::U16 => Ok(FuzzerType::U16),
        VmType::U32 => Ok(FuzzerType::U32),
        VmType::U64 => Ok(FuzzerType::U64),
        VmType::U128 => Ok(FuzzerType::U128),
        VmType::U256 => Ok(FuzzerType::U256),
        VmType::Address => Ok(FuzzerType::Address),
        VmType::Signer => Ok(FuzzerType::Signer),
        VmType::Vector(inner) => {
            match schema_of_type(inner) {
                Ok(s) => Ok(FuzzerType::Vector(Box::new(s))),
                Err(e) => Err(e),
            }
        },
        VmType::Struct(fields) => {
            match schema_of_list(fields) {
                Ok(ss) => Ok(FuzzerType::Struct(ss)),
                Err(e) => Err(e),
            }
        },
        VmType::Reference => Err(
            AbiError::UnsupportedParameterType { kind: String::from_str("Reference") },
        ),
        VmType::TypeParameter => Err(
            AbiError::UnsupportedParameterType { kind: String::from_str("TypeParameter") },
        ),
        VmType::Tuple => Err(AbiError::UnsupportedParameterType { kind: String::from_str("Tuple") }),
        VmType::Function => Err(
            AbiError::UnsupportedParameterType { kind: String::from_str("Function") },
        ),
        VmType::Other => Err(AbiError::UnsupportedParameterType { kind: String::from_str("Other") }),
    }
}

/// Translate a list of model types, left to right; the first unsupported
/// kind is reported.
pub fn schema_of_list(ts: &Vec<VmType>) -> (r: Result<Vec<FuzzerType>, AbiError>)
    ensures
        r is Ok <==> list_supported(ts@),
        (r matches Ok(ss) ==> schemas_match(ts@, ss@)),
        (r matches Err(e) ==> e matches AbiError::UnsupportedParameterType { kind } && kind@
            == first_bad_list(ts@)),
    decreases ts@,
{
    let mut out: Vec<FuzzerType> = Vec::new();
    let mut i: usize = 0;
    while i < ts.len()
        invariant
            i <= ts@.len(),
            out@.len() == i,
            forall|j: int| 0 <= j < i ==> supported(#[trigger] ts@[j]),
            forall|j: int| 0 <= j < i ==> schema_matches(ts@[j], #[trigger] out@[j]),
        decreases ts@.len() - i,
    {
        match schema_of_type(&ts[i]) {
            Ok(s) => {
                out.push(s);
            },
            Err(e) => {
                proof {
                    lemma_first_bad_list_at(ts@, i as int);
                }
                return Err(e);
            },
        }
        i = i + 1;
    }
    Ok(out)
}

/// Recover the target's signature from the program model: locate the
/// module by declared name, then the first function with the target's
/// short name, and translate its parameter types.  The target's bytecode
/// length is kept as the coverage denominator.
pub fn recover_abi(modules: &Vec<ModuleSig>, target_module: &str, target_function: &str) -> (r:
    Result<TargetAbi, AbiError>)
    ensures
        (module_index(modules@, target_module@) is None <==> r matches Err(
            AbiError::ModuleNotFound,
        )),
        (module_index(modules@, target_module@) matches Some(mi) ==> {
            let fs = modules@[mi].functions@;
            &&& (function_index(fs, target_function@) is None <==> r matches Err(
                AbiError::FunctionNotFound,
            ))
            &&& (function_index(fs, target_function@) matches Some(fi) ==> {
                let params = fs[fi].params@;
                &&& (list_supported(params) <==> r is Ok)
                &&& (r matches Ok(abi) ==> schemas_match(params, abi.params@)
                    && abi.max_coverage == fs[fi].bytecode_len)
                &&& (!list_supported(params) ==> (r matches Err(
                    AbiError::UnsupportedParameterType { kind },
                ) && kind@ == first_bad_list(params)))
            })
        }),
{
    let tm = String::from_str(target_module);
    let tf = String::from_str(target_function);
    let mut i: usize = 0;
    while i < modules.len()
        invariant
            i <= modules@.len(),
            tm@ == target_module@,
            tf@ == target_function@,
            forall|j: int| 0 <= j < i ==> (#[trigger] modules@[j].name@) != target_module@,
        decreases modules@.len() - i,
    {
        if modules[i].name == tm {
            proof {
                lemma_module_index_found(modules@, target_module@, i as int);
            }
            let functions = &modules[i].functions;
            let mut k: usize = 0;
            while k < functions.len()
                invariant
                    k <= functions@.len(),
                    tf@ == target_function@,
                    i < modules@.len(),
                    module_index(modules@, target_module@) == Option::Some(i as int),
                    functions@ == modules@[i as int].functions@,
                    forall|j: int| 0 <= j < k ==> (#[trigger] functions@[j].name@)
                        != target_function@,
                decreases functions@.len() - k,
            {
                if functions[k].name == tf {
                    proof {
                        lemma_function_index_found(functions@, target_function@, k as int);
                    }
                    let f = &functions[k];
                    match schema_of_list(&f.params) {
                        Ok(params) => {
                            return Ok(TargetAbi { params, max_coverage: f.bytecode_len });
                        },
                        Err(e) => {
                            return Err(e);
                        },
                    }
                }
                k = k + 1;
            }
            proof {
                lemma_function_index_none(functions@, target_function@);
            }
            return Err(AbiError::FunctionNotFound);
        }
        i = i + 1;
    }
    proof {
        lemma_module_index_none(modules@, target_module@);
    }
    Err(AbiError::ModuleNotFound)
}

} // verus!
