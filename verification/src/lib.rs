//! Fuzzing worker for a bytecode smart-contract virtual machine.
//!
//! The worker cooperates with a libFuzzer-compatible engine: the engine owns
//! the input-generation loop, while this library holds the logic the worker
//! needs per input — recovering the target function's parameter schemas,
//! decoding a raw byte stream into typed values, classifying the outcome of
//! an invocation, and computing the paths and decisions around coverage
//! collection and debug dumps.  Everything here is pure computation on plain
//! values; the process shell (CLI parsing, file I/O, the VM session itself)
//! lives outside the library and hands values in and out.

use vstd::prelude::*;

pub mod abi;
pub mod driver;
pub mod project;
pub mod reader;
pub mod render;
pub mod schema;
pub mod status;
pub mod store;
pub mod synth;
pub mod value;

verus! {

/// Whether the fuzzing engine should keep an input in its corpus or reject
/// it, as returned by a fuzz target to the engine.
#[derive(Debug, Clone, Copy, PartialEq, Eq)]
pub enum Corpus {
    /// Keep the input in the corpus.
    Keep,
    /// Reject the input and do not keep it in the corpus.
    Reject,
}

impl Corpus {
    /// The integer code the engine's native interface understands:
    /// `0` keeps the input, `-1` rejects it.
    pub fn to_libfuzzer_code(self) -> (code: i32)
        ensures
            self is Keep ==> code == 0,
            self is Reject ==> code == -1,
    {
        match self {
            Corpus::Keep => 0,
            Corpus::Reject => -1,
        }
    }
}

impl From<()> for Corpus {
    /// A fuzz target that returns `()` keeps its input.
    fn from(_unit: ()) -> (r: Self)
        ensures
            r is Keep,
    {
        Corpus::Keep
    }
}

impl vstd::std_specs::convert::FromSpecImpl<()> for Corpus {
    open spec fn obeys_from_spec() -> bool {
        true
    }

    open spec fn from_spec(_unit: ()) -> Corpus {
        Corpus::Keep
    }
}

} // verus!
