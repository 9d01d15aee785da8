//! The driver-facing decisions of the worker.
//!
//! The fuzzing engine hands the worker a command line at initialisation and
//! raw bytes per input.  This module holds the decisions around that
//! surface: validating the command line, the target as the runner keeps it,
//! the coverage tap's file paths, and the choice the per-input entry makes
//! between executing the target and writing a debug dump.

use vstd::prelude::*;

use crate::project::{join_path, path_concat};
use crate::schema::FuzzerType;

verus! {

/// The worker's command line, as the engine passes it before taking over:
/// where the compiled module lies, which module and function to fuzz,
/// whether to collect coverage and where to write the maps, and a trailing
/// list forwarded to the engine untouched.
#[derive(Debug)]
pub struct Cli {
    /// The path of the root compiled module file.
    pub root_module_path: String,
    /// The declared name of the target module.
    pub target_module: String,
    /// The short name of the target function.
    pub target_function: String,
    /// Whether to collect instruction coverage.
    pub coverage: bool,
    /// Where to write coverage maps; required exactly when coverage is on.
    pub coverage_map_dir: Option<String>,
    /// Arguments forwarded to the engine.
    pub extra: Option<Vec<String>>,
}

impl Cli {
    /// The coverage-map directory accompanies the coverage flag, and only
    /// then.
    pub open spec fn wf(&self) -> bool {
        self.coverage <==> self.coverage_map_dir is Some
    }

    /// Whether the command line is consistent.
    pub fn validate(&self) -> (r: bool)
        ensures
            r == self.wf(),
    {
        match &self.coverage_map_dir {
            Some(_) => self.coverage,
            None => !self.coverage,
        }
    }
}

/// The target as the runner holds it: the function's short name and one
/// shape per parameter.
#[derive(Debug)]
pub struct TargetFunction {
    /// The target function's short name.
    pub name: String,
    /// The recovered parameter shapes, in order.
    pub args: Vec<FuzzerType>,
}

/// The per-invocation coverage tap: whether tracing is on, and where the
/// trace and the coverage maps live.
#[derive(Debug)]
pub struct CoverageTap {
    /// Whether coverage collection is enabled.
    pub enabled: bool,
    /// The directory holding the trace file and the coverage maps.
    pub map_dir: Option<String>,
}

impl CoverageTap {
    /// An enabled tap knows its directory.
    pub open spec fn wf(&self) -> bool {
        self.enabled ==> self.map_dir is Some
    }

    /// A tap over the given directory.
    pub fn new(enabled: bool, map_dir: Option<String>) -> (t: Self)
        requires
            enabled ==> map_dir is Some,
        ensures
            t.wf(),
            t.enabled == enabled,
            t.map_dir == map_dir,
    {
        CoverageTap { enabled, map_dir }
    }

    /// The transient trace file the VM writes to: `.trace` under the map
    /// directory.  It is deleted before each invocation and after failed
    /// ones.
    pub fn trace_path(&self) -> (r: String)
        requires
            self.wf(),
            self.enabled,
        ensures
            self.map_dir matches Some(d) && r@ == path_concat(d@, ".trace"@),
    {
        match &self.map_dir {
            Some(d) => join_path(d.as_str(), ".trace"),
            None => String::new(),
        }
    }

    /// Where a successful invocation's coverage map is written:
    /// `.coverage_map.mvcov` under the map directory, overwritten each
    /// run.
    pub fn coverage_map_path(&self) -> (r: String)
        requires
            self.wf(),
            self.enabled,
        ensures
            self.map_dir matches Some(d) && r@ == path_concat(d@, ".coverage_map.mvcov"@),
    {
        match &self.map_dir {
            Some(d) => join_path(d.as_str(), ".coverage_map.mvcov"),
            None => String::new(),
        }
    }
}

/// A filesystem step the coverage tap asks for around one invocation.
#[derive(Debug, PartialEq, Eq)]
pub enum CoverageAction {
    /// Leave the coverage directory untouched.
    DoNothing,
    /// Delete the trace file, if present.
    DeleteTrace,
    /// Convert the trace file into the coverage map, then delete the
    /// trace.
    ExportMap,
}

impl CoverageTap {
    /// Before an invocation a coverage-enabled run clears any stale trace
    /// file; a disabled tap touches nothing.
    pub fn before_invocation(&self) -> (a: CoverageAction)
        ensures
            self.enabled <==> a is DeleteTrace,
            !self.enabled <==> a is DoNothing,
    {
        if self.enabled {
            CoverageAction::DeleteTrace
        } else {
            CoverageAction::DoNothing
        }
    }

    /// After an invocation a coverage-enabled run exports the trace as the
    /// coverage map on success and deletes the partial trace on failure;
    /// a disabled tap touches nothing.  So each successful invocation
    /// writes exactly one coverage map and leaves no trace file behind.
    pub fn after_invocation(&self, success: bool) -> (a: CoverageAction)
        ensures
            (self.enabled && success) <==> a is ExportMap,
            (self.enabled && !success) <==> a is DeleteTrace,
            !self.enabled <==> a is DoNothing,
    {
        if !self.enabled {
            CoverageAction::DoNothing
        } else if success {
            CoverageAction::ExportMap
        } else {
            CoverageAction::DeleteTrace
        }
    }
}

/// Deleting the trace file never touches the exported coverage map: under
/// any directory the two paths differ.
pub proof fn lemma_trace_map_paths_differ(dir: Seq<char>)
    ensures
        path_concat(dir, ".trace"@) != path_concat(dir, ".coverage_map.mvcov"@),
{
    reveal_strlit(".trace");
    reveal_strlit(".coverage_map.mvcov");
    assert(path_concat(dir, ".trace"@).len() != path_concat(dir, ".coverage_map.mvcov"@).len());
}

/// Chain the serialised signer arguments before the serialised ordinary
/// arguments, each already in the VM's per-argument byte encoding.  The
/// harness currently produces no signers, but the invocation interface
/// takes them first.
pub fn combine_signers_and_args(signers: Vec<Vec<u8>>, args: Vec<Vec<u8>>) -> (r: Vec<Vec<u8>>)
    ensures
        r@ == signers@ + args@,
{
    let mut r = signers;
    let mut rest = args;
    let ghost signers0 = r@;
    let ghost args0 = rest@;
    while rest.len() > 0
        invariant
            signers0 + args0 =~= r@ + rest@,
        decreases rest@.len(),
    {
        let ghost rg = rest@;
        let a = rest.remove(0);
        r.push(a);
        proof {
            assert(rest@ =~= rg.subrange(1, rg.len() as int));
            assert(r@ + rest@ =~= r@.drop_last() + rg);
        }
    }
    proof {
        assert(signers0 + args0 =~= r@);
    }
    r
}

/// What the per-input entry does with an input.
#[derive(Debug, PartialEq, Eq)]
pub enum InputPlan {
    /// Write the input's debug rendering to the debug-dump path and keep
    /// the input, without loading or invoking the VM and without touching
    /// the coverage directory.
    DumpOnly,
    /// Execute the target on the input.
    Execute,
}

/// The per-input decision: when the debug-dump path is set the input is
/// only dumped, never executed; otherwise it is executed.
pub fn plan_input(debug_path_set: bool) -> (p: InputPlan)
    ensures
        p is DumpOnly <==> debug_path_set,
        p is Execute <==> !debug_path_set,
{
    if debug_path_set {
        InputPlan::DumpOnly
    } else {
        InputPlan::Execute
    }
}

} // verus!
