use move_fuzzer::driver::{
    combine_signers_and_args, plan_input, Cli, CoverageAction, CoverageTap, InputPlan,
    TargetFunction,
};
use move_fuzzer::render::{debug_bytes, dec_u64};
use move_fuzzer::schema::{FuzzerType, Parameters};
use move_fuzzer::Corpus;

fn cli(coverage: bool, dir: Option<String>) -> Cli {
    Cli {
        root_module_path: String::from("m.mv"),
        target_module: String::from("m"),
        target_function: String::from("f"),
        coverage,
        coverage_map_dir: dir,
        extra: None,
    }
}

#[test]
fn corpus_codes_match_the_engine_convention() {
    assert_eq!(Corpus::Keep.to_libfuzzer_code(), 0);
    assert_eq!(Corpus::Reject.to_libfuzzer_code(), -1);
    assert_eq!(Corpus::from(()).to_libfuzzer_code(), 0);
}

#[test]
fn coverage_map_dir_is_required_exactly_with_coverage() {
    assert!(cli(true, Some(String::from("cov"))).validate());
    assert!(cli(false, None).validate());
    assert!(!cli(true, None).validate());
    assert!(!cli(false, Some(String::from("cov"))).validate());
}

#[test]
fn coverage_paths_lie_under_the_map_dir() {
    let tap = CoverageTap::new(true, Some(String::from("cov")));
    assert_eq!(tap.trace_path(), "cov/.trace");
    assert_eq!(tap.coverage_map_path(), "cov/.coverage_map.mvcov");
}

#[test]
fn debug_dump_path_suppresses_execution() {
    assert_eq!(plan_input(true), InputPlan::DumpOnly);
    assert_eq!(plan_input(false), InputPlan::Execute);
}

#[test]
fn debug_bytes_renders_like_the_slice_debug_form() {
    for bytes in [vec![], vec![0u8], vec![1, 2, 255], vec![7, 7, 7, 7]] {
        assert_eq!(debug_bytes(&bytes), format!("{:?}", bytes.as_slice()));
    }
}

#[test]
fn decimal_rendering_is_exact() {
    assert_eq!(dec_u64(0), "0");
    assert_eq!(dec_u64(7), "7");
    assert_eq!(dec_u64(10), "10");
    assert_eq!(dec_u64(65535), "65535");
    assert_eq!(dec_u64(u64::MAX), format!("{}", u64::MAX));
}

#[test]
fn shape_renderings_follow_the_declared_forms() {
    assert_eq!(FuzzerType::U8.render(), "U8");
    assert_eq!(
        FuzzerType::Vector(Box::new(FuzzerType::U64)).render(),
        "Vector(U64)"
    );
    assert_eq!(FuzzerType::Struct(vec![]).render(), "Struct([])");
    assert_eq!(
        FuzzerType::Struct(vec![FuzzerType::U8, FuzzerType::Bool]).render(),
        "Struct([ U8, Bool ])"
    );
    assert_eq!(
        FuzzerType::Vector(Box::new(FuzzerType::Struct(vec![FuzzerType::U8]))).render_debug(),
        "Vector(Struct([U8]))"
    );
}

#[test]
fn parameter_lists_render_bracketed() {
    assert_eq!(Parameters(vec![]).render(), "[]");
    assert_eq!(
        Parameters(vec![FuzzerType::U64, FuzzerType::Address]).render(),
        "[ U64, Address ]"
    );
}

#[test]
fn target_function_holds_name_and_shapes() {
    let t = TargetFunction { name: String::from("f"), args: vec![FuzzerType::U8] };
    assert_eq!(t.name, "f");
    assert_eq!(t.args, vec![FuzzerType::U8]);
}

#[test]
fn coverage_actions_follow_the_tap_state() {
    let on = CoverageTap::new(true, Some(String::from("cov")));
    let off = CoverageTap::new(false, None);
    assert_eq!(on.before_invocation(), CoverageAction::DeleteTrace);
    assert_eq!(off.before_invocation(), CoverageAction::DoNothing);
    assert_eq!(on.after_invocation(true), CoverageAction::ExportMap);
    assert_eq!(on.after_invocation(false), CoverageAction::DeleteTrace);
    assert_eq!(off.after_invocation(true), CoverageAction::DoNothing);
    assert_eq!(off.after_invocation(false), CoverageAction::DoNothing);
}

#[test]
fn signers_precede_the_ordinary_arguments() {
    let r = combine_signers_and_args(vec![vec![1], vec![2]], vec![vec![3, 4]]);
    assert_eq!(r, vec![vec![1], vec![2], vec![3, 4]]);
    let r = combine_signers_and_args(vec![], vec![vec![9]]);
    assert_eq!(r, vec![vec![9]]);
}
