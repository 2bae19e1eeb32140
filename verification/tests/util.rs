use eggcc::util::{
    list_display, FileKind, FreshNameGen, InterpMode, Interpretable, LLVMOptLevel, Rendering, Run,
    RunMode, RunOutput, Schedule, Visualization,
};

const ALL_MODES: [RunMode; 24] = [
    RunMode::Parse,
    RunMode::BrilToJson,
    RunMode::Optimize,
    RunMode::RvsdgConversion,
    RunMode::DagConversion,
    RunMode::DagOptimize,
    RunMode::OptimizedRvsdg,
    RunMode::OptimizedPrettyPrint,
    RunMode::PrettyPrint,
    RunMode::Egglog,
    RunMode::CheckExtractIdentical,
    RunMode::RvsdgRoundTrip,
    RunMode::RvsdgRoundTripToExecutable,
    RunMode::DagRoundTrip,
    RunMode::DagToRvsdg,
    RunMode::ToCfg,
    RunMode::CfgRoundTrip,
    RunMode::OptimizedCfg,
    RunMode::OptimizeDirectJumps,
    RunMode::RvsdgToCfg,
    RunMode::Cranelift,
    RunMode::LLVM,
    RunMode::TestBenchmark,
    RunMode::TestPrettyPrint,
];

#[test]
fn modes_that_produce_a_program_to_interpret() {
    let interpretable: Vec<RunMode> =
        ALL_MODES.iter().copied().filter(|m| m.produces_interpretable()).collect();
    assert_eq!(
        interpretable,
        vec![
            RunMode::Parse,
            RunMode::Optimize,
            RunMode::DagConversion,
            RunMode::DagOptimize,
            RunMode::RvsdgRoundTrip,
            RunMode::RvsdgRoundTripToExecutable,
            RunMode::DagRoundTrip,
            RunMode::CfgRoundTrip,
            RunMode::OptimizeDirectJumps,
            RunMode::Cranelift,
            RunMode::LLVM,
        ]
    );
}

#[test]
fn interp_modes() {
    assert!(InterpMode::Interp.should_interp());
    assert!(InterpMode::InterpFast.should_interp());
    assert!(!InterpMode::NoInterp.should_interp());
}

#[test]
fn mode_names_are_distinct_and_lower_case() {
    let names: Vec<&str> = ALL_MODES.iter().map(|m| m.name()).collect();
    for (i, a) in names.iter().enumerate() {
        assert!(a.chars().all(|c| c.is_ascii_lowercase() || c == '-'));
        for b in &names[i + 1..] {
            assert_ne!(a, b);
        }
    }
    assert_eq!(RunMode::RvsdgRoundTripToExecutable.name(), "rvsdg-round-trip-to-executable");
    assert_eq!(RunMode::LLVM.name(), "llvm");
    assert_eq!(RunMode::BrilToJson.name(), "bril-to-json");
    assert_eq!(LLVMOptLevel::O0.name(), "O0");
    assert_eq!(LLVMOptLevel::O1.name(), "O1");
    assert_eq!(LLVMOptLevel::O2.name(), "O2");
    assert_eq!(LLVMOptLevel::O3.name(), "O3");
}

#[test]
fn new_run_has_defaults() {
    let run = Run::new(RunMode::Optimize);
    assert_eq!(
        run,
        Run {
            test_type: RunMode::Optimize,
            interp: InterpMode::NoInterp,
            optimize_egglog: None,
            optimize_brilift: None,
            optimize_bril_llvm: None,
            add_timing: false,
            schedule: Schedule::Parallel,
        }
    );
    let bench = Run::test_benchmark_config();
    assert_eq!(bench, Run::new(RunMode::TestBenchmark));
    let lift = Run::compile_brilift_config(false, InterpMode::InterpFast);
    assert_eq!(lift.test_type, RunMode::Cranelift);
    assert_eq!(lift.optimize_brilift, Some(false));
    assert_eq!(lift.interp, InterpMode::InterpFast);
    assert_eq!(lift.optimize_egglog, None);
}

#[test]
fn run_names() {
    assert_eq!(Run::new(RunMode::Optimize).name("add"), "add-optimize");
    let mut seq = Run::new(RunMode::Optimize);
    seq.schedule = Schedule::Sequential;
    assert_eq!(seq.name("add"), "add-optimize-sequential");
    assert_eq!(
        Run::compile_brilift_config(true, InterpMode::Interp).name("fib"),
        "fib-cranelift-O3"
    );
    assert_eq!(
        Run::compile_brilift_config(false, InterpMode::Interp).name("fib"),
        "fib-cranelift-O0"
    );
    let mut llvm = Run::new(RunMode::LLVM);
    llvm.optimize_egglog = Some(true);
    llvm.optimize_bril_llvm = Some(LLVMOptLevel::O3);
    assert_eq!(llvm.name("fib"), "fib-llvm-O3-eggcc");
    llvm.optimize_egglog = Some(false);
    llvm.optimize_bril_llvm = Some(LLVMOptLevel::O0);
    llvm.schedule = Schedule::Sequential;
    assert_eq!(llvm.name("fib"), "fib-llvm-O0-sequential");
    assert_eq!(Run::new(RunMode::RvsdgToCfg).name(""), "-rvsdg-to-cfg");
}

#[test]
fn configurations_for_testing() {
    let runs = Run::all_configurations_for(false);
    assert_eq!(runs.len(), 13);
    let modes: Vec<RunMode> = runs.iter().map(|r| r.test_type).collect();
    assert_eq!(
        modes,
        vec![
            RunMode::RvsdgConversion,
            RunMode::RvsdgRoundTrip,
            RunMode::CfgRoundTrip,
            RunMode::OptimizeDirectJumps,
            RunMode::RvsdgToCfg,
            RunMode::DagConversion,
            RunMode::DagOptimize,
            RunMode::DagRoundTrip,
            RunMode::Optimize,
            RunMode::CheckExtractIdentical,
            RunMode::TestPrettyPrint,
            RunMode::Optimize,
            RunMode::Cranelift,
        ]
    );
    for run in &runs[..11] {
        let expected = if run.test_type.produces_interpretable() {
            InterpMode::Interp
        } else {
            InterpMode::NoInterp
        };
        assert_eq!(run.interp, expected);
        assert_eq!(run.schedule, Schedule::Parallel);
    }
    assert_eq!(runs[11].schedule, Schedule::Sequential);
    assert_eq!(runs[11].interp, InterpMode::NoInterp);
    assert_eq!(runs[12], Run::compile_brilift_config(true, InterpMode::Interp));
    // every run on one program has a name of its own
    let names: Vec<String> = runs.iter().map(|r| r.name("p")).collect();
    for (i, a) in names.iter().enumerate() {
        for b in &names[i + 1..] {
            assert_ne!(a, b);
        }
    }

    let with_llvm = Run::all_configurations_for(true);
    assert_eq!(with_llvm.len(), 17);
    assert_eq!(&with_llvm[..13], &runs[..]);
    let flags: Vec<(Option<bool>, Option<LLVMOptLevel>)> =
        with_llvm[13..].iter().map(|r| (r.optimize_egglog, r.optimize_bril_llvm)).collect();
    assert_eq!(
        flags,
        vec![
            (Some(true), Some(LLVMOptLevel::O0)),
            (Some(true), Some(LLVMOptLevel::O3)),
            (Some(false), Some(LLVMOptLevel::O0)),
            (Some(false), Some(LLVMOptLevel::O3)),
        ]
    );
    assert!(with_llvm[13..]
        .iter()
        .all(|r| r.test_type == RunMode::LLVM && r.interp == InterpMode::Interp));
}

#[test]
fn fresh_names_count_up() {
    let mut names = FreshNameGen::new();
    assert_eq!(names.fresh(), "v0");
    assert_eq!(names.fresh(), "v1");
    assert_eq!(names.fresh_usize(), 2);
    for _ in 3..10 {
        names.fresh();
    }
    assert_eq!(names.fresh(), "v10");
    for _ in 11..1234 {
        names.fresh_usize();
    }
    assert_eq!(names.fresh(), "v1234");
}

#[test]
fn list_display_puts_the_separator_between_items() {
    let items = vec!["a".to_string(), "bc".to_string(), "".to_string(), "d".to_string()];
    assert_eq!(list_display(&items, ", "), "a, bc, , d");
    assert_eq!(list_display(&items[..1].to_vec(), ", "), "a");
    assert_eq!(list_display(&vec![], ", "), "");
    assert_eq!(list_display(&items, ""), "abcd");
}

#[test]
fn run_output_holds_its_visualizations() {
    let out = RunOutput {
        visualizations: vec![Visualization {
            result: "digraph {}".to_string(),
            file_extension: ".svg".to_string(),
            name: "main".to_string(),
        }],
        result_interpreted: Some("3\n".to_string()),
        original_interpreted: None,
        cycles_taken: Some(12),
    };
    let copy = out.clone();
    assert_eq!(copy.visualizations.len(), 1);
    assert_eq!(copy.visualizations[0].name, "main");
    assert_eq!(copy.visualizations[0].file_extension, ".svg");
    assert_eq!(copy.result_interpreted.as_deref(), Some("3\n"));
    assert_eq!(copy.cycles_taken, Some(12));
}

#[test]
fn a_mode_hands_on_a_program_exactly_where_it_produces_one() {
    for mode in ALL_MODES {
        for add_timing in [false, true] {
            assert_eq!(mode.produces(add_timing).is_some(), mode.produces_interpretable());
        }
    }
    assert_eq!(RunMode::Parse.produces(false), Some(Interpretable::Bril));
    assert_eq!(RunMode::DagOptimize.produces(true), Some(Interpretable::TreeProgram));
    assert_eq!(RunMode::Cranelift.produces(true), Some(Interpretable::Executable));
    assert_eq!(RunMode::LLVM.produces(false), Some(Interpretable::Executable));
    assert_eq!(RunMode::LLVM.produces(true), Some(Interpretable::CycleMeasuringExecutable));
    assert_eq!(
        RunMode::RvsdgRoundTripToExecutable.produces(true),
        Some(Interpretable::CycleMeasuringExecutable)
    );
    assert_eq!(RunMode::Egglog.produces(false), None);
}

#[test]
fn renderings_and_their_files() {
    assert_eq!(RunMode::Parse.renders(), Rendering::Whole(FileKind::Bril));
    assert_eq!(RunMode::BrilToJson.renders(), Rendering::Whole(FileKind::Json));
    assert_eq!(RunMode::RvsdgConversion.renders(), Rendering::Whole(FileKind::Svg));
    assert_eq!(RunMode::DagOptimize.renders(), Rendering::Whole(FileKind::Svg));
    assert_eq!(RunMode::PrettyPrint.renders(), Rendering::Whole(FileKind::Rust));
    assert_eq!(RunMode::OptimizedPrettyPrint.renders(), Rendering::Whole(FileKind::Rust));
    assert_eq!(RunMode::Egglog.renders(), Rendering::Whole(FileKind::Egglog));
    assert_eq!(RunMode::ToCfg.renders(), Rendering::PerFunction);
    assert_eq!(RunMode::RvsdgToCfg.renders(), Rendering::PerFunction);
    assert_eq!(RunMode::OptimizedCfg.renders(), Rendering::PerFunction);
    assert_eq!(RunMode::Cranelift.renders(), Rendering::Nothing);
    assert_eq!(RunMode::TestBenchmark.renders(), Rendering::Nothing);
    assert_eq!(RunMode::CheckExtractIdentical.renders(), Rendering::Nothing);
    let whole = ALL_MODES.iter().filter(|m| matches!(m.renders(), Rendering::Whole(_))).count();
    assert_eq!(whole, 15);

    assert_eq!(FileKind::Bril.extension(), ".bril");
    assert_eq!(FileKind::Json.extension(), ".json");
    assert_eq!(FileKind::Svg.extension(), ".svg");
    assert_eq!(FileKind::Rust.extension(), ".rs");
    assert_eq!(FileKind::Egglog.extension(), ".egg");
}

#[test]
fn runs_that_cannot_be_carried_out() {
    assert!(Run::all_configurations_for(true).iter().all(|r| r.can_run()));
    assert!(Run::test_benchmark_config().can_run());
    assert!(Run::new(RunMode::Optimize).can_run());

    // the backends need their flags
    assert!(!Run::new(RunMode::Cranelift).can_run());
    let mut llvm = Run::new(RunMode::LLVM);
    assert!(!llvm.can_run());
    llvm.optimize_egglog = Some(false);
    assert!(!llvm.can_run());
    llvm.optimize_bril_llvm = Some(LLVMOptLevel::O2);
    assert!(llvm.can_run());

    // a benchmark test sets no flag of its own
    let mut bench = Run::test_benchmark_config();
    bench.optimize_egglog = Some(true);
    assert!(!bench.can_run());
    let mut bench = Run::test_benchmark_config();
    bench.optimize_brilift = Some(false);
    assert!(!bench.can_run());

    // the rewriting program exists under the parallel schedule only
    let mut rules = Run::new(RunMode::Egglog);
    assert!(rules.can_run());
    rules.schedule = Schedule::Sequential;
    assert!(!rules.can_run());
    let mut optimize = Run::new(RunMode::Optimize);
    optimize.schedule = Schedule::Sequential;
    assert!(optimize.can_run());

    // nothing to interpret
    let mut svg = Run::new(RunMode::RvsdgConversion);
    svg.interp = InterpMode::Interp;
    assert!(!svg.can_run());
    svg.interp = InterpMode::InterpFast;
    assert!(!svg.can_run());
    let mut parse = Run::new(RunMode::Parse);
    parse.interp = InterpMode::InterpFast;
    assert!(parse.can_run());
}
