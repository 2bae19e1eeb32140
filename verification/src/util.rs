//! Run configurations: the modes a run can take, what each produces, and
//! the records a run hands back.

use vstd::prelude::*;

verus! {

/// An optimization level of the LLVM backend.
#[derive(Debug, Clone, Copy, PartialEq, Eq, Structural)]
pub enum LLVMOptLevel {
    O0,
    O1,
    O2,
    O3,
}

/// The ways to run the compiler.
#[derive(Clone, Copy, PartialEq, Eq, Hash, Debug, Structural)]
pub enum RunMode {
    /// Parse the input program and output it unchanged.
    Parse,
    /// Convert the input program to its JSON representation.
    BrilToJson,
    /// Convert to the tree encoding, optimize, and output the program.
    Optimize,
    /// Convert the input program to an RVSDG and draw it.
    RvsdgConversion,
    /// Convert the input program to a tree-encoded expression.
    DagConversion,
    /// Convert to a tree-encoded expression and optimize it.
    DagOptimize,
    /// Optimize and output the resulting RVSDG.
    OptimizedRvsdg,
    /// Optimize and pretty-print the resulting program.
    OptimizedPrettyPrint,
    /// Pretty-print the tree-encoded program.
    PrettyPrint,
    /// Output the term-rewriting program used to optimize.
    Egglog,
    /// Check that a round trip through the term graph changes nothing.
    CheckExtractIdentical,
    /// Convert to RVSDG and back to the input language.
    RvsdgRoundTrip,
    /// Convert to RVSDG and back, then to an executable.
    RvsdgRoundTripToExecutable,
    /// Convert to the tree encoding and back to the input language.
    DagRoundTrip,
    /// Convert to the tree encoding and then back to an RVSDG.
    DagToRvsdg,
    /// Convert to a control-flow graph and draw it.
    ToCfg,
    /// Convert to a control-flow graph and back.
    CfgRoundTrip,
    /// Optimize, stopping at the control-flow graph on the way back.
    OptimizedCfg,
    /// Remove needless direct jumps.
    OptimizeDirectJumps,
    /// Convert to RVSDG, then to a control-flow graph, and draw it.
    RvsdgToCfg,
    /// Compile to an executable with the Cranelift backend.
    Cranelift,
    /// Compile to an executable with the LLVM backend.
    LLVM,
    /// Run a benchmark under several configurations and compare.
    TestBenchmark,
    /// Test the pretty printer.
    TestPrettyPrint,
}

impl RunMode {
    /// The modes whose output is a program that can be interpreted.
    pub open spec fn interpretable(self) -> bool {
        match self {
            RunMode::Parse
            | RunMode::Optimize
            | RunMode::RvsdgRoundTrip
            | RunMode::RvsdgRoundTripToExecutable
            | RunMode::DagRoundTrip
            | RunMode::CfgRoundTrip
            | RunMode::OptimizeDirectJumps
            | RunMode::DagConversion
            | RunMode::DagOptimize
            | RunMode::Cranelift
            | RunMode::LLVM => true,
            _ => false,
        }
    }

    /// Whether this mode produces a program that can be interpreted.
    pub fn produces_interpretable(&self) -> (r: bool)
        ensures
            r == self.interpretable(),
    {
        match self {
            RunMode::Parse
            | RunMode::Optimize
            | RunMode::RvsdgRoundTrip
            | RunMode::RvsdgRoundTripToExecutable
            | RunMode::DagRoundTrip
            | RunMode::CfgRoundTrip
            | RunMode::OptimizeDirectJumps
            | RunMode::DagConversion
            | RunMode::DagOptimize
            | RunMode::Cranelift
            | RunMode::LLVM => true,
            RunMode::RvsdgConversion
            | RunMode::RvsdgToCfg
            | RunMode::Egglog
            | RunMode::DagToRvsdg
            | RunMode::OptimizedRvsdg
            | RunMode::CheckExtractIdentical
            | RunMode::OptimizedPrettyPrint
            | RunMode::PrettyPrint
            | RunMode::ToCfg
            | RunMode::OptimizedCfg
            | RunMode::TestPrettyPrint
            | RunMode::TestBenchmark => false,
            RunMode::BrilToJson => false,
        }
    }
}

/// Whether, and how, the programs of a run are interpreted.
#[derive(Clone, Copy, Debug, Eq, PartialEq, Structural)]
pub enum InterpMode {
    /// Interpret the input program and the result.
    Interp,
    /// Run the input program as a compiled binary, and interpret the result.
    InterpFast,
    /// Interpret nothing.
    NoInterp,
}

impl InterpMode {
    pub fn should_interp(&self) -> (r: bool)
        ensures
            r == !(*self is NoInterp),
    {
        match self {
            InterpMode::Interp | InterpMode::InterpFast => true,
            InterpMode::NoInterp => false,
        }
    }
}

/// The kind of file that a rendering belongs in.
#[derive(Clone, Copy, Debug, PartialEq, Eq, Hash, Structural)]
pub enum FileKind {
    Bril,
    Json,
    Svg,
    Rust,
    Egglog,
}

impl FileKind {
    /// The extension of the files of this kind, with its dot.
    pub open spec fn spec_extension(self) -> Seq<char> {
        match self {
            FileKind::Bril => ".bril"@,
            FileKind::Json => ".json"@,
            FileKind::Svg => ".svg"@,
            FileKind::Rust => ".rs"@,
            FileKind::Egglog => ".egg"@,
        }
    }

    /// The extension of the files of this kind, with its dot.
    pub fn extension(&self) -> (r: &'static str)
        ensures
            r@ == self.spec_extension(),
    {
        match self {
            FileKind::Bril => ".bril",
            FileKind::Json => ".json",
            FileKind::Svg => ".svg",
            FileKind::Rust => ".rs",
            FileKind::Egglog => ".egg",
        }
    }
}

/// What a run renders for the reader.
#[derive(Clone, Copy, Debug, PartialEq, Eq, Hash, Structural)]
pub enum Rendering {
    Nothing,
    /// One file of the given kind for the whole program.
    Whole(FileKind),
    /// One drawing for each function of the program.
    PerFunction,
}

/// The kinds of result that can be interpreted.
#[derive(Clone, Copy, Debug, PartialEq, Eq, Hash, Structural)]
pub enum Interpretable {
    Bril,
    TreeProgram,
    /// An executable that also reports the cycles it took.
    CycleMeasuringExecutable,
    /// An executable that does not measure its cycles.
    Executable,
}

impl RunMode {
    /// What a run of this mode renders.
    pub open spec fn rendering(self) -> Rendering {
        match self {
            RunMode::Parse
            | RunMode::RvsdgRoundTrip
            | RunMode::DagRoundTrip
            | RunMode::Optimize
            | RunMode::CfgRoundTrip
            | RunMode::OptimizeDirectJumps => Rendering::Whole(FileKind::Bril),
            RunMode::BrilToJson => Rendering::Whole(FileKind::Json),
            RunMode::RvsdgConversion
            | RunMode::DagToRvsdg
            | RunMode::DagConversion
            | RunMode::DagOptimize
            | RunMode::OptimizedRvsdg => Rendering::Whole(FileKind::Svg),
            RunMode::PrettyPrint | RunMode::OptimizedPrettyPrint => Rendering::Whole(
                FileKind::Rust,
            ),
            RunMode::Egglog => Rendering::Whole(FileKind::Egglog),
            RunMode::OptimizedCfg | RunMode::RvsdgToCfg | RunMode::ToCfg => Rendering::PerFunction,
            RunMode::RvsdgRoundTripToExecutable
            | RunMode::CheckExtractIdentical
            | RunMode::TestPrettyPrint
            | RunMode::Cranelift
            | RunMode::LLVM
            | RunMode::TestBenchmark => Rendering::Nothing,
        }
    }

    /// What a run of this mode hands on to be interpreted, if anything; an
    /// executable from the LLVM backend measures its cycles where
    /// `add_timing` is set.
    pub open spec fn produced(self, add_timing: bool) -> Option<Interpretable> {
        match self {
            RunMode::Parse
            | RunMode::RvsdgRoundTrip
            | RunMode::DagRoundTrip
            | RunMode::Optimize
            | RunMode::CfgRoundTrip
            | RunMode::OptimizeDirectJumps => Some(Interpretable::Bril),
            RunMode::DagConversion | RunMode::DagOptimize => Some(Interpretable::TreeProgram),
            RunMode::Cranelift => Some(Interpretable::Executable),
            RunMode::RvsdgRoundTripToExecutable | RunMode::LLVM => if add_timing {
                Some(Interpretable::CycleMeasuringExecutable)
            } else {
                Some(Interpretable::Executable)
            },
            _ => None,
        }
    }

    /// What a run of this mode renders.
    pub fn renders(&self) -> (r: Rendering)
        ensures
            r == self.rendering(),
    {
        match self {
            RunMode::Parse
            | RunMode::RvsdgRoundTrip
            | RunMode::DagRoundTrip
            | RunMode::Optimize
            | RunMode::CfgRoundTrip
            | RunMode::OptimizeDirectJumps => Rendering::Whole(FileKind::Bril),
            RunMode::BrilToJson => Rendering::Whole(FileKind::Json),
            RunMode::RvsdgConversion
            | RunMode::DagToRvsdg
            | RunMode::DagConversion
            | RunMode::DagOptimize
            | RunMode::OptimizedRvsdg => Rendering::Whole(FileKind::Svg),
            RunMode::PrettyPrint | RunMode::OptimizedPrettyPrint => Rendering::Whole(
                FileKind::Rust,
            ),
            RunMode::Egglog => Rendering::Whole(FileKind::Egglog),
            RunMode::OptimizedCfg | RunMode::RvsdgToCfg | RunMode::ToCfg => Rendering::PerFunction,
            RunMode::RvsdgRoundTripToExecutable
            | RunMode::CheckExtractIdentical
            | RunMode::TestPrettyPrint
            | RunMode::Cranelift
            | RunMode::LLVM
            | RunMode::TestBenchmark => Rendering::Nothing,
        }
    }

    /// What a run of this mode hands on to be interpreted, if anything.
    pub fn produces(&self, add_timing: bool) -> (r: Option<Interpretable>)
        ensures
            r == self.produced(add_timing),
            r is Some <==> self.interpretable(),
    {
        match self {
            RunMode::Parse
            | RunMode::RvsdgRoundTrip
            | RunMode::DagRoundTrip
            | RunMode::Optimize
            | RunMode::CfgRoundTrip
            | RunMode::OptimizeDirectJumps => Some(Interpretable::Bril),
            RunMode::DagConversion | RunMode::DagOptimize => Some(Interpretable::TreeProgram),
            RunMode::Cranelift => Some(Interpretable::Executable),
            RunMode::RvsdgRoundTripToExecutable | RunMode::LLVM => {
                if add_timing {
                    Some(Interpretable::CycleMeasuringExecutable)
                } else {
                    Some(Interpretable::Executable)
                }
            },
            _ => None,
        }
    }
}

/// A mode produces an interpretable result exactly where it hands one on.
pub proof fn lemma_interpretable_is_produced(mode: RunMode, add_timing: bool)
    ensures
        mode.interpretable() <==> mode.produced(add_timing) is Some,
{
}

/// A rendering of a result, with the name and the extension of the file it
/// belongs in.
#[derive(Clone, Debug)]
pub struct Visualization {
    pub result: String,
    pub file_extension: String,
    pub name: String,
}

/// What a run hands back.
#[derive(Clone)]
pub struct RunOutput {
    pub visualizations: Vec<Visualization>,
    /// The output of interpreting the result, if it was interpreted.
    pub result_interpreted: Option<String>,
    pub original_interpreted: Option<String>,
    pub cycles_taken: Option<u64>,
}

impl LLVMOptLevel {
    /// The name of the level, as the backend's flag spells it.
    pub open spec fn spec_name(self) -> Seq<char> {
        match self {
            LLVMOptLevel::O0 => "O0"@,
            LLVMOptLevel::O1 => "O1"@,
            LLVMOptLevel::O2 => "O2"@,
            LLVMOptLevel::O3 => "O3"@,
        }
    }

    /// The name of the level, as the backend's flag spells it.
    pub fn name(&self) -> (r: &'static str)
        ensures
            r@ == self.spec_name(),
    {
        match self {
            LLVMOptLevel::O0 => "O0",
            LLVMOptLevel::O1 => "O1",
            LLVMOptLevel::O2 => "O2",
            LLVMOptLevel::O3 => "O3",
        }
    }
}

impl RunMode {
    /// The name of the mode on the command line.
    pub open spec fn spec_name(self) -> Seq<char> {
        match self {
            RunMode::Parse => "parse"@,
            RunMode::BrilToJson => "bril-to-json"@,
            RunMode::Optimize => "optimize"@,
            RunMode::RvsdgConversion => "rvsdg-conversion"@,
            RunMode::DagConversion => "dag-conversion"@,
            RunMode::DagOptimize => "dag-optimize"@,
            RunMode::OptimizedRvsdg => "optimized-rvsdg"@,
            RunMode::OptimizedPrettyPrint => "optimized-pretty-print"@,
            RunMode::PrettyPrint => "pretty-print"@,
            RunMode::Egglog => "egglog"@,
            RunMode::CheckExtractIdentical => "check-extract-identical"@,
            RunMode::RvsdgRoundTrip => "rvsdg-round-trip"@,
            RunMode::RvsdgRoundTripToExecutable => "rvsdg-round-trip-to-executable"@,
            RunMode::DagRoundTrip => "dag-round-trip"@,
            RunMode::DagToRvsdg => "dag-to-rvsdg"@,
            RunMode::ToCfg => "to-cfg"@,
            RunMode::CfgRoundTrip => "cfg-round-trip"@,
            RunMode::OptimizedCfg => "optimized-cfg"@,
            RunMode::OptimizeDirectJumps => "optimize-direct-jumps"@,
            RunMode::RvsdgToCfg => "rvsdg-to-cfg"@,
            RunMode::Cranelift => "cranelift"@,
            RunMode::LLVM => "llvm"@,
            RunMode::TestBenchmark => "test-benchmark"@,
            RunMode::TestPrettyPrint => "test-pretty-print"@,
        }
    }

    /// The name of the mode on the command line.
    pub fn name(&self) -> (r: &'static str)
        ensures
            r@ == self.spec_name(),
    {
        match self {
            RunMode::Parse => "parse",
            RunMode::BrilToJson => "bril-to-json",
            RunMode::Optimize => "optimize",
            RunMode::RvsdgConversion => "rvsdg-conversion",
            RunMode::DagConversion => "dag-conversion",
            RunMode::DagOptimize => "dag-optimize",
            RunMode::OptimizedRvsdg => "optimized-rvsdg",
            RunMode::OptimizedPrettyPrint => "optimized-pretty-print",
            RunMode::PrettyPrint => "pretty-print",
            RunMode::Egglog => "egglog",
            RunMode::CheckExtractIdentical => "check-extract-identical",
            RunMode::RvsdgRoundTrip => "rvsdg-round-trip",
            RunMode::RvsdgRoundTripToExecutable => "rvsdg-round-trip-to-executable",
            RunMode::DagRoundTrip => "dag-round-trip",
            RunMode::DagToRvsdg => "dag-to-rvsdg",
            RunMode::ToCfg => "to-cfg",
            RunMode::CfgRoundTrip => "cfg-round-trip",
            RunMode::OptimizedCfg => "optimized-cfg",
            RunMode::OptimizeDirectJumps => "optimize-direct-jumps",
            RunMode::RvsdgToCfg => "rvsdg-to-cfg",
            RunMode::Cranelift => "cranelift",
            RunMode::LLVM => "llvm",
            RunMode::TestBenchmark => "test-benchmark",
            RunMode::TestPrettyPrint => "test-pretty-print",
        }
    }
}

/// How the rewrite rules are scheduled.
#[derive(Clone, Copy, Debug, PartialEq, Eq, Structural)]
pub enum Schedule {
    Parallel,
    Sequential,
}

/// The settings of one run, apart from the program it runs on.
#[derive(Clone, Copy, Debug, PartialEq, Eq)]
pub struct Run {
    pub test_type: RunMode,
    pub interp: InterpMode,
    pub optimize_egglog: Option<bool>,
    pub optimize_brilift: Option<bool>,
    pub optimize_bril_llvm: Option<LLVMOptLevel>,
    pub add_timing: bool,
    pub schedule: Schedule,
}

/// The modes under which every program is tested.
pub open spec fn tested_modes() -> Seq<RunMode> {
    seq![
        RunMode::RvsdgConversion,
        RunMode::RvsdgRoundTrip,
        RunMode::CfgRoundTrip,
        RunMode::OptimizeDirectJumps,
        RunMode::RvsdgToCfg,
        RunMode::DagConversion,
        RunMode::DagOptimize,
        RunMode::DagRoundTrip,
        RunMode::Optimize,
        RunMode::CheckExtractIdentical,
        RunMode::TestPrettyPrint,
    ]
}

/// The run of `mode` with every other setting at its default.
pub open spec fn default_run(mode: RunMode) -> Run {
    Run {
        test_type: mode,
        interp: InterpMode::NoInterp,
        optimize_egglog: None,
        optimize_brilift: None,
        optimize_bril_llvm: None,
        add_timing: false,
        schedule: Schedule::Parallel,
    }
}

/// The run of `mode` for testing: interpreted where the mode produces
/// something to interpret.
pub open spec fn tested_run(mode: RunMode) -> Run {
    if mode.interpretable() {
        Run { interp: InterpMode::Interp, ..default_run(mode) }
    } else {
        default_run(mode)
    }
}

/// The run that compiles with the Cranelift backend.
pub open spec fn brilift_run(optimize_brilift: bool, interp: InterpMode) -> Run {
    Run { interp, optimize_brilift: Some(optimize_brilift), ..default_run(RunMode::Cranelift) }
}

/// The run that compiles with the LLVM backend.
pub open spec fn llvm_run(optimize_egglog: bool, level: LLVMOptLevel) -> Run {
    Run {
        interp: InterpMode::Interp,
        optimize_egglog: Some(optimize_egglog),
        optimize_bril_llvm: Some(level),
        ..default_run(RunMode::LLVM)
    }
}

/// Every run under which a program is tested: the tested modes, the
/// optimizer under the sequential schedule, the Cranelift baseline, and,
/// with `llvm`, the LLVM backend with and without the optimizer at the
/// lowest and the highest level.
pub open spec fn all_runs(llvm: bool) -> Seq<Run> {
    let common = tested_modes().map_values(|mode: RunMode| tested_run(mode)) + seq![
        Run { schedule: Schedule::Sequential, ..default_run(RunMode::Optimize) },
        brilift_run(true, InterpMode::Interp),
    ];
    if llvm {
        common + seq![
            llvm_run(true, LLVMOptLevel::O0),
            llvm_run(true, LLVMOptLevel::O3),
            llvm_run(false, LLVMOptLevel::O0),
            llvm_run(false, LLVMOptLevel::O3),
        ]
    } else {
        common
    }
}

impl Run {
    /// Whether the settings that the mode needs are there: the Cranelift
    /// mode needs its optimization flag, the LLVM mode the optimizer flag
    /// and the level.
    pub open spec fn has_its_flags(self) -> bool {
        &&& self.test_type == RunMode::Cranelift ==> self.optimize_brilift is Some
        &&& self.test_type == RunMode::LLVM ==> self.optimize_egglog is Some
            && self.optimize_bril_llvm is Some
    }

    /// Whether the run can be carried out: the settings that its mode
    /// needs are there, a benchmark test sets no optimization flag of its
    /// own, the rewriting program is asked for under the parallel schedule
    /// only, which alone has one program, and a result is interpreted only
    /// where the mode produces one.
    pub open spec fn runnable(self) -> bool {
        &&& self.has_its_flags()
        &&& self.test_type == RunMode::TestBenchmark ==> self.optimize_egglog is None
            && self.optimize_brilift is None
        &&& self.test_type == RunMode::Egglog ==> self.schedule == Schedule::Parallel
        &&& self.interp != InterpMode::NoInterp ==> self.test_type.interpretable()
    }

    /// Whether the run can be carried out.
    pub fn can_run(&self) -> (r: bool)
        ensures
            r == self.runnable(),
    {
        let flags = match self.test_type {
            RunMode::Cranelift => self.optimize_brilift.is_some(),
            RunMode::LLVM => self.optimize_egglog.is_some() && self.optimize_bril_llvm.is_some(),
            RunMode::TestBenchmark => self.optimize_egglog.is_none()
                && self.optimize_brilift.is_none(),
            RunMode::Egglog => match self.schedule {
                Schedule::Parallel => true,
                Schedule::Sequential => false,
            },
            _ => true,
        };
        flags && (!self.interp.should_interp() || self.test_type.produces_interpretable())
    }

    /// What follows the program's name and the mode's name in the name of
    /// the run.
    pub open spec fn spec_suffix(self) -> Seq<char> {
        let backend = match self.test_type {
            RunMode::Cranelift => if self.optimize_brilift == Some(true) {
                "-O3"@
            } else {
                "-O0"@
            },
            RunMode::LLVM => if self.optimize_egglog == Some(true) {
                "-"@ + self.optimize_bril_llvm->Some_0.spec_name() + "-eggcc"@
            } else {
                "-"@ + self.optimize_bril_llvm->Some_0.spec_name()
            },
            _ => Seq::empty(),
        };
        let schedule = match self.schedule {
            Schedule::Parallel => Seq::empty(),
            Schedule::Sequential => "-sequential"@,
        };
        backend + schedule
    }

    /// The name of the run on the program `prog_name`: program, mode, then
    /// what tells the run from others of its mode.
    pub open spec fn spec_name(self, prog_name: Seq<char>) -> Seq<char> {
        prog_name + "-"@ + self.test_type.spec_name() + self.spec_suffix()
    }

    pub fn new(test_type: RunMode) -> (r: Run)
        ensures
            r == default_run(test_type),
    {
        Run {
            test_type,
            interp: InterpMode::NoInterp,
            optimize_egglog: None,
            optimize_brilift: None,
            optimize_bril_llvm: None,
            add_timing: false,
            schedule: Schedule::Parallel,
        }
    }

    pub fn compile_brilift_config(optimize_brilift: bool, interp: InterpMode) -> (r: Run)
        ensures
            r == brilift_run(optimize_brilift, interp),
    {
        Run {
            test_type: RunMode::Cranelift,
            interp,
            optimize_egglog: None,
            optimize_brilift: Some(optimize_brilift),
            optimize_bril_llvm: None,
            add_timing: false,
            schedule: Schedule::Parallel,
        }
    }

    /// The run that tests a benchmark; it sets no optimization flag, since
    /// the benchmark is run under every combination.
    pub fn test_benchmark_config() -> (r: Run)
        ensures
            r == default_run(RunMode::TestBenchmark),
    {
        Run::new(RunMode::TestBenchmark)
    }

    /// Lists the runs under which a program is tested. Each can be carried
    /// out, and no two have the same name on one program.
    pub fn all_configurations_for(llvm: bool) -> (res: Vec<Run>)
        ensures
            res@ == all_runs(llvm),
            forall|k: int| 0 <= k < res.len() ==> (#[trigger] res[k]).runnable(),
            forall|prog: Seq<char>, i: int, j: int|
                #![trigger res[i].spec_name(prog), res[j].spec_name(prog)]
                0 <= i < res.len() && 0 <= j < res.len() && i != j ==> res[i].spec_name(prog)
                    != res[j].spec_name(prog),
    {
        let modes = [
            RunMode::RvsdgConversion,
            RunMode::RvsdgRoundTrip,
            RunMode::CfgRoundTrip,
            RunMode::OptimizeDirectJumps,
            RunMode::RvsdgToCfg,
            RunMode::DagConversion,
            RunMode::DagOptimize,
            RunMode::DagRoundTrip,
            RunMode::Optimize,
            RunMode::CheckExtractIdentical,
            RunMode::TestPrettyPrint,
        ];
        assert(modes@ =~= tested_modes());
        let mut res: Vec<Run> = Vec::new();
        let mut i: usize = 0;
        while i < modes.len()
            invariant
                i <= modes.len(),
                modes@ == tested_modes(),
                res.len() == i,
                forall|k: int| 0 <= k < i ==> #[trigger] res[k] == tested_run(modes[k]),
            decreases modes.len() - i,
        {
            let test_type = modes[i];
            let default = Run::new(test_type);
            if test_type.produces_interpretable() {
                res.push(Run { interp: InterpMode::Interp, ..default });
            } else {
                res.push(default);
            }
            i += 1;
        }
        // also test the sequential schedule
        let mut seq = Run::new(RunMode::Optimize);
        seq.schedule = Schedule::Sequential;
        res.push(seq);
        // a baseline from the other backend
        res.push(Run::compile_brilift_config(true, InterpMode::Interp));
        if llvm {
            res.push(Run::llvm_config(true, LLVMOptLevel::O0));
            res.push(Run::llvm_config(true, LLVMOptLevel::O3));
            res.push(Run::llvm_config(false, LLVMOptLevel::O0));
            res.push(Run::llvm_config(false, LLVMOptLevel::O3));
        }
        assert(res@ =~= all_runs(llvm));
        assert forall|prog: Seq<char>, i: int, j: int|
            #![trigger res[i].spec_name(prog), res[j].spec_name(prog)]
            0 <= i < res.len() && 0 <= j < res.len() && i != j implies res[i].spec_name(prog)
            != res[j].spec_name(prog) by {
            lemma_listed_runs_differ_in_name(llvm, prog, i, j);
        }
        res
    }

    /// The run that compiles with the LLVM backend and interprets the
    /// result.
    fn llvm_config(optimize_egglog: bool, level: LLVMOptLevel) -> (r: Run)
        ensures
            r == llvm_run(optimize_egglog, level),
    {
        Run {
            test_type: RunMode::LLVM,
            interp: InterpMode::Interp,
            optimize_egglog: Some(optimize_egglog),
            optimize_brilift: None,
            optimize_bril_llvm: Some(level),
            add_timing: false,
            schedule: Schedule::Parallel,
        }
    }

    /// A name for the run on the program `prog_name` that tells it from
    /// the other runs on the program.
    pub fn name(&self, prog_name: &str) -> (name: String)
        requires
            self.has_its_flags(),
        ensures
            name@ == self.spec_name(prog_name@),
    {
        let mut name = prog_name.to_owned();
        name.append("-");
        name.append(self.test_type.name());
        let ghost stem = name@;
        match self.test_type {
            RunMode::Cranelift => {
                match self.optimize_brilift {
                    Some(true) => name.append("-O3"),
                    _ => name.append("-O0"),
                }
            },
            RunMode::LLVM => {
                name.append("-");
                match self.optimize_bril_llvm {
                    Some(level) => name.append(level.name()),
                    None => {},
                }
                match self.optimize_egglog {
                    Some(true) => name.append("-eggcc"),
                    _ => {},
                }
            },
            _ => {},
        }
        match self.schedule {
            Schedule::Parallel => {},
            Schedule::Sequential => name.append("-sequential"),
        }
        assert(name@ =~= stem + self.spec_suffix());
        name
    }
}

/// The length and three of the letters of what follows the program's name
/// in the name of the listed run at position `i`.
pub open spec fn listed_key(i: int) -> (nat, char, char, char) {
    if i == 0 {
        (16, 'r', 'g', 'c')
    } else if i == 1 {
        (16, 'r', 'g', 'r')
    } else if i == 2 {
        (14, 'c', 'r', 'u')
    } else if i == 3 {
        (21, 'o', 'm', 'z')
    } else if i == 4 {
        (12, 'r', 'g', 't')
    } else if i == 5 {
        (14, 'd', 'c', 'n')
    } else if i == 6 {
        (12, 'd', 'o', 't')
    } else if i == 7 {
        (14, 'd', 'r', 'u')
    } else if i == 8 {
        (8, 'o', 'm', 'z')
    } else if i == 9 {
        (23, 'c', 'k', 'e')
    } else if i == 10 {
        (17, 't', '-', 'r')
    } else if i == 11 {
        (19, 'o', 'm', 'z')
    } else if i == 12 {
        (12, 'c', 'e', 'i')
    } else if i == 13 {
        (13, 'l', '-', '0')
    } else if i == 14 {
        (13, 'l', '-', '3')
    } else if i == 15 {
        (7, 'l', '-', '0')
    } else {
        (7, 'l', '-', '3')
    }
}

/// The length of `s` and its letters at three places.
pub open spec fn name_key(s: Seq<char>) -> (nat, char, char, char) {
    (s.len(), s[0], s[4], s[6])
}

impl Run {
    /// What follows the program's name and the dash in the name of the
    /// run.
    pub open spec fn spec_tail(self) -> Seq<char> {
        self.test_type.spec_name() + self.spec_suffix()
    }
}

/// The listed run at position `i` is told by the length and three letters
/// of its name.
proof fn lemma_listed_keys(llvm: bool, i: int)
    requires
        0 <= i < all_runs(llvm).len(),
    ensures
        name_key(all_runs(llvm)[i].spec_tail()) == listed_key(i),
{
    reveal_strlit("cfg-round-trip");
    assert("cfg-round-trip"@.len() == 14);
    assert("cfg-round-trip"@[0] == 'c');
    assert("cfg-round-trip"@[4] == 'r');
    assert("cfg-round-trip"@[6] == 'u');
    reveal_strlit("check-extract-identical");
    assert("check-extract-identical"@.len() == 23);
    assert("check-extract-identical"@[0] == 'c');
    assert("check-extract-identical"@[4] == 'k');
    assert("check-extract-identical"@[6] == 'e');
    reveal_strlit("cranelift");
    assert("cranelift"@.len() == 9);
    assert("cranelift"@[0] == 'c');
    assert("cranelift"@[4] == 'e');
    assert("cranelift"@[6] == 'i');
    reveal_strlit("dag-conversion");
    assert("dag-conversion"@.len() == 14);
    assert("dag-conversion"@[0] == 'd');
    assert("dag-conversion"@[4] == 'c');
    assert("dag-conversion"@[6] == 'n');
    reveal_strlit("dag-optimize");
    assert("dag-optimize"@.len() == 12);
    assert("dag-optimize"@[0] == 'd');
    assert("dag-optimize"@[4] == 'o');
    assert("dag-optimize"@[6] == 't');
    reveal_strlit("dag-round-trip");
    assert("dag-round-trip"@.len() == 14);
    assert("dag-round-trip"@[0] == 'd');
    assert("dag-round-trip"@[4] == 'r');
    assert("dag-round-trip"@[6] == 'u');
    reveal_strlit("llvm");
    assert("llvm"@.len() == 4);
    assert("llvm"@[0] == 'l');
    reveal_strlit("optimize");
    assert("optimize"@.len() == 8);
    assert("optimize"@[0] == 'o');
    assert("optimize"@[4] == 'm');
    assert("optimize"@[6] == 'z');
    reveal_strlit("optimize-direct-jumps");
    assert("optimize-direct-jumps"@.len() == 21);
    assert("optimize-direct-jumps"@[0] == 'o');
    assert("optimize-direct-jumps"@[4] == 'm');
    assert("optimize-direct-jumps"@[6] == 'z');
    reveal_strlit("rvsdg-conversion");
    assert("rvsdg-conversion"@.len() == 16);
    assert("rvsdg-conversion"@[0] == 'r');
    assert("rvsdg-conversion"@[4] == 'g');
    assert("rvsdg-conversion"@[6] == 'c');
    reveal_strlit("rvsdg-round-trip");
    assert("rvsdg-round-trip"@.len() == 16);
    assert("rvsdg-round-trip"@[0] == 'r');
    assert("rvsdg-round-trip"@[4] == 'g');
    assert("rvsdg-round-trip"@[6] == 'r');
    reveal_strlit("rvsdg-to-cfg");
    assert("rvsdg-to-cfg"@.len() == 12);
    assert("rvsdg-to-cfg"@[0] == 'r');
    assert("rvsdg-to-cfg"@[4] == 'g');
    assert("rvsdg-to-cfg"@[6] == 't');
    reveal_strlit("test-pretty-print");
    assert("test-pretty-print"@.len() == 17);
    assert("test-pretty-print"@[0] == 't');
    assert("test-pretty-print"@[4] == '-');
    assert("test-pretty-print"@[6] == 'r');
    reveal_strlit("-sequential");
    assert("-sequential"@.len() == 11);
    reveal_strlit("-O3");
    assert("-O3"@.len() == 3);
    reveal_strlit("-O0");
    assert("-O0"@.len() == 3);
    reveal_strlit("-");
    assert("-"@.len() == 1);
    assert("-"@[0] == '-');
    reveal_strlit("O0");
    assert("O0"@.len() == 2);
    assert("O0"@[1] == '0');
    reveal_strlit("O3");
    assert("O3"@.len() == 2);
    assert("O3"@[1] == '3');
    reveal_strlit("-eggcc");
    assert("-eggcc"@.len() == 6);
    let run = all_runs(llvm)[i];
    if i < 11 {
        assert(run == tested_run(tested_modes()[i]));
        assert(run.spec_suffix() =~= Seq::<char>::empty());
        assert(run.spec_tail() =~= run.test_type.spec_name());
    } else if i == 11 {
        assert(run.spec_tail() =~= "optimize"@ + "-sequential"@);
    } else if i == 12 {
        assert(run.spec_tail() =~= "cranelift"@ + "-O3"@);
    } else if i == 13 {
        assert(run.spec_tail() =~= "llvm"@ + "-"@ + "O0"@ + "-eggcc"@);
    } else if i == 14 {
        assert(run.spec_tail() =~= "llvm"@ + "-"@ + "O3"@ + "-eggcc"@);
    } else if i == 15 {
        assert(run.spec_tail() =~= "llvm"@ + "-"@ + "O0"@);
    } else {
        assert(run.spec_tail() =~= "llvm"@ + "-"@ + "O3"@);
    }
}

/// The runs under which a program is tested have names of their own: no
/// two runs of the list have the same name on one program.
pub proof fn lemma_listed_runs_differ_in_name(llvm: bool, prog: Seq<char>, i: int, j: int)
    requires
        0 <= i < all_runs(llvm).len(),
        0 <= j < all_runs(llvm).len(),
        i != j,
    ensures
        all_runs(llvm)[i].spec_name(prog) != all_runs(llvm)[j].spec_name(prog),
{
    let (a, b) = (all_runs(llvm)[i], all_runs(llvm)[j]);
    let head = prog + "-"@;
    if a.spec_name(prog) == b.spec_name(prog) {
        assert(a.spec_name(prog) =~= head + a.spec_tail());
        assert(b.spec_name(prog) =~= head + b.spec_tail());
        assert(a.spec_tail() =~= (head + a.spec_tail()).subrange(
            head.len() as int,
            (head + a.spec_tail()).len() as int,
        ));
        assert(b.spec_tail() =~= (head + b.spec_tail()).subrange(
            head.len() as int,
            (head + b.spec_tail()).len() as int,
        ));
        lemma_listed_keys(llvm, i);
        lemma_listed_keys(llvm, j);
    }
}

/// The decimal digit `d`.
pub open spec fn digit(d: nat) -> Seq<char> {
    if d == 0 {
        "0"@
    } else if d == 1 {
        "1"@
    } else if d == 2 {
        "2"@
    } else if d == 3 {
        "3"@
    } else if d == 4 {
        "4"@
    } else if d == 5 {
        "5"@
    } else if d == 6 {
        "6"@
    } else if d == 7 {
        "7"@
    } else if d == 8 {
        "8"@
    } else {
        "9"@
    }
}

/// The decimal numeral of `n`, without leading zeros.
pub open spec fn decimal(n: nat) -> Seq<char>
    decreases n,
{
    if n < 10 {
        digit(n)
    } else {
        decimal(n / 10) + digit(n % 10)
    }
}

/// Appends the decimal numeral of `n` to `out`.
fn push_decimal(out: &mut String, n: usize)
    ensures
        final(out)@ == old(out)@ + decimal(n as nat),
    decreases n,
{
    if n >= 10 {
        push_decimal(out, n / 10);
    }
    let d = n % 10;
    let text = if d == 0 {
        "0"
    } else if d == 1 {
        "1"
    } else if d == 2 {
        "2"
    } else if d == 3 {
        "3"
    } else if d == 4 {
        "4"
    } else if d == 5 {
        "5"
    } else if d == 6 {
        "6"
    } else if d == 7 {
        "7"
    } else if d == 8 {
        "8"
    } else {
        "9"
    };
    let ghost before = out@;
    out.append(text);
    assert(out@ =~= old(out)@ + decimal(n as nat)) by {
        if n >= 10 {
            assert(before == old(out)@ + decimal((n / 10) as nat));
            assert(old(out)@ + decimal((n / 10) as nat) + digit((n % 10) as nat) =~= old(out)@ + (
            decimal((n / 10) as nat) + digit((n % 10) as nat)));
        }
    }
}

/// What the digits are: one character each, and ten different ones.
proof fn lemma_digits(d: nat)
    ensures
        digit(d).len() == 1,
        d < 10 ==> digit(d)[0] == ('0' as int + d) as char,
{
    reveal_strlit("0");
    reveal_strlit("1");
    reveal_strlit("2");
    reveal_strlit("3");
    reveal_strlit("4");
    reveal_strlit("5");
    reveal_strlit("6");
    reveal_strlit("7");
    reveal_strlit("8");
    reveal_strlit("9");
}

/// A numeral has at least one digit, and at least two from ten on.
proof fn lemma_decimal_len(n: nat)
    ensures
        decimal(n).len() >= 1,
        n >= 10 ==> decimal(n).len() >= 2,
    decreases n,
{
    lemma_digits(n);
    if n >= 10 {
        lemma_decimal_len(n / 10);
        lemma_digits(n % 10);
    }
}

/// Different numbers have different numerals.
pub proof fn lemma_decimal_injective(a: nat, b: nat)
    requires
        decimal(a) == decimal(b),
    ensures
        a == b,
    decreases a,
{
    lemma_decimal_len(a);
    lemma_decimal_len(b);
    lemma_digits(a % 10);
    lemma_digits(b % 10);
    if a < 10 && b < 10 {
        lemma_digits(a);
        lemma_digits(b);
        assert(digit(a)[0] == digit(b)[0]);
    } else if a >= 10 && b >= 10 {
        let (x, y) = (decimal(a / 10), decimal(b / 10));
        let (p, q) = (digit(a % 10), digit(b % 10));
        assert(decimal(a) == x + p);
        assert(decimal(b) == y + q);
        assert((x + p).len() == x.len() + 1);
        assert((y + q).len() == y.len() + 1);
        assert((x + p)[x.len() as int] == p[0]);
        assert((y + q)[y.len() as int] == q[0]);
        assert(a % 10 == b % 10);
        assert(x =~= (x + p).subrange(0, x.len() as int));
        assert(y =~= (y + q).subrange(0, y.len() as int));
        lemma_decimal_injective(a / 10, b / 10);
    } else if a < 10 {
        lemma_digits(a);
    } else {
        lemma_digits(b);
    }
}

/// The names that one source gives are all different: the name given
/// after `a` names differs from the name given after `b` names.
pub proof fn lemma_fresh_names_differ(a: nat, b: nat)
    requires
        a != b,
    ensures
        "v"@ + decimal(a) != "v"@ + decimal(b),
{
    if "v"@ + decimal(a) == "v"@ + decimal(b) {
        let (x, y) = ("v"@ + decimal(a), "v"@ + decimal(b));
        assert(decimal(a) =~= x.subrange("v"@.len() as int, x.len() as int));
        assert(decimal(b) =~= y.subrange("v"@.len() as int, y.len() as int));
        lemma_decimal_injective(a, b);
    }
}

/// A source of names that no earlier call has given.
pub struct FreshNameGen {
    next: usize,
}

impl FreshNameGen {
    /// How many names were given so far.
    pub closed spec fn given(&self) -> nat {
        self.next as nat
    }

    pub fn new() -> (r: Self)
        ensures
            r.given() == 0,
    {
        Self { next: 0 }
    }

    /// The next name: `v` and the number of names given before it.
    pub fn fresh(&mut self) -> (name: String)
        requires
            old(self).given() < usize::MAX,
        ensures
            name@ == "v"@ + decimal(old(self).given()),
            final(self).given() == old(self).given() + 1,
    {
        let mut name = "v".to_owned();
        push_decimal(&mut name, self.next);
        self.next += 1;
        name
    }

    /// The next number: the number of names and numbers given before it.
    pub fn fresh_usize(&mut self) -> (name: usize)
        requires
            old(self).given() < usize::MAX,
        ensures
            name == old(self).given(),
            final(self).given() == old(self).given() + 1,
    {
        let name = self.next;
        self.next += 1;
        name
    }
}

/// The items of `items`, with `separator` between each two.
pub open spec fn joined(items: Seq<Seq<char>>, separator: Seq<char>) -> Seq<char>
    decreases items.len(),
{
    if items.len() == 0 {
        Seq::empty()
    } else if items.len() == 1 {
        items[0]
    } else {
        joined(items.drop_last(), separator) + separator + items.last()
    }
}

/// The texts of `items`, in order.
pub open spec fn texts(items: Seq<String>) -> Seq<Seq<char>> {
    items.map_values(|s: String| s@)
}

/// Writes the items one after the other, with `separator` between each
/// two.
pub fn list_display(items: &Vec<String>, separator: &str) -> (r: String)
    ensures
        r@ == joined(texts(items@), separator@),
{
    let mut out = String::new();
    let mut i: usize = 0;
    while i < items.len()
        invariant
            i <= items.len(),
            out@ == joined(texts(items@).take(i as int), separator@),
        decreases items.len() - i,
    {
        let ghost before = texts(items@).take(i as int);
        let ghost after = texts(items@).take(i + 1);
        assert(after.drop_last() =~= before);
        assert(after.last() == items[i as int]@);
        if i > 0 {
            out.append(separator);
        }
        out.append(items[i].as_str());
        assert(out@ =~= joined(after, separator@)) by {
            if i == 0 {
                assert(before.len() == 0);
                assert(Seq::<char>::empty() + items[0]@ =~= items[0]@);
            }
        }
        i += 1;
    }
    assert(texts(items@).take(items.len() as int) =~= texts(items@));
    out
}

} // verus!
