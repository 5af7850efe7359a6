//! The build: from the user's source to the final artifact.
//!
//! The source is bootstrapped (the engine is set up with it and executed ahead
//! of time), the result is merged with the host shim, and the merged module is
//! optimized. Every stage is fatal on failure: the build ends with the final
//! artifact or with an error, never in between.

use vstd::prelude::*;

verus! {

/// What the build was asked to do.
#[derive(Debug, PartialEq, Eq)]
pub struct Options {
    /// The path of the user's source.
    pub input_js: String,
    /// The path of the artifact.
    pub output: String,
    /// Whether only the core artifact is made: no merge, no optimizer.
    pub core: bool,
}

/// [`Options`] as the contracts see them.
pub struct OptionsView {
    pub input_js: Seq<char>,
    pub output: Seq<char>,
    pub core: bool,
}

impl View for Options {
    type V = OptionsView;

    open spec fn view(&self) -> OptionsView {
        OptionsView { input_js: self.input_js@, output: self.output@, core: self.core }
    }
}

/// How far the artifact has come.
#[derive(Clone, Copy, Debug, PartialEq, Eq, Structural)]
pub enum Stage {
    Source,
    Bootstrapped,
    Merged,
    Optimized,
}

/// Why a build ended without an artifact.
#[derive(Debug, PartialEq, Eq)]
pub enum BuildError {
    /// Setting up the engine or executing it ahead of time failed.
    Initialization(String),
    /// Reading the source or writing an artifact failed, with the cause.
    Io(String),
    /// The merge tool or the optimizer is missing or failed.
    ExternalTool(String),
    /// The driver reported something that was not asked for.
    UnexpectedEvent,
}

/// A [`BuildError`] as the contracts see it.
pub enum BuildErrorView {
    Initialization(Seq<char>),
    Io(Seq<char>),
    ExternalTool(Seq<char>),
    UnexpectedEvent,
}

impl View for BuildError {
    type V = BuildErrorView;

    open spec fn view(&self) -> BuildErrorView {
        match self {
            BuildError::Initialization(m) => BuildErrorView::Initialization(m@),
            BuildError::Io(m) => BuildErrorView::Io(m@),
            BuildError::ExternalTool(m) => BuildErrorView::ExternalTool(m@),
            BuildError::UnexpectedEvent => BuildErrorView::UnexpectedEvent,
        }
    }
}

/// What the driver is asked to do next.
#[derive(Debug, PartialEq, Eq)]
pub enum BuildAction {
    /// Execute the bundled engine ahead of time and write it to the path.
    WriteCore { output: String },
    /// Read the user's source from the path.
    ReadSource { path: String },
    /// Make a directory for intermediate files and name the core file in it.
    MakeWorkspace,
    /// Run this program again in core mode, from the input to the core file,
    /// with the source on its standard input.
    Bootstrap { input: String, core: String, source: Vec<u8> },
    /// Try to run the merge tool, to see whether it is there.
    ProbeMergeTool { program: String, arguments: Vec<String> },
    /// Run the merge tool.
    Merge { program: String, arguments: Vec<String> },
    /// Optimize the module at the path in place.
    Optimize { path: String },
}

/// A [`BuildAction`] as the contracts see it.
pub enum BuildActionView {
    WriteCore { output: Seq<char> },
    ReadSource { path: Seq<char> },
    MakeWorkspace,
    Bootstrap { input: Seq<char>, core: Seq<char>, source: Seq<u8> },
    ProbeMergeTool { program: Seq<char>, arguments: Seq<Seq<char>> },
    Merge { program: Seq<char>, arguments: Seq<Seq<char>> },
    Optimize { path: Seq<char> },
}

/// The views of the texts, in order.
pub open spec fn words(texts: Seq<String>) -> Seq<Seq<char>> {
    texts.map_values(|t: String| t@)
}

impl View for BuildAction {
    type V = BuildActionView;

    open spec fn view(&self) -> BuildActionView {
        match self {
            BuildAction::WriteCore { output } => BuildActionView::WriteCore { output: output@ },
            BuildAction::ReadSource { path } => BuildActionView::ReadSource { path: path@ },
            BuildAction::MakeWorkspace => BuildActionView::MakeWorkspace,
            BuildAction::Bootstrap { input, core, source } => BuildActionView::Bootstrap {
                input: input@,
                core: core@,
                source: source@,
            },
            BuildAction::ProbeMergeTool { program, arguments } => BuildActionView::ProbeMergeTool {
                program: program@,
                arguments: words(arguments@),
            },
            BuildAction::Merge { program, arguments } => BuildActionView::Merge {
                program: program@,
                arguments: words(arguments@),
            },
            BuildAction::Optimize { path } => BuildActionView::Optimize { path: path@ },
        }
    }
}

/// What came of the action that was asked for.
#[derive(Debug, PartialEq, Eq)]
pub enum BuildEvent {
    /// The action succeeded and there is nothing to report.
    Completed,
    /// The source was read: these are its bytes.
    Source { bytes: Vec<u8> },
    /// The directory is there: this is the path of the core file in it.
    Workspace { core: String },
    /// The program ran and exited, with success or without.
    Exited { success: bool },
    /// The action could not be performed, for this cause.
    Failed { cause: String },
}

/// A [`BuildEvent`] as the contracts see it.
pub enum BuildEventView {
    Completed,
    Source { bytes: Seq<u8> },
    Workspace { core: Seq<char> },
    Exited { success: bool },
    Failed { cause: Seq<char> },
}

impl View for BuildEvent {
    type V = BuildEventView;

    open spec fn view(&self) -> BuildEventView {
        match self {
            BuildEvent::Completed => BuildEventView::Completed,
            BuildEvent::Source { bytes } => BuildEventView::Source { bytes: bytes@ },
            BuildEvent::Workspace { core } => BuildEventView::Workspace { core: core@ },
            BuildEvent::Exited { success } => BuildEventView::Exited { success: *success },
            BuildEvent::Failed { cause } => BuildEventView::Failed { cause: cause@ },
        }
    }
}

/// What a build waits for, as the contracts see it.
pub enum WaitView {
    WritingCore,
    ReadingSource,
    MakingWorkspace { source: Seq<u8> },
    Bootstrapping { core: Seq<char> },
    Probing { core: Seq<char> },
    Merging,
    Optimizing,
}

/// A build under way, as the contracts see it.
pub struct PipelineView {
    pub input_js: Seq<char>,
    pub output: Seq<char>,
    pub wait: WaitView,
}

/// How far the artifact of a build under way has come.
pub open spec fn stage_of(wait: WaitView) -> Stage {
    match wait {
        WaitView::WritingCore => Stage::Source,
        WaitView::ReadingSource => Stage::Source,
        WaitView::MakingWorkspace { .. } => Stage::Source,
        WaitView::Bootstrapping { .. } => Stage::Source,
        WaitView::Probing { .. } => Stage::Bootstrapped,
        WaitView::Merging => Stage::Bootstrapped,
        WaitView::Optimizing => Stage::Merged,
    }
}

/// A step of a build as the contracts see it.
pub enum BuildStepView {
    Next { pipeline: PipelineView, action: BuildActionView },
    Done { result: Result<Stage, BuildErrorView> },
}

/// The name of the merge tool.
pub open spec fn merge_tool() -> Seq<char> {
    "wasm-merge"@
}

/// The arguments of the probe.
pub open spec fn probe_arguments() -> Seq<Seq<char>> {
    seq!["--version"@]
}

/// The arguments of the merge: the core module under the name `core`, the
/// output, and the features that the host interface depends on.
pub open spec fn merge_arguments(core: Seq<char>, output: Seq<char>) -> Seq<Seq<char>> {
    seq![core, "core"@, "-o"@, output, "--enable-reference-types"@, "--enable-bulk-memory"@]
}

/// What the build says when the bootstrap exits without success.
pub open spec fn bootstrap_failed() -> Seq<char> {
    "Couldn't create wasm from input"@
}

/// What the build says when the merge tool cannot be run.
pub open spec fn merge_tool_missing() -> Seq<char> {
    "Failed to detect wasm-merge. Please install binaryen and make sure wasm-merge is on your path: https://github.com/WebAssembly/binaryen"@
}

/// What the build says when the merge tool exits without success.
pub open spec fn merge_failed() -> Seq<char> {
    "wasm-merge failed. Couldn't merge shim"@
}

/// How a build begins: in core mode with writing the core artifact, otherwise
/// with reading the source.
pub open spec fn begin_spec(options: OptionsView) -> (PipelineView, BuildActionView) {
    if options.core {
        (
            PipelineView {
                input_js: options.input_js,
                output: options.output,
                wait: WaitView::WritingCore,
            },
            BuildActionView::WriteCore { output: options.output },
        )
    } else {
        (
            PipelineView {
                input_js: options.input_js,
                output: options.output,
                wait: WaitView::ReadingSource,
            },
            BuildActionView::ReadSource { path: options.input_js },
        )
    }
}

/// The build goes on with the given wait and action.
pub open spec fn go_on(x: PipelineView, wait: WaitView, action: BuildActionView) -> BuildStepView {
    BuildStepView::Next {
        pipeline: PipelineView { input_js: x.input_js, output: x.output, wait },
        action,
    }
}

/// The rule of the build: what follows from each event at each stage.
pub open spec fn step_spec(x: PipelineView, event: BuildEventView) -> BuildStepView {
    match (x.wait, event) {
        (WaitView::WritingCore, BuildEventView::Completed) => BuildStepView::Done {
            result: Ok(Stage::Bootstrapped),
        },
        (WaitView::WritingCore, BuildEventView::Failed { cause }) => BuildStepView::Done {
            result: Err(BuildErrorView::Initialization(cause)),
        },
        (WaitView::ReadingSource, BuildEventView::Source { bytes }) => go_on(
            x,
            WaitView::MakingWorkspace { source: bytes },
            BuildActionView::MakeWorkspace,
        ),
        (WaitView::ReadingSource, BuildEventView::Failed { cause }) => BuildStepView::Done {
            result: Err(BuildErrorView::Io(cause)),
        },
        (WaitView::MakingWorkspace { source }, BuildEventView::Workspace { core }) => go_on(
            x,
            WaitView::Bootstrapping { core },
            BuildActionView::Bootstrap { input: x.input_js, core, source },
        ),
        (WaitView::MakingWorkspace { .. }, BuildEventView::Failed { cause }) => {
            BuildStepView::Done { result: Err(BuildErrorView::Io(cause)) }
        },
        (WaitView::Bootstrapping { core }, BuildEventView::Exited { success }) => if success {
            go_on(
                x,
                WaitView::Probing { core },
                BuildActionView::ProbeMergeTool {
                    program: merge_tool(),
                    arguments: probe_arguments(),
                },
            )
        } else {
            BuildStepView::Done { result: Err(BuildErrorView::Initialization(bootstrap_failed())) }
        },
        (WaitView::Bootstrapping { .. }, BuildEventView::Failed { cause }) => BuildStepView::Done {
            result: Err(BuildErrorView::Io(cause)),
        },
        (WaitView::Probing { core }, BuildEventView::Exited { .. }) => go_on(
            x,
            WaitView::Merging,
            BuildActionView::Merge {
                program: merge_tool(),
                arguments: merge_arguments(core, x.output),
            },
        ),
        (WaitView::Probing { .. }, BuildEventView::Failed { .. }) => BuildStepView::Done {
            result: Err(BuildErrorView::ExternalTool(merge_tool_missing())),
        },
        (WaitView::Merging, BuildEventView::Exited { success }) => if success {
            go_on(x, WaitView::Optimizing, BuildActionView::Optimize { path: x.output })
        } else {
            BuildStepView::Done { result: Err(BuildErrorView::ExternalTool(merge_failed())) }
        },
        (WaitView::Merging, BuildEventView::Failed { cause }) => BuildStepView::Done {
            result: Err(BuildErrorView::Io(cause)),
        },
        (WaitView::Optimizing, BuildEventView::Completed) => BuildStepView::Done {
            result: Ok(Stage::Optimized),
        },
        (WaitView::Optimizing, BuildEventView::Failed { cause }) => BuildStepView::Done {
            result: Err(BuildErrorView::ExternalTool(cause)),
        },
        _ => BuildStepView::Done { result: Err(BuildErrorView::UnexpectedEvent) },
    }
}

/// The place of a stage in the order of the build.
pub open spec fn rank(stage: Stage) -> int {
    match stage {
        Stage::Source => 0,
        Stage::Bootstrapped => 1,
        Stage::Merged => 2,
        Stage::Optimized => 3,
    }
}

/// When the merge tool cannot be run, the build ends with the error that
/// names it, and the merge is never asked for.
pub proof fn lemma_missing_merge_tool_ends_build(x: PipelineView, cause: Seq<char>)
    requires
        x.wait is Probing,
    ensures
        step_spec(x, BuildEventView::Failed { cause }) == (BuildStepView::Done {
            result: Err(BuildErrorView::ExternalTool(merge_tool_missing())),
        }),
{
}

/// The merge is asked for only after the probe found the tool, and the
/// optimizer only after the merge succeeded.
pub proof fn lemma_stages_in_order(x: PipelineView, event: BuildEventView)
    ensures
        step_spec(x, event) matches BuildStepView::Next { action, .. } ==> {
            &&& action is Merge ==> x.wait is Probing && event is Exited
            &&& action is Optimize ==> x.wait is Merging && event == (BuildEventView::Exited {
                success: true,
            })
            &&& action is ProbeMergeTool ==> x.wait is Bootstrapping && event == (
            BuildEventView::Exited { success: true })
        },
{
}

/// A step never takes the artifact back, and takes it on by one stage at
/// most; the build ends well only with the artifact it was asked for: the
/// optimized one, or the bootstrapped one in core mode.
pub proof fn lemma_no_partial_success(x: PipelineView, event: BuildEventView)
    ensures
        match step_spec(x, event) {
            BuildStepView::Next { pipeline, .. } => rank(stage_of(x.wait)) <= rank(
                stage_of(pipeline.wait),
            ) <= rank(stage_of(x.wait)) + 1 && !(pipeline.wait is WritingCore),
            BuildStepView::Done { result: Ok(stage) } => event is Completed && if x.wait
                is WritingCore {
                stage == Stage::Bootstrapped
            } else {
                x.wait is Optimizing && stage == Stage::Optimized
            },
            BuildStepView::Done { result: Err(_) } => true,
        },
{
}

#[derive(Debug)]
enum Wait {
    WritingCore,
    ReadingSource,
    MakingWorkspace { source: Vec<u8> },
    Bootstrapping { core: String },
    Probing { core: String },
    Merging,
    Optimizing,
}

/// A build under way.
#[derive(Debug)]
pub struct Pipeline {
    input_js: String,
    output: String,
    wait: Wait,
}

impl View for Pipeline {
    type V = PipelineView;

    closed spec fn view(&self) -> PipelineView {
        PipelineView {
            input_js: self.input_js@,
            output: self.output@,
            wait: match self.wait {
                Wait::WritingCore => WaitView::WritingCore,
                Wait::ReadingSource => WaitView::ReadingSource,
                Wait::MakingWorkspace { source } => WaitView::MakingWorkspace { source: source@ },
                Wait::Bootstrapping { core } => WaitView::Bootstrapping { core: core@ },
                Wait::Probing { core } => WaitView::Probing { core: core@ },
                Wait::Merging => WaitView::Merging,
                Wait::Optimizing => WaitView::Optimizing,
            },
        }
    }
}

/// The next thing to do in a build, or its end.
#[derive(Debug)]
pub enum BuildStep {
    /// The build goes on: perform the action and hand the event to `step`.
    Next { pipeline: Pipeline, action: BuildAction },
    /// The build is over: the stage that the artifact reached, or the error.
    Done { result: Result<Stage, BuildError> },
}

impl View for BuildStep {
    type V = BuildStepView;

    open spec fn view(&self) -> BuildStepView {
        match self {
            BuildStep::Next { pipeline, action } => BuildStepView::Next {
                pipeline: pipeline@,
                action: action@,
            },
            BuildStep::Done { result } => BuildStepView::Done {
                result: match result {
                    Ok(stage) => Ok(*stage),
                    Err(e) => Err(e@),
                },
            },
        }
    }
}

fn fail(error: BuildError) -> (r: BuildStep)
    ensures
        r@ == (BuildStepView::Done { result: Err(error@) }),
{
    BuildStep::Done { result: Err(error) }
}

impl Pipeline {
    /// Begins a build ([`begin_spec`]).
    pub fn begin(options: Options) -> (r: (Pipeline, BuildAction))
        ensures
            (r.0@, r.1@) == begin_spec(options@),
    {
        let Options { input_js, output, core } = options;
        if core {
            let action = BuildAction::WriteCore { output: output.clone() };
            (Pipeline { input_js, output, wait: Wait::WritingCore }, action)
        } else {
            let action = BuildAction::ReadSource { path: input_js.clone() };
            (Pipeline { input_js, output, wait: Wait::ReadingSource }, action)
        }
    }

    /// Takes what the driver reports and decides what follows, by the rule of
    /// the build ([`step_spec`]).
    pub fn step(self, event: BuildEvent) -> (r: BuildStep)
        ensures
            r@ == step_spec(self@, event@),
    {
        let Pipeline { input_js, output, wait } = self;
        match (wait, event) {
            (Wait::WritingCore, BuildEvent::Completed) => BuildStep::Done {
                result: Ok(Stage::Bootstrapped),
            },
            (Wait::WritingCore, BuildEvent::Failed { cause }) => fail(
                BuildError::Initialization(cause),
            ),
            (Wait::ReadingSource, BuildEvent::Source { bytes }) => BuildStep::Next {
                pipeline: Pipeline { input_js, output, wait: Wait::MakingWorkspace { source: bytes } },
                action: BuildAction::MakeWorkspace,
            },
            (Wait::ReadingSource, BuildEvent::Failed { cause }) => fail(BuildError::Io(cause)),
            (Wait::MakingWorkspace { source }, BuildEvent::Workspace { core }) => {
                let action = BuildAction::Bootstrap {
                    input: input_js.clone(),
                    core: core.clone(),
                    source,
                };
                BuildStep::Next {
                    pipeline: Pipeline { input_js, output, wait: Wait::Bootstrapping { core } },
                    action,
                }
            },
            (Wait::MakingWorkspace { .. }, BuildEvent::Failed { cause }) => fail(
                BuildError::Io(cause),
            ),
            (Wait::Bootstrapping { core }, BuildEvent::Exited { success }) => {
                if success {
                    let mut arguments: Vec<String> = Vec::new();
                    arguments.push("--version".to_owned());
                    assert(words(arguments@) =~= probe_arguments());
                    BuildStep::Next {
                        pipeline: Pipeline { input_js, output, wait: Wait::Probing { core } },
                        action: BuildAction::ProbeMergeTool {
                            program: "wasm-merge".to_owned(),
                            arguments,
                        },
                    }
                } else {
                    fail(BuildError::Initialization("Couldn't create wasm from input".to_owned()))
                }
            },
            (Wait::Bootstrapping { .. }, BuildEvent::Failed { cause }) => fail(
                BuildError::Io(cause),
            ),
            (Wait::Probing { core }, BuildEvent::Exited { .. }) => {
                let mut arguments: Vec<String> = Vec::new();
                arguments.push(core);
                arguments.push("core".to_owned());
                arguments.push("-o".to_owned());
                arguments.push(output.clone());
                arguments.push("--enable-reference-types".to_owned());
                arguments.push("--enable-bulk-memory".to_owned());
                assert(words(arguments@) =~= merge_arguments(core@, output@));
                BuildStep::Next {
                    pipeline: Pipeline { input_js, output, wait: Wait::Merging },
                    action: BuildAction::Merge { program: "wasm-merge".to_owned(), arguments },
                }
            },
            (Wait::Probing { .. }, BuildEvent::Failed { .. }) => fail(
                BuildError::ExternalTool(
                    "Failed to detect wasm-merge. Please install binaryen and make sure wasm-merge is on your path: https://github.com/WebAssembly/binaryen".to_owned(),
                ),
            ),
            (Wait::Merging, BuildEvent::Exited { success }) => {
                if success {
                    let action = BuildAction::Optimize { path: output.clone() };
                    BuildStep::Next {
                        pipeline: Pipeline { input_js, output, wait: Wait::Optimizing },
                        action,
                    }
                } else {
                    fail(
                        BuildError::ExternalTool(
                            "wasm-merge failed. Couldn't merge shim".to_owned(),
                        ),
                    )
                }
            },
            (Wait::Merging, BuildEvent::Failed { cause }) => fail(BuildError::Io(cause)),
            (Wait::Optimizing, BuildEvent::Completed) => BuildStep::Done {
                result: Ok(Stage::Optimized),
            },
            (Wait::Optimizing, BuildEvent::Failed { cause }) => fail(
                BuildError::ExternalTool(cause),
            ),
            _ => fail(BuildError::UnexpectedEvent),
        }
    }
}

impl BuildError {
    /// The message of the error.
    pub fn message(&self) -> (r: String)
        ensures
            r@ == match self@ {
                BuildErrorView::Initialization(m) => m,
                BuildErrorView::Io(m) => m,
                BuildErrorView::ExternalTool(m) => m,
                BuildErrorView::UnexpectedEvent => "Unexpected report from a build step"@,
            },
    {
        match self {
            BuildError::Initialization(m) => m.clone(),
            BuildError::Io(m) => m.clone(),
            BuildError::ExternalTool(m) => m.clone(),
            BuildError::UnexpectedEvent => "Unexpected report from a build step".to_owned(),
        }
    }
}

} // verus!
