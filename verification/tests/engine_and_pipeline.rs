use apoxy_js::engine::{drain, export_names, Drain, EngineAction, Instance, SetupStep};
use apoxy_js::pipeline::{
    BuildAction, BuildError, BuildEvent, BuildStep, Options, Pipeline, Stage,
};

fn ready(source: &str) -> Instance {
    let mut instance = Instance::new();
    instance.complete(source.to_string());
    instance
}

#[test]
fn setup_runs_once() {
    let mut instance = Instance::new();
    assert!(instance.js_context().is_none());
    assert_eq!(
        instance.init(),
        vec![SetupStep::CreateContext, SetupStep::InjectGlobals, SetupStep::ReadSource]
    );
    instance.complete("let a = 1".to_string());
    assert_eq!(instance.init(), vec![]);
    assert_eq!(instance.js_context().unwrap().code(), "let a = 1");
    instance.complete("let b = 2".to_string());
    assert_eq!(instance.js_context().unwrap().code(), "let a = 1");
    assert_eq!(instance.init(), vec![]);
}

#[test]
fn plain_entry_evaluates_the_source() {
    let instance = ready("console.log('hi')");
    assert_eq!(
        instance.js_context().unwrap().start(),
        vec![EngineAction::EvaluateSource {
            name: "script.js".to_string(),
            source: "console.log('hi')".to_string()
        }]
    );
}

#[test]
fn edge_entry_forwards_backend_mode_then_calls_the_handler_then_drains() {
    let instance = ready("module.exports = { handler: () => ({ status: 200 }) }");
    let input = br#"{"backend_mode":"x"}"#.to_vec();
    assert_eq!(
        instance.js_context().unwrap().apoxy_start(input.clone()),
        vec![
            EngineAction::ReadRequest { input },
            EngineAction::ForwardProperty {
                property: "backend_mode".to_string(),
                global: "__backend_mode".to_string()
            },
            EngineAction::CallHandler { global: "__handler".to_string() },
            EngineAction::DrainMicrotasks,
        ]
    );
}

#[test]
fn edge_entries_never_evaluate_the_source() {
    let instance = ready("source");
    let engine = instance.js_context().unwrap();
    let mut actions = engine.start();
    for i in 0..10u8 {
        actions.extend(engine.apoxy_start(vec![i]));
    }
    let evaluations = actions
        .iter()
        .filter(|action| matches!(action, EngineAction::EvaluateSource { .. }))
        .count();
    assert_eq!(evaluations, 1);
    assert_eq!(actions.len(), 41);
}

#[test]
fn draining_ends_only_on_an_empty_queue() {
    assert_eq!(drain(true), Drain::ExecutePending);
    assert_eq!(drain(false), Drain::Done);
}

fn options(core: bool) -> Options {
    Options { input_js: "index.js".to_string(), output: "index.wasm".to_string(), core }
}

fn go_on(step: BuildStep) -> (Pipeline, BuildAction) {
    match step {
        BuildStep::Next { pipeline, action } => (pipeline, action),
        BuildStep::Done { result } => panic!("the build ended early: {:?}", result),
    }
}

/// Drives a build up to the probe for the merge tool.
fn probing() -> Pipeline {
    let (pipeline, action) = Pipeline::begin(options(false));
    assert_eq!(action, BuildAction::ReadSource { path: "index.js".to_string() });
    let (pipeline, action) = go_on(pipeline.step(BuildEvent::Source { bytes: b"code".to_vec() }));
    assert_eq!(action, BuildAction::MakeWorkspace);
    let (pipeline, action) =
        go_on(pipeline.step(BuildEvent::Workspace { core: "/tmp/w/core.wasm".to_string() }));
    assert_eq!(
        action,
        BuildAction::Bootstrap {
            input: "index.js".to_string(),
            core: "/tmp/w/core.wasm".to_string(),
            source: b"code".to_vec()
        }
    );
    let (pipeline, action) = go_on(pipeline.step(BuildEvent::Exited { success: true }));
    assert_eq!(
        action,
        BuildAction::ProbeMergeTool {
            program: "wasm-merge".to_string(),
            arguments: vec!["--version".to_string()]
        }
    );
    pipeline
}

#[test]
fn build_runs_through_all_stages() {
    let pipeline = probing();
    let (pipeline, action) = go_on(pipeline.step(BuildEvent::Exited { success: true }));
    assert_eq!(
        action,
        BuildAction::Merge {
            program: "wasm-merge".to_string(),
            arguments: vec![
                "/tmp/w/core.wasm".to_string(),
                "core".to_string(),
                "-o".to_string(),
                "index.wasm".to_string(),
                "--enable-reference-types".to_string(),
                "--enable-bulk-memory".to_string(),
            ]
        }
    );
    let (pipeline, action) = go_on(pipeline.step(BuildEvent::Exited { success: true }));
    assert_eq!(action, BuildAction::Optimize { path: "index.wasm".to_string() });
    match pipeline.step(BuildEvent::Completed) {
        BuildStep::Done { result } => assert_eq!(result, Ok(Stage::Optimized)),
        other => panic!("unexpected: {:?}", other),
    }
}

#[test]
fn missing_merge_tool_ends_the_build_before_the_merge() {
    let pipeline = probing();
    match pipeline.step(BuildEvent::Failed { cause: "No such file or directory".to_string() }) {
        BuildStep::Done { result: Err(error) } => {
            assert_eq!(
                error,
                BuildError::ExternalTool(
                    "Failed to detect wasm-merge. Please install binaryen and make sure wasm-merge is on your path: https://github.com/WebAssembly/binaryen"
                        .to_string()
                )
            );
            assert!(error.message().contains("wasm-merge"));
        }
        other => panic!("unexpected: {:?}", other),
    }
}

#[test]
fn probe_that_exits_badly_still_found_the_tool() {
    let pipeline = probing();
    let (_, action) = go_on(pipeline.step(BuildEvent::Exited { success: false }));
    assert!(matches!(action, BuildAction::Merge { .. }));
}

#[test]
fn failures_of_the_stages_are_fatal() {
    let (pipeline, _) = Pipeline::begin(options(false));
    match pipeline.step(BuildEvent::Failed { cause: "not found".to_string() }) {
        BuildStep::Done { result } => assert_eq!(result, Err(BuildError::Io("not found".to_string()))),
        other => panic!("unexpected: {:?}", other),
    }

    let (pipeline, _) = Pipeline::begin(options(false));
    let (pipeline, _) = go_on(pipeline.step(BuildEvent::Source { bytes: vec![] }));
    let (pipeline, _) = go_on(pipeline.step(BuildEvent::Workspace { core: "c".to_string() }));
    match pipeline.step(BuildEvent::Exited { success: false }) {
        BuildStep::Done { result } => assert_eq!(
            result,
            Err(BuildError::Initialization("Couldn't create wasm from input".to_string()))
        ),
        other => panic!("unexpected: {:?}", other),
    }

    let (pipeline, _) = go_on(probing().step(BuildEvent::Exited { success: true }));
    match pipeline.step(BuildEvent::Exited { success: false }) {
        BuildStep::Done { result } => assert_eq!(
            result,
            Err(BuildError::ExternalTool("wasm-merge failed. Couldn't merge shim".to_string()))
        ),
        other => panic!("unexpected: {:?}", other),
    }

    let (pipeline, _) = go_on(probing().step(BuildEvent::Exited { success: true }));
    let (pipeline, _) = go_on(pipeline.step(BuildEvent::Exited { success: true }));
    match pipeline.step(BuildEvent::Failed { cause: "bad module".to_string() }) {
        BuildStep::Done { result } => {
            assert_eq!(result, Err(BuildError::ExternalTool("bad module".to_string())))
        }
        other => panic!("unexpected: {:?}", other),
    }

    let (pipeline, _) = Pipeline::begin(options(false));
    match pipeline.step(BuildEvent::Completed) {
        BuildStep::Done { result } => {
            assert_eq!(result, Err(BuildError::UnexpectedEvent));
            assert_eq!(
                BuildError::UnexpectedEvent.message(),
                "Unexpected report from a build step"
            );
        }
        other => panic!("unexpected: {:?}", other),
    }
}

#[test]
fn core_mode_writes_the_core_artifact_only() {
    let (pipeline, action) = Pipeline::begin(options(true));
    assert_eq!(action, BuildAction::WriteCore { output: "index.wasm".to_string() });
    match pipeline.step(BuildEvent::Completed) {
        BuildStep::Done { result } => assert_eq!(result, Ok(Stage::Bootstrapped)),
        other => panic!("unexpected: {:?}", other),
    }
    let (pipeline, _) = Pipeline::begin(options(true));
    match pipeline.step(BuildEvent::Failed { cause: "trap".to_string() }) {
        BuildStep::Done { result } => {
            assert_eq!(result, Err(BuildError::Initialization("trap".to_string())))
        }
        other => panic!("unexpected: {:?}", other),
    }
}

#[test]
fn export_names_are_sorted_by_bytes() {
    let names = |list: &[&str]| list.iter().map(|s| s.to_string()).collect::<Vec<String>>();
    assert_eq!(export_names(vec![]), names(&[]));
    assert_eq!(export_names(names(&["b", "a", "c"])), names(&["a", "b", "c"]));
    assert_eq!(
        export_names(names(&["handler", "Handler", "", "h", "handler2", "\u{e9}", "z", "h"])),
        names(&["", "Handler", "h", "h", "handler", "handler2", "z", "\u{e9}"])
    );
    let mut expected = names(&["x10", "x9", "x1", "X", "_", "a b", "a"]);
    let sorted = export_names(expected.clone());
    expected.sort();
    assert_eq!(sorted, expected);
}
