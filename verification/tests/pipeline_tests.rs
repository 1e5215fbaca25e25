use rust_runner::context::Context;
use rust_runner::pipeline::Event;
use rust_runner::pipeline::PipelineError;
use rust_runner::pipeline::Step;

/// Drive the machine with a fixed event per action kind, recording the steps
/// taken, and return the final outcome.
fn drive(mut s: Step, n_deps: usize, events: &mut Vec<Event>, trace: &mut Vec<Step>) -> Option<PipelineError> {
    loop {
        trace.push(s);
        if let Step::Done { outcome } = s {
            return outcome;
        }
        let e = events.remove(0);
        s = s.step(e, n_deps);
    }
}

#[test]
fn happy_path_without_deps_runs_once() {
    // end-to-end scenario: a pinned toolchain, no dependencies
    let ctx = Context::parse("// rust-runner: toolchain=1.70\nfn main(){}").unwrap();
    assert_eq!(ctx.toolchain, "1.70");
    assert_eq!(ctx.imports.len(), 0);

    let mut events = vec![
        Event::Succeeded,    // create temp dir
        Event::Succeeded,    // enter temp dir
        Event::Succeeded,    // project init
        Event::CacheMissing, // no accelerator
        Event::Succeeded,    // write source
        Event::Succeeded,    // write pin
        Event::Succeeded,    // run
        Event::Succeeded,    // restore
    ];
    let mut trace = Vec::new();
    let outcome = drive(Step::CreateTempDir, ctx.imports.len(), &mut events, &mut trace);
    assert_eq!(outcome, None);
    let runs = trace.iter().filter(|s| matches!(s, Step::RunProgram)).count();
    let adds = trace.iter().filter(|s| matches!(s, Step::AddDep { .. })).count();
    assert_eq!(runs, 1);
    assert_eq!(adds, 0);
}

#[test]
fn failing_dep_add_does_not_abort() {
    let mut events = vec![
        Event::Succeeded,    // create
        Event::Succeeded,    // enter
        Event::Succeeded,    // init
        Event::CacheMissing, // probe
        Event::Succeeded,    // source
        Event::Succeeded,    // pin
        Event::Succeeded,    // add dep 0
        Event::Failed,       // add dep 1 fails
        Event::Succeeded,    // add dep 2
        Event::Succeeded,    // run
        Event::Succeeded,    // restore
    ];
    let mut trace = Vec::new();
    let outcome = drive(Step::CreateTempDir, 3, &mut events, &mut trace);
    assert_eq!(outcome, None);
    assert!(trace.contains(&Step::AddDep { next: 0 }));
    assert!(trace.contains(&Step::AddDep { next: 1 }));
    assert!(trace.contains(&Step::AddDep { next: 2 }));
    assert!(trace.contains(&Step::RunProgram));
}

#[test]
fn all_deps_failing_still_runs() {
    let mut events = vec![
        Event::Succeeded,
        Event::Succeeded,
        Event::Succeeded,
        Event::CacheMissing,
        Event::Succeeded,
        Event::Succeeded,
        Event::Failed,    // add dep 0 fails
        Event::Failed,    // add dep 1 fails
        Event::Succeeded, // run
        Event::Succeeded, // restore
    ];
    let mut trace = Vec::new();
    let outcome = drive(Step::CreateTempDir, 2, &mut events, &mut trace);
    assert_eq!(outcome, None);
    assert!(trace.contains(&Step::RunProgram));
}

#[test]
fn failing_operation_still_restores() {
    // the run step fails: the restore step must still come before completion
    let mut events = vec![
        Event::Succeeded,
        Event::Succeeded,
        Event::Succeeded,
        Event::CacheMissing,
        Event::Succeeded,
        Event::Succeeded,
        Event::Failed,    // run fails
        Event::Succeeded, // restore
    ];
    let mut trace = Vec::new();
    let outcome = drive(Step::CreateTempDir, 0, &mut events, &mut trace);
    assert_eq!(outcome, Some(PipelineError::RunFailed));
    let restore_pos = trace
        .iter()
        .position(|s| matches!(s, Step::Restore { .. }))
        .expect("restore step missing");
    let done_pos = trace.iter().position(|s| matches!(s, Step::Done { .. })).unwrap();
    assert!(restore_pos < done_pos);
}

#[test]
fn failing_init_still_restores() {
    let mut events = vec![
        Event::Succeeded,
        Event::Succeeded,
        Event::Failed,    // init fails
        Event::Succeeded, // restore
    ];
    let mut trace = Vec::new();
    let outcome = drive(Step::CreateTempDir, 5, &mut events, &mut trace);
    assert_eq!(outcome, Some(PipelineError::InitFailed));
    assert!(trace.iter().any(|s| matches!(s, Step::Restore { .. })));
    // nothing after init ran
    assert!(!trace.contains(&Step::WriteSource));
    assert!(!trace.contains(&Step::RunProgram));
}

#[test]
fn io_error_mid_scaffold_still_restores() {
    let mut events = vec![
        Event::Succeeded,
        Event::Succeeded,
        Event::Succeeded,
        Event::CacheFound,
        Event::IoError,   // writing the cache config fails
        Event::Succeeded, // restore
    ];
    let mut trace = Vec::new();
    let outcome = drive(Step::CreateTempDir, 0, &mut events, &mut trace);
    assert_eq!(outcome, Some(PipelineError::Io));
    assert!(trace.iter().any(|s| matches!(s, Step::Restore { .. })));
}

#[test]
fn failure_before_entering_needs_no_restore() {
    let mut events = vec![Event::IoError];
    let mut trace = Vec::new();
    let outcome = drive(Step::CreateTempDir, 0, &mut events, &mut trace);
    assert_eq!(outcome, Some(PipelineError::Environment));
    assert!(!trace.iter().any(|s| matches!(s, Step::Restore { .. })));
}

#[test]
fn cache_found_writes_config_before_source() {
    let mut events = vec![
        Event::Succeeded,
        Event::Succeeded,
        Event::Succeeded,
        Event::CacheFound,
        Event::Succeeded, // write cache config
        Event::Succeeded, // source
        Event::Succeeded, // pin
        Event::Succeeded, // run
        Event::Succeeded, // restore
    ];
    let mut trace = Vec::new();
    let outcome = drive(Step::CreateTempDir, 0, &mut events, &mut trace);
    assert_eq!(outcome, None);
    let cfg = trace.iter().position(|s| matches!(s, Step::WriteCacheConfig)).unwrap();
    let src = trace.iter().position(|s| matches!(s, Step::WriteSource)).unwrap();
    assert!(cfg < src);
}

#[test]
fn directive_error_aborts_before_any_step() {
    // end-to-end scenario: a malformed directive fails the parse, so no
    // pipeline is ever started and no temporary directory is created
    let err = Context::parse("// rust-runner: toolchain\nfn main(){}").unwrap_err();
    assert_eq!(err.message(), "invalid option string: toolchain");
}

#[test]
fn error_descriptions_match_their_kind() {
    assert_eq!(PipelineError::InitFailed.message(), "failed to init cargo project.");
    assert_eq!(PipelineError::RunFailed.message(), "failed to run the program.");
    assert_eq!(PipelineError::Io.message(), "failed to write the project files.");
}
