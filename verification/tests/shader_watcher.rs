use shader_material::shader::{
    CompileOutcome, ShaderSource, WatchAction, WatchEvent, WatchState,
};

fn compiled(list: &[&str]) -> CompileOutcome {
    CompileOutcome::Compiled { entry_points: list.iter().map(|s| s.to_string()).collect() }
}

fn failed(message: &str) -> CompileOutcome {
    CompileOutcome::Failed { message: message.to_string() }
}

fn source() -> ShaderSource {
    ShaderSource::load("shaders/custom_shader.wgsl".to_string(), compiled(&["fragment"])).unwrap()
}

#[test]
fn load_starts_unwatched_at_revision_zero() {
    let s = source();
    assert_eq!(s.state(), WatchState::Unwatched);
    assert_eq!(s.revision(), 0);
    assert_eq!(s.compiled_revision(), 0);
    assert_eq!(s.path(), "shaders/custom_shader.wgsl");
    assert_eq!(s.entry_points(), &vec!["fragment".to_string()]);
    assert!(s.error().is_none());
    assert!(!s.reload_pending());
}

#[test]
fn load_of_a_broken_shader_fails() {
    let r = ShaderSource::load("shaders/custom_shader.wgsl".to_string(), failed("no such file"));
    let e = r.unwrap_err();
    assert_eq!(e.message(), "no such file");
}

#[test]
fn watcher_walks_through_a_good_reload() {
    let mut s = source();
    assert_eq!(s.handle(WatchEvent::Referenced), WatchAction::StartWatching);
    assert_eq!(s.state(), WatchState::Watching);
    assert_eq!(s.handle(WatchEvent::Referenced), WatchAction::Nothing);
    assert_eq!(s.state(), WatchState::Watching);

    assert_eq!(s.handle(WatchEvent::FileChanged), WatchAction::Nothing);
    assert_eq!(s.state(), WatchState::ChangedPending);
    assert!(s.reload_pending());
    assert_eq!(s.revision(), 1);
    assert_eq!(s.compiled_revision(), 0);

    let action = s.handle(WatchEvent::Reload(compiled(&["fragment", "my_entry_point"])));
    assert_eq!(action, WatchAction::InvalidatePipelines);
    assert_eq!(s.state(), WatchState::Reloaded);
    assert_eq!(s.compiled_revision(), 1);
    assert_eq!(s.entry_points().len(), 2);

    assert_eq!(s.handle(WatchEvent::PipelinesInvalidated), WatchAction::Nothing);
    assert_eq!(s.state(), WatchState::Watching);
}

#[test]
fn failed_reload_stays_reloaded_with_the_error() {
    let mut s = source();
    s.handle(WatchEvent::Referenced);
    s.handle(WatchEvent::FileChanged);
    let action = s.handle(WatchEvent::Reload(failed("syntax error")));
    assert_eq!(action, WatchAction::ReportError);
    assert_eq!(s.state(), WatchState::Reloaded);
    assert_eq!(s.error().unwrap(), "syntax error");
    assert_eq!(s.revision(), 1);
    assert_eq!(s.compiled_revision(), 0);
    assert_eq!(s.entry_points(), &vec!["fragment".to_string()]);

    assert_eq!(s.handle(WatchEvent::PipelinesInvalidated), WatchAction::Nothing);
    assert_eq!(s.state(), WatchState::Reloaded);
    assert_eq!(s.error().unwrap(), "syntax error");

    // the next modification gives the shader another chance
    s.handle(WatchEvent::FileChanged);
    assert_eq!(s.state(), WatchState::ChangedPending);
    assert_eq!(s.revision(), 2);
    assert_eq!(s.handle(WatchEvent::Reload(compiled(&["fragment"]))), WatchAction::InvalidatePipelines);
    assert!(s.error().is_none());
    assert_eq!(s.compiled_revision(), 2);
}

#[test]
fn events_out_of_turn_change_nothing() {
    let mut s = source();
    assert_eq!(s.handle(WatchEvent::FileChanged), WatchAction::Nothing);
    assert_eq!(s.state(), WatchState::Unwatched);
    assert_eq!(s.revision(), 0);
    assert_eq!(s.handle(WatchEvent::Reload(failed("x"))), WatchAction::Nothing);
    assert_eq!(s.state(), WatchState::Unwatched);
    assert!(s.error().is_none());
    assert_eq!(s.handle(WatchEvent::PipelinesInvalidated), WatchAction::Nothing);
    assert_eq!(s.state(), WatchState::Unwatched);

    s.handle(WatchEvent::Referenced);
    assert_eq!(s.handle(WatchEvent::Reload(compiled(&[]))), WatchAction::Nothing);
    assert_eq!(s.state(), WatchState::Watching);
    assert_eq!(s.entry_points().len(), 1);
}

#[test]
fn every_modification_counts() {
    let mut s = source();
    s.handle(WatchEvent::Referenced);
    for expected in 1..=5u64 {
        s.handle(WatchEvent::FileChanged);
        assert_eq!(s.revision(), expected);
        assert_eq!(s.state(), WatchState::ChangedPending);
    }
    s.handle(WatchEvent::Reload(compiled(&["fragment"])));
    assert_eq!(s.compiled_revision(), 5);
}
