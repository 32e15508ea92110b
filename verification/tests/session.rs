use wie_jni::keys::KeyCode;
use wie_jni::session::{Session, SurfaceAction, TickStep};

#[test]
fn early_window_is_claimed_by_the_load() {
    let mut s = Session::new();
    assert_eq!(s.surface_created(true), SurfaceAction::KeepPending);
    assert!(s.begin_load());
    s.end_load(true);
    assert_eq!(s.surface_destroyed(), true);
}

#[test]
fn window_after_load_goes_to_the_screen() {
    let mut s = Session::new();
    assert!(!s.begin_load());
    s.end_load(true);
    assert_eq!(s.surface_created(true), SurfaceAction::BindToScreen);
}

#[test]
fn destroyed_surface_is_not_claimed() {
    let mut s = Session::new();
    s.surface_created(true);
    assert_eq!(s.surface_destroyed(), false);
    assert!(!s.begin_load());
}

#[test]
fn ticks_need_a_running_loaded_app() {
    let mut s = Session::new();
    assert_eq!(s.next_tick(), TickStep::Exit);
    s.start();
    assert_eq!(s.next_tick(), TickStep::Exit);
    s.begin_load();
    s.end_load(true);
    assert_eq!(s.next_tick(), TickStep::Tick);
    assert!(s.tick_finished(true));
    assert_eq!(s.next_tick(), TickStep::Tick);
    assert!(!s.tick_finished(false));
    assert_eq!(s.next_tick(), TickStep::Exit);
    s.start();
    assert_eq!(s.next_tick(), TickStep::Tick);
    s.stop();
    assert_eq!(s.next_tick(), TickStep::Exit);
}

#[test]
fn destroy_drops_everything() {
    let mut s = Session::new();
    s.begin_load();
    s.end_load(true);
    s.start();
    s.destroy();
    assert_eq!(s.next_tick(), TickStep::Exit);
    assert_eq!(s.key_event(0), None);
    assert_eq!(s.surface_created(true), SurfaceAction::KeepPending);
}

#[test]
fn failed_load_keeps_the_previous_app() {
    let mut s = Session::new();
    s.begin_load();
    s.end_load(true);
    s.begin_load();
    s.end_load(false);
    assert_eq!(s.key_event(4), Some(KeyCode::OK));
}

#[test]
fn keys_are_forwarded_only_to_a_loaded_app() {
    let mut s = Session::new();
    assert_eq!(s.key_event(0), None);
    s.begin_load();
    s.end_load(false);
    assert_eq!(s.key_event(0), None);
    s.begin_load();
    s.end_load(true);
    assert_eq!(s.key_event(0), Some(KeyCode::UP));
    assert_eq!(s.key_event(23), Some(KeyCode::STAR));
    assert_eq!(s.key_event(24), None);
}
