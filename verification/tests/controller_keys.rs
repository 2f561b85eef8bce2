use novel_reader::controller::{App, AppState, KeyInput};

fn sample_app() -> App {
    let paragraphs = vec!["A".to_string(), "B".to_string(), "C".to_string()];
    let mut app = App::new("Some Novel", "12", "The Fall", paragraphs, 100);
    app.set_viewport(80, 20);
    app
}

#[test]
fn quit_key_ends_the_loop() {
    let mut app = sample_app();
    assert!(app.is_running());
    app.handle_key(true, KeyInput::Char('q'));
    assert!(!app.is_running());
}

#[test]
fn escape_ends_the_loop_at_any_offset() {
    let mut app = sample_app();
    app.handle_key(true, KeyInput::End);
    assert_eq!(app.scroll.offset, 80);
    app.handle_key(true, KeyInput::Esc);
    assert!(!app.is_running());
    assert_eq!(app.scroll.offset, 80);
}

#[test]
fn release_events_are_ignored() {
    let mut app = sample_app();
    app.handle_key(false, KeyInput::Esc);
    assert!(app.is_running());
    app.handle_key(false, KeyInput::PageDown);
    assert_eq!(app.scroll.offset, 0);
}

#[test]
fn navigation_keys_scroll() {
    let mut app = sample_app();
    app.handle_key(true, KeyInput::Char('f'));
    assert_eq!(app.scroll.offset, 20);
    app.handle_key(true, KeyInput::Char('j'));
    assert_eq!(app.scroll.offset, 21);
    app.handle_key(true, KeyInput::Char('k'));
    assert_eq!(app.scroll.offset, 20);
    app.handle_key(true, KeyInput::Char('b'));
    assert_eq!(app.scroll.offset, 0);
    app.handle_key(true, KeyInput::Char('G'));
    assert_eq!(app.scroll.offset, 80);
    app.handle_key(true, KeyInput::Char('g'));
    assert_eq!(app.scroll.offset, 0);
    app.handle_key(true, KeyInput::Down);
    assert_eq!(app.scroll.offset, 1);
    app.handle_key(true, KeyInput::Up);
    assert_eq!(app.scroll.offset, 0);
    assert!(app.is_running());
}

#[test]
fn other_keys_do_nothing() {
    let mut app = sample_app();
    app.handle_key(true, KeyInput::Char('x'));
    app.handle_key(true, KeyInput::Other);
    assert!(app.is_running());
    assert_eq!(app.scroll.offset, 0);
}

#[test]
fn a_controller_starts_running() {
    assert_eq!(AppState::default(), AppState::Running);
    let app = sample_app();
    assert_eq!(app.state, AppState::Running);
    assert_eq!(app.scroll.offset, 0);
}
