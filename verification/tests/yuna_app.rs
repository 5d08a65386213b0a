use sqlite_tools::yuna::{slide_in_frames, App, AppEvent, Effect, Event, KeyCode, KeyEvent, KeyEventKind, CONTROL};

fn press(code: KeyCode, modifiers: u8) -> AppEvent {
    AppEvent::Input(Event::Key(KeyEvent { code, modifiers, kind: KeyEventKind::Press }))
}

#[test]
fn escape_and_ctrl_c_quit() {
    let mut app = App::new();
    assert!(app.is_running());
    app.handle_events(press(KeyCode::Esc, 0));
    assert!(!app.is_running());
    let mut app = App::new();
    app.handle_events(press(KeyCode::Char('c'), CONTROL));
    assert!(!app.is_running());
    let mut app = App::new();
    app.handle_events(press(KeyCode::Char('C'), CONTROL));
    assert!(!app.is_running());
}

#[test]
fn ctrl_with_shift_c_is_a_letter() {
    let mut app = App::new();
    app.handle_events(press(KeyCode::Char('C'), CONTROL | 0b1));
    assert!(app.is_running());
    assert_eq!(app.display(), "C");
}

#[test]
fn keys_set_the_text() {
    let mut app = App::new();
    app.handle_events(press(KeyCode::Tab, 0));
    assert_eq!(app.display(), "Oops!!");
    app.handle_events(press(KeyCode::Char(' '), 0));
    assert_eq!(app.display(), "Bye, Yuna!!");
    app.handle_events(press(KeyCode::Char('a'), 0));
    assert_eq!(app.display(), "A");
    app.handle_events(press(KeyCode::Char('ß'), 0));
    assert_eq!(app.display(), "SS");
    app.handle_events(press(KeyCode::Other, 0));
    assert_eq!(app.display(), "SS");
}

#[test]
fn enter_asks_for_slide_in() {
    let mut app = App::new();
    match app.handle_events(press(KeyCode::Enter, 0)) {
        Effect::SlideIn(m) => assert_eq!(m, "Hello, Yuna!!"),
        Effect::Nothing => panic!("slide-in expected"),
    }
    assert_eq!(app.display(), "");
}

#[test]
fn only_presses_and_messages_count() {
    let mut app = App::new();
    app.handle_events(AppEvent::Input(Event::Key(KeyEvent {
        code: KeyCode::Esc,
        modifiers: 0,
        kind: KeyEventKind::Release,
    })));
    app.handle_events(AppEvent::Input(Event::Resize(80, 24)));
    app.handle_events(AppEvent::Input(Event::Mouse));
    app.handle_events(AppEvent::Tick);
    assert!(app.is_running());
    app.handle_events(AppEvent::Message("He".to_string()));
    assert_eq!(app.display(), "He");
}

#[test]
fn slide_in_grows_one_letter_at_a_time() {
    assert_eq!(slide_in_frames("Hey"), vec!["H", "He", "Hey"]);
    assert!(slide_in_frames("").is_empty());
    let frames = slide_in_frames("Hello, Yuna!!");
    assert_eq!(frames.last().unwrap(), "Hello, Yuna!!");
    assert_eq!(frames.len(), 13);
}

#[test]
fn banner() {
    let mut app = App::new();
    app.handle_events(AppEvent::Message("Hi".to_string()));
    assert_eq!(app.banner_lines(), vec!["Created For Yuna!", "~~~~~~~~~~~~~~~~~", "Hi"]);
}
