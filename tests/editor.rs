use ssh_config_editor::app::{App, AppState, KeyCode, KeyInput, KeyKind};
use ssh_config_editor::sshconfig::{Config, Key};
use tui_textarea::{Input, Key as TextKey};

fn press(code: KeyCode) -> KeyInput {
    let key = match code {
        KeyCode::Char(c) => TextKey::Char(c),
        KeyCode::Esc => TextKey::Esc,
        KeyCode::Enter => TextKey::Enter,
        KeyCode::Up => TextKey::Up,
        KeyCode::Down => TextKey::Down,
        KeyCode::Left => TextKey::Left,
        KeyCode::Right => TextKey::Right,
        KeyCode::Home => TextKey::Home,
        KeyCode::End => TextKey::End,
        KeyCode::Delete => TextKey::Delete,
        KeyCode::Other => TextKey::Null,
    };
    KeyInput { kind: KeyKind::Press, code, text: Input { key, ctrl: false, alt: false, shift: false } }
}

fn backspace() -> KeyInput {
    KeyInput {
        kind: KeyKind::Press,
        code: KeyCode::Other,
        text: Input { key: TextKey::Backspace, ctrl: false, alt: false, shift: false },
    }
}

fn feed(app: &mut App, codes: &[KeyCode]) {
    for c in codes {
        app.handle_key(press(*c));
    }
}

fn field(app: &App, i: usize, k: Key) -> Option<String> {
    app.config()[i].get(k).cloned()
}

fn select_idx(app: &App) -> Option<usize> {
    match app.state() {
        AppState::Select(s) => Some(s.idx),
        _ => None,
    }
}

#[test]
fn starts_in_main_with_nothing_selected() {
    let app = App::default();
    assert!(matches!(app.state(), AppState::Main(_)));
    assert_eq!(app.selected(), None);
    assert_eq!(app.field_selected(), None);
    assert_eq!(app.config().len(), 4);
    assert!(!app.should_exit());
}

#[test]
fn enter_field_view_resets_field_cursor() {
    let mut app = App::default();
    feed(&mut app, &[KeyCode::Down, KeyCode::Down, KeyCode::Down]);
    assert_eq!(app.selected(), Some(2));
    feed(&mut app, &[KeyCode::Right]);
    assert_eq!(select_idx(&app), Some(2));
    assert_eq!(app.field_selected(), Some(0));
    feed(&mut app, &[KeyCode::Char('j'), KeyCode::Char('j'), KeyCode::Char('j')]);
    assert_eq!(app.field_selected(), Some(3));
    feed(&mut app, &[KeyCode::Left]);
    assert!(matches!(app.state(), AppState::Main(_)));
    feed(&mut app, &[KeyCode::Char('l')]);
    assert_eq!(select_idx(&app), Some(2));
    assert_eq!(app.field_selected(), Some(0));
}

#[test]
fn enter_field_view_without_selection_stays_in_main() {
    let mut app = App::default();
    feed(&mut app, &[KeyCode::Right]);
    assert!(matches!(app.state(), AppState::Main(_)));
    assert_eq!(app.field_selected(), None);
}

#[test]
fn list_cursor_moves_and_clamps() {
    let mut app = App::default();
    feed(&mut app, &[KeyCode::Up]);
    assert_eq!(app.selected(), Some(3));
    feed(&mut app, &[KeyCode::Down]);
    assert_eq!(app.selected(), Some(3));
    feed(&mut app, &[KeyCode::Char('g')]);
    assert_eq!(app.selected(), Some(0));
    feed(&mut app, &[KeyCode::Char('k')]);
    assert_eq!(app.selected(), Some(0));
    feed(&mut app, &[KeyCode::Char('G')]);
    assert_eq!(app.selected(), Some(3));
    feed(&mut app, &[KeyCode::Home]);
    assert_eq!(app.selected(), Some(0));
    feed(&mut app, &[KeyCode::End]);
    assert_eq!(app.selected(), Some(3));
}

#[test]
fn moving_in_main_clears_field_cursor() {
    let mut app = App::default();
    feed(&mut app, &[KeyCode::Down, KeyCode::Right, KeyCode::Down, KeyCode::Left]);
    assert_eq!(app.field_selected(), Some(1));
    feed(&mut app, &[KeyCode::Down]);
    assert_eq!(app.field_selected(), None);
    assert_eq!(app.selected(), Some(1));
}

#[test]
fn field_cursor_stays_in_key_list() {
    let mut app = App::default();
    feed(&mut app, &[KeyCode::Down, KeyCode::Right, KeyCode::Up]);
    assert_eq!(app.field_selected(), Some(0));
    for _ in 0..20 {
        feed(&mut app, &[KeyCode::Down]);
    }
    assert_eq!(app.field_selected(), Some(8));
}

#[test]
fn select_delete_removes_only_that_field() {
    let mut app = App::default();
    feed(&mut app, &[KeyCode::Down, KeyCode::Right]);
    assert_eq!(app.field_selected(), Some(0));
    feed(&mut app, &[KeyCode::Delete]);
    assert_eq!(field(&app, 0, Key::HostName), None);
    assert_eq!(field(&app, 0, Key::User).as_deref(), Some("John"));
    assert_eq!(app.config()[0].host().as_str(), "aaa");
    assert_eq!(field(&app, 1, Key::HostName).as_deref(), Some("127.0.1.1"));
    assert_eq!(app.config().len(), 4);
    assert_eq!(select_idx(&app), Some(0));
    feed(&mut app, &[KeyCode::Char('d')]);
    assert_eq!(field(&app, 0, Key::User).as_deref(), Some("John"));
}

#[test]
fn edit_cancel_keeps_value() {
    let mut app = App::default();
    feed(&mut app, &[KeyCode::Down, KeyCode::Right, KeyCode::Down, KeyCode::Right]);
    assert!(matches!(app.state(), AppState::Edit(e) if e.key == Key::User && e.config_idx == 0));
    feed(&mut app, &[KeyCode::Char('x'), KeyCode::Char('y')]);
    app.handle_key(backspace());
    feed(&mut app, &[KeyCode::Esc]);
    assert_eq!(select_idx(&app), Some(0));
    assert_eq!(field(&app, 0, Key::User).as_deref(), Some("John"));
}

#[test]
fn edit_cancel_keeps_absent_field_absent() {
    let mut app = App::default();
    feed(&mut app, &[KeyCode::Down, KeyCode::Right, KeyCode::Down, KeyCode::Down]);
    feed(&mut app, &[KeyCode::Right, KeyCode::Char('z'), KeyCode::Esc]);
    assert_eq!(field(&app, 0, Key::IdentityFile), None);
}

#[test]
fn edit_commit_sets_exact_value() {
    let mut app = App::default();
    feed(&mut app, &[KeyCode::Down, KeyCode::Right, KeyCode::Down, KeyCode::Down]);
    feed(&mut app, &[KeyCode::Right, KeyCode::Char('x'), KeyCode::Enter]);
    assert_eq!(select_idx(&app), Some(0));
    assert_eq!(field(&app, 0, Key::IdentityFile).as_deref(), Some("x"));
    assert_eq!(field(&app, 0, Key::User).as_deref(), Some("John"));
}

#[test]
fn edit_starts_from_current_value_with_cursor_at_end() {
    let mut app = App::default();
    feed(&mut app, &[KeyCode::Down, KeyCode::Right, KeyCode::Down, KeyCode::Right]);
    feed(&mut app, &[KeyCode::Char('x')]);
    app.handle_key(backspace());
    app.handle_key(backspace());
    feed(&mut app, &[KeyCode::Char('!'), KeyCode::Enter]);
    assert_eq!(field(&app, 0, Key::User).as_deref(), Some("Joh!"));
}

#[test]
fn edit_ignores_bindings_of_other_modes() {
    let mut app = App::default();
    feed(&mut app, &[KeyCode::Down, KeyCode::Right, KeyCode::Right]);
    feed(&mut app, &[KeyCode::Char('q'), KeyCode::Char('d'), KeyCode::Enter]);
    assert!(!app.should_exit());
    assert_eq!(field(&app, 0, Key::HostName).as_deref(), Some("127.0.0.1qd"));
}

#[test]
fn main_delete_removes_selected_record() {
    let mut app = App::default();
    feed(&mut app, &[KeyCode::Delete]);
    assert_eq!(app.config().len(), 4);
    feed(&mut app, &[KeyCode::Down, KeyCode::Down, KeyCode::Char('d')]);
    assert_eq!(app.config().len(), 3);
    assert_eq!(app.config()[1].host().as_str(), "ccc");
    assert_eq!(app.selected(), Some(1));
}

#[test]
fn main_delete_last_record_moves_cursor_up() {
    let mut app = App::default();
    feed(&mut app, &[KeyCode::End, KeyCode::Delete]);
    assert_eq!(app.config().len(), 3);
    assert_eq!(app.selected(), Some(2));
    feed(&mut app, &[KeyCode::Delete, KeyCode::Delete, KeyCode::Delete]);
    assert!(app.config().is_empty());
    assert_eq!(app.selected(), None);
    feed(&mut app, &[KeyCode::Delete, KeyCode::Down, KeyCode::Right]);
    assert!(matches!(app.state(), AppState::Main(_)));
    assert_eq!(app.selected(), None);
}

#[test]
fn quit_sets_exit_flag() {
    let mut app = App::default();
    feed(&mut app, &[KeyCode::Char('q')]);
    assert!(app.should_exit());
    let mut app = App::with_config(Config::mock());
    feed(&mut app, &[KeyCode::Down, KeyCode::Right, KeyCode::Esc]);
    assert!(app.should_exit());
    assert_eq!(select_idx(&app), Some(0));
}

#[test]
fn unbound_keys_change_nothing() {
    let mut app = App::default();
    feed(&mut app, &[KeyCode::Char('z'), KeyCode::Other, KeyCode::Enter]);
    assert!(matches!(app.state(), AppState::Main(_)));
    assert_eq!(app.selected(), None);
    assert!(!app.should_exit());
}

#[test]
fn releases_and_repeats_are_ignored() {
    let mut app = App::default();
    for kind in [KeyKind::Release, KeyKind::Repeat] {
        let mut k = press(KeyCode::Down);
        k.kind = kind;
        app.handle_key(k);
    }
    assert_eq!(app.selected(), None);
    let mut k = press(KeyCode::Char('q'));
    k.kind = KeyKind::Release;
    app.handle_key(k);
    assert!(!app.should_exit());
}
