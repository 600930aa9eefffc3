use keygen::app::{AppState, KeyAction, KeygenApp, KEY_DOWN, KEY_ENTER, KEY_LEFT, KEY_MENU, KEY_RIGHT, KEY_UP};
use keygen::generators::GenType;
use keygen::rng::Rng;
use keygen::storage::SavedKey;

fn plenty() -> Rng {
    Rng::new((0..1000u32).map(|i| i.wrapping_mul(2654435761)).collect())
}

fn saved(value: &str) -> SavedKey {
    SavedKey { gen_type: "PIN Code".to_string(), length: 4, entropy_bits: 12, value: value.to_string() }
}

#[test]
fn starts_on_type_menu() {
    let app = KeygenApp::new();
    assert_eq!(app.state, AppState::TypeSelect);
    assert!(app.needs_redraw);
    assert_eq!(app.type_cursor, 0);
    assert_eq!(app.selected_type, GenType::Password);
    assert_eq!(app.length, 16);
    assert_eq!(app.result_value, "");
    assert_eq!(app.result_entropy, 0);
    assert!(app.saved.is_empty());
    assert_eq!(app.saved_cursor, 0);
}

#[test]
fn menu_key_quits_from_type_menu() {
    let mut app = KeygenApp::new();
    assert_eq!(app.handle_key(KEY_MENU, &mut plenty()), KeyAction::Quit);
    assert_eq!(app.state, AppState::TypeSelect);
}

#[test]
fn type_cursor_stays_on_menu() {
    let mut app = KeygenApp::new();
    let mut rng = plenty();
    app.handle_key(KEY_UP, &mut rng);
    assert_eq!(app.type_cursor, 0);
    for _ in 0..10 {
        app.handle_key(KEY_DOWN, &mut rng);
    }
    assert_eq!(app.type_cursor, 5);
    app.handle_key(KEY_UP, &mut rng);
    assert_eq!(app.type_cursor, 4);
}

#[test]
fn enter_selects_type_with_default_length() {
    let mut app = KeygenApp::new();
    let mut rng = plenty();
    app.handle_key(KEY_DOWN, &mut rng);
    app.handle_key(KEY_DOWN, &mut rng);
    assert_eq!(app.handle_key(KEY_ENTER, &mut rng), KeyAction::Continue);
    assert_eq!(app.state, AppState::Configure);
    assert_eq!(app.selected_type, GenType::Passphrase);
    assert_eq!(app.length, 6);
}

#[test]
fn length_stays_within_limits() {
    let mut app = KeygenApp::new();
    let mut rng = plenty();
    app.handle_key(KEY_DOWN, &mut rng);
    app.handle_key(KEY_ENTER, &mut rng);
    for _ in 0..20 {
        app.handle_key(KEY_LEFT, &mut rng);
    }
    assert_eq!(app.length, 4);
    for _ in 0..20 {
        app.handle_key(KEY_RIGHT, &mut rng);
    }
    assert_eq!(app.length, 12);
    app.handle_key(KEY_MENU, &mut rng);
    assert_eq!(app.state, AppState::TypeSelect);
}

#[test]
fn generate_shows_result_with_entropy() {
    let mut app = KeygenApp::new();
    let mut rng = plenty();
    app.handle_key(KEY_ENTER, &mut rng);
    assert_eq!(app.handle_key(' ', &mut rng), KeyAction::Continue);
    assert_eq!(app.state, AppState::Result);
    assert_eq!(app.result_value.chars().count(), 16);
    assert_eq!(app.result_entropy, 96);
    let first = app.result_value.clone();
    app.handle_key('r', &mut rng);
    assert_eq!(app.state, AppState::Result);
    assert_eq!(app.result_value.chars().count(), 16);
    assert_ne!(app.result_value, first);
    app.handle_key(KEY_LEFT, &mut rng);
    assert_eq!(app.state, AppState::TypeSelect);
}

#[test]
fn running_out_of_words_changes_nothing() {
    let mut app = KeygenApp::new();
    let mut rng = plenty();
    app.handle_key(KEY_ENTER, &mut rng);
    let mut empty = Rng::new(vec![]);
    assert_eq!(app.handle_key(KEY_ENTER, &mut empty), KeyAction::NeedEntropy);
    assert_eq!(app.state, AppState::Configure);
    assert_eq!(app.result_value, "");
    assert_eq!(app.handle_key(KEY_ENTER, &mut rng), KeyAction::Continue);
    assert_eq!(app.state, AppState::Result);
}

#[test]
fn save_appends_current_key() {
    let mut app = KeygenApp::new();
    let mut rng = plenty();
    app.handle_key(KEY_DOWN, &mut rng);
    app.handle_key(KEY_ENTER, &mut rng);
    app.handle_key(KEY_ENTER, &mut rng);
    assert_eq!(app.handle_key('s', &mut rng), KeyAction::SaveKeys);
    assert_eq!(app.saved.len(), 1);
    let k = &app.saved[0];
    assert_eq!(k.gen_type, "PIN Code");
    assert_eq!(k.length, 6);
    assert_eq!(k.entropy_bits, 18);
    assert_eq!(k.value, app.result_value);
    assert_eq!(app.state, AppState::Result);
}

#[test]
fn saved_list_navigation_and_delete() {
    let mut app = KeygenApp::new();
    app.init_storage(vec![saved("one"), saved("two"), saved("three")]);
    let mut rng = plenty();
    app.handle_key('S', &mut rng);
    assert_eq!(app.state, AppState::Saved);
    app.handle_key(KEY_UP, &mut rng);
    assert_eq!(app.saved_cursor, 0);
    for _ in 0..5 {
        app.handle_key(KEY_DOWN, &mut rng);
    }
    assert_eq!(app.saved_cursor, 2);
    assert_eq!(app.handle_key('d', &mut rng), KeyAction::SaveKeys);
    assert_eq!(app.saved.len(), 2);
    assert_eq!(app.saved_cursor, 1);
    assert_eq!(app.saved[1].value, "two");
    app.handle_key(KEY_UP, &mut rng);
    assert_eq!(app.handle_key('D', &mut rng), KeyAction::SaveKeys);
    assert_eq!(app.saved.len(), 1);
    assert_eq!(app.saved[0].value, "two");
    assert_eq!(app.saved_cursor, 0);
    app.handle_key('d', &mut rng);
    assert!(app.saved.is_empty());
    assert_eq!(app.saved_cursor, 0);
    assert_eq!(app.handle_key('d', &mut rng), KeyAction::Continue);
    app.handle_key(KEY_MENU, &mut rng);
    assert_eq!(app.state, AppState::TypeSelect);
}

#[test]
fn other_keys_are_ignored_but_redraw() {
    let mut app = KeygenApp::new();
    app.needs_redraw = false;
    assert_eq!(app.handle_key('x', &mut plenty()), KeyAction::Continue);
    assert!(app.needs_redraw);
    assert_eq!(app.state, AppState::TypeSelect);
}

#[test]
fn init_storage_keeps_cursor() {
    let mut app = KeygenApp::new();
    app.init_storage(vec![saved("one"), saved("two")]);
    let mut rng = plenty();
    app.handle_key('s', &mut rng);
    app.handle_key(KEY_DOWN, &mut rng);
    assert_eq!(app.saved_cursor, 1);
    app.init_storage(vec![saved("three")]);
    assert_eq!(app.saved_cursor, 1);
    assert_eq!(app.saved.len(), 1);
    assert_eq!(app.state, AppState::Saved);
    // A cursor past the end: moving down does nothing, deleting does nothing, up moves back.
    app.handle_key(KEY_DOWN, &mut rng);
    assert_eq!(app.saved_cursor, 1);
    assert_eq!(app.handle_key('d', &mut rng), KeyAction::Continue);
    app.handle_key(KEY_UP, &mut rng);
    assert_eq!(app.saved_cursor, 0);
}

#[test]
fn accepts_every_key_in_reachable_states() {
    let mut app = KeygenApp::new();
    let mut rng = plenty();
    for key in [KEY_ENTER, ' ', 'r', KEY_DOWN, KEY_MENU] {
        assert!(app.accepts(key));
        app.handle_key(key, &mut rng);
    }
}

#[test]
fn accepts_refuses_enter_off_the_menu() {
    let mut app = KeygenApp::new();
    app.type_cursor = 6;
    assert!(!app.accepts(KEY_ENTER));
    assert!(app.accepts(KEY_UP));
    app.type_cursor = 0;
    app.state = AppState::Configure;
    app.length = usize::MAX;
    assert!(!app.accepts(KEY_ENTER));
    assert!(app.accepts(KEY_LEFT));
}

#[test]
fn random_key_presses_keep_the_invariant() {
    let keys = [KEY_UP, KEY_DOWN, KEY_LEFT, KEY_RIGHT, KEY_ENTER, KEY_MENU, ' ', 'r', 's', 'S', 'd', 'x'];
    let mut app = KeygenApp::new();
    app.init_storage(vec![saved("a"), saved("b")]);
    let mut rng = plenty();
    let mut x: u32 = 12345;
    for _ in 0..2000 {
        x = x.wrapping_mul(1103515245).wrapping_add(12345);
        let key = keys[(x >> 16) as usize % keys.len()];
        assert!(app.accepts(key));
        if app.handle_key(key, &mut rng) == KeyAction::NeedEntropy {
            rng = plenty();
            app.handle_key(key, &mut rng);
        }
        assert!(app.type_cursor < GenType::all().len());
        assert!(app.selected_type.min_length() <= app.length && app.length <= app.selected_type.max_length());
        assert!(app.saved_cursor == 0 || app.saved_cursor < app.saved.len());
    }
}
