use type_me::editor::chars_of;
use type_me::editor::Direction;
use type_me::editor::EditText;
use type_me::editor::EditorKey;
use type_me::editor::KeyboardEvent;
use type_me::ime::ImeEvent;

fn pressed(key: EditorKey) -> KeyboardEvent {
    KeyboardEvent { key, pressed: true }
}

#[test]
fn chars_of_decodes_in_order() {
    assert_eq!(chars_of("가나"), vec!['가', '나']);
    assert_eq!(chars_of(""), Vec::<char>::new());
}

#[test]
fn typing_appends_before_cursor() {
    let mut field = EditText::new();
    field.apply_key(&EditorKey::Character("ab".to_string()));
    field.apply_key(&EditorKey::Space);
    field.apply_key(&EditorKey::Character("c".to_string()));
    assert_eq!(field.before_cursor, vec!['a', 'b', ' ', 'c']);
    assert!(field.after_cursor.is_empty());
}

#[test]
fn preedit_replaces_composition_and_commit_appends() {
    let mut field = EditText::new();
    let events = vec![
        ImeEvent::Enabled,
        ImeEvent::Preedit("ㅁ".to_string()),
        ImeEvent::Preedit("모".to_string()),
        ImeEvent::Commit("모".to_string()),
    ];
    field.listen_ime_events(&events);
    assert_eq!(field.before_cursor, vec!['모']);
    assert_eq!(field.ime_buffer, vec!['모']);
}

#[test]
fn backspace_waits_for_composition_to_clear() {
    let mut field = EditText::new();
    field.apply_key(&EditorKey::Character("ab".to_string()));
    field.listen_ime_events(&vec![ImeEvent::Preedit("ㅅ".to_string())]);
    field.apply_key(&EditorKey::Backspace);
    assert_eq!(field.before_cursor, vec!['a', 'b']);
    field.listen_ime_events(&vec![ImeEvent::Preedit(String::new())]);
    field.apply_key(&EditorKey::Backspace);
    assert_eq!(field.before_cursor, vec!['a']);
}

#[test]
fn backspace_on_empty_field_changes_nothing() {
    let mut field = EditText::new();
    field.apply_key(&EditorKey::Backspace);
    assert!(field.before_cursor.is_empty());
    assert!(field.after_cursor.is_empty());
}

#[test]
fn enter_clears_committed_text_before_cursor() {
    let mut field = EditText::new();
    field.apply_key(&EditorKey::Character("hi".to_string()));
    field.apply_key(&EditorKey::Enter);
    assert!(field.before_cursor.is_empty());
    field.apply_key(&EditorKey::Enter);
    assert!(field.before_cursor.is_empty());
}

#[test]
fn cursor_moves_left_and_right() {
    let mut field = EditText::new();
    field.apply_key(&EditorKey::Character("abc".to_string()));
    field.move_cursor(Direction::Left);
    assert_eq!(field.before_cursor, vec!['a', 'b']);
    assert_eq!(field.after_cursor, vec!['c']);
    field.move_cursor(Direction::Left);
    assert_eq!(field.before_cursor, vec!['a']);
    assert_eq!(field.after_cursor, vec!['b', 'c']);
    field.move_cursor(Direction::Right);
    assert_eq!(field.before_cursor, vec!['a', 'b']);
    assert_eq!(field.after_cursor, vec!['c']);
}

#[test]
fn cursor_stops_at_the_ends() {
    let mut field = EditText::new();
    field.apply_key(&EditorKey::Character("a".to_string()));
    field.move_cursor(Direction::Right);
    assert_eq!(field.before_cursor, vec!['a']);
    assert!(field.after_cursor.is_empty());
    field.move_cursor(Direction::Left);
    field.move_cursor(Direction::Left);
    assert!(field.before_cursor.is_empty());
    assert_eq!(field.after_cursor, vec!['a']);
}

#[test]
fn typing_lands_at_the_cursor() {
    let mut field = EditText::new();
    field.apply_key(&EditorKey::Character("ad".to_string()));
    field.move_cursor(Direction::Left);
    field.apply_key(&EditorKey::Character("bc".to_string()));
    assert_eq!(field.before_cursor, vec!['a', 'b', 'c']);
    assert_eq!(field.after_cursor, vec!['d']);
}

#[test]
fn releases_are_ignored() {
    let mut field = EditText::new();
    let events = vec![
        pressed(EditorKey::Character("a".to_string())),
        KeyboardEvent { key: EditorKey::Backspace, pressed: false },
        pressed(EditorKey::Character("b".to_string())),
    ];
    field.listen_keyboard_input_events(&events);
    assert_eq!(field.before_cursor, vec!['a', 'b']);
}

#[test]
fn keyboard_event_batch_applies_in_order() {
    let mut field = EditText::new();
    let events = vec![
        pressed(EditorKey::Character("ab".to_string())),
        pressed(EditorKey::ArrowLeft),
        pressed(EditorKey::Backspace),
        pressed(EditorKey::ArrowRight),
        pressed(EditorKey::Space),
    ];
    field.listen_keyboard_input_events(&events);
    assert_eq!(field.before_cursor, vec!['b', ' ']);
    assert!(field.after_cursor.is_empty());
}
