use barnacle::input_bar::{VimBar, VimCommandBarResult};
use barnacle::keys::{KeyCode, KeyEvent, KeyModifiers};

fn key(code: KeyCode) -> KeyEvent {
    KeyEvent::new(code, KeyModifiers::empty())
}

fn ctrl(c: char) -> KeyEvent {
    KeyEvent::new(KeyCode::Char(c), KeyModifiers::control())
}

fn type_text(bar: &mut VimBar, text: &str) {
    for c in text.chars() {
        bar.handle_input(key(KeyCode::Char(c)));
    }
}

#[test]
fn delete_before_on_empty_line_aborts() {
    let mut bar = VimBar::new();
    assert!(matches!(bar.delete_before(), VimCommandBarResult::Aborted));
    assert!(matches!(bar.handle_input(key(KeyCode::Backspace)), VimCommandBarResult::Aborted));
    assert_eq!(bar.input_cursor_position(), 0);
}

#[test]
fn enter_finishes_with_text_and_resets() {
    let mut bar = VimBar::new();
    type_text(&mut bar, "abc");
    assert_eq!(bar.input_cursor_position(), 3);
    match bar.handle_input(key(KeyCode::Enter)) {
        VimCommandBarResult::Finished(text) => assert_eq!(text, "abc"),
        _ => panic!("expected a finished line"),
    }
    assert_eq!(bar.text(), "");
    assert_eq!(bar.input_index(), 0);
    assert_eq!(bar.input_cursor_position(), 0);
}

#[test]
fn column_counts_wide_characters() {
    let mut bar = VimBar::new();
    bar.insert('a');
    bar.insert('日');
    bar.insert('b');
    assert_eq!(bar.text(), "a日b");
    assert_eq!(bar.input_index(), 3);
    assert_eq!(bar.input_cursor_position(), 4);
    bar.move_left();
    assert_eq!(bar.input_cursor_position(), 3);
    bar.move_left();
    assert_eq!(bar.input_index(), 1);
    assert_eq!(bar.input_cursor_position(), 1);
    bar.move_right();
    assert_eq!(bar.input_cursor_position(), 3);
}

#[test]
fn column_follows_every_edit() {
    let mut bar = VimBar::new();
    type_text(&mut bar, "x日本y");
    bar.handle_input(key(KeyCode::Left));
    bar.handle_input(key(KeyCode::Left));
    assert_eq!(bar.input_cursor_position(), 3);
    bar.handle_input(key(KeyCode::Backspace));
    assert_eq!(bar.text(), "x本y");
    assert_eq!(bar.input_index(), 1);
    assert_eq!(bar.input_cursor_position(), 1);
    bar.handle_input(key(KeyCode::Delete));
    assert_eq!(bar.text(), "xy");
    assert_eq!(bar.input_cursor_position(), 1);
    bar.handle_input(key(KeyCode::Char('漢')));
    assert_eq!(bar.text(), "x漢y");
    assert_eq!(bar.input_cursor_position(), 3);
}

#[test]
fn cursor_moves_are_clamped() {
    let mut bar = VimBar::new();
    bar.move_left();
    assert_eq!(bar.input_index(), 0);
    type_text(&mut bar, "ab");
    bar.move_right();
    assert_eq!(bar.input_index(), 2);
    assert_eq!(bar.input_cursor_position(), 2);
    bar.delete_at_cursor();
    assert_eq!(bar.text(), "ab");
}

#[test]
fn backspace_at_start_keeps_text() {
    let mut bar = VimBar::new();
    type_text(&mut bar, "ab");
    bar.handle_input(ctrl('a'));
    assert_eq!(bar.input_index(), 0);
    assert_eq!(bar.input_cursor_position(), 0);
    assert!(matches!(bar.handle_input(key(KeyCode::Backspace)), VimCommandBarResult::StillEditing));
    assert_eq!(bar.text(), "ab");
}

#[test]
fn ctrl_u_clears_and_ctrl_a_goes_to_start() {
    let mut bar = VimBar::new();
    type_text(&mut bar, "hello");
    bar.handle_input(ctrl('a'));
    assert_eq!(bar.text(), "hello");
    assert_eq!(bar.input_cursor_position(), 0);
    bar.handle_input(key(KeyCode::Char('>')));
    assert_eq!(bar.text(), ">hello");
    bar.handle_input(ctrl('u'));
    assert_eq!(bar.text(), "");
    assert_eq!(bar.input_cursor_position(), 0);
}

#[test]
fn keys_without_width_or_meaning_change_nothing() {
    let mut bar = VimBar::new();
    type_text(&mut bar, "ok");
    assert!(matches!(bar.handle_input(key(KeyCode::Char('\u{7}'))), VimCommandBarResult::StillEditing));
    bar.handle_input(key(KeyCode::Tab));
    bar.handle_input(key(KeyCode::F(3)));
    bar.handle_input(ctrl('z'));
    assert_eq!(bar.text(), "ok");
    assert_eq!(bar.input_cursor_position(), 2);
}

#[test]
fn goto_being_keeps_text() {
    let mut bar = VimBar::new();
    type_text(&mut bar, "abc");
    bar.goto_being();
    assert_eq!(bar.input_index(), 0);
    assert_eq!(bar.input_cursor_position(), 0);
    bar.clear();
    assert_eq!(bar.text(), "");
    assert_eq!(bar.buffer().len_chars(), 0);
}
