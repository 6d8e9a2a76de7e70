use barnacle::keys::{KeyCode, KeyEvent, KeyModifiers};
use barnacle::table::{ColumnId, TableHeader, TableHeaderItem};

#[test]
fn header_index_finds_first_column() {
    let header = TableHeader {
        items: vec![
            TableHeaderItem { id: ColumnId::Id, text: "Id", width: 3 },
            TableHeaderItem { id: ColumnId::Content, text: "Content", width: 30 },
            TableHeaderItem { id: ColumnId::default(), text: "Started", width: 10 },
            TableHeaderItem { id: ColumnId::Content, text: "Again", width: 1 },
        ],
    };
    assert_eq!(header.get_index(ColumnId::Content), Some(1));
    assert_eq!(header.get_index(ColumnId::Other), Some(2));
    assert_eq!(header.get_index(ColumnId::Days), None);
}

#[test]
fn key_event_from_code_has_no_modifiers() {
    let e = KeyEvent::from(KeyCode::Enter);
    assert_eq!(e.code, KeyCode::Enter);
    assert_eq!(e.modifiers, KeyModifiers::empty());
    let c = KeyEvent::new(KeyCode::Char('u'), KeyModifiers::control());
    assert!(c.modifiers.control);
    assert!(!c.modifiers.alt);
}
