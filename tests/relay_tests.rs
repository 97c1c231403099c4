use chant::directory::Directory;
use chant::read_transaction::ReadTransactionMethods;
use chant::relay::{get_file_id, message_actions, text_source, Document, InboundMessage, RelayAction, RelayCursor, TextSource};
use chant::user::{Role, User};
use chant::write_transaction::WriteTransaction;

fn message(text: Option<&str>, file_name: Option<&str>) -> InboundMessage {
    InboundMessage {
        message_id: 7,
        chat_id: 111,
        text: text.map(|t| t.to_string()),
        document: file_name.map(|n| Document { file_id: "FILE".to_string(), file_name: Some(n.to_string()) }),
    }
}

#[test]
fn plaintext_document_gives_its_file_id() {
    assert_eq!(get_file_id(&message(None, Some("notes.txt"))), Some("FILE".to_string()));
}

#[test]
fn other_extension_gives_no_file_id() {
    assert_eq!(get_file_id(&message(None, Some("notes.pdf"))), None);
    assert_eq!(get_file_id(&message(None, Some("notes.txt.pdf"))), None);
    assert_eq!(get_file_id(&message(None, Some("txt"))), None);
}

#[test]
fn document_without_name_gives_no_file_id() {
    let m = InboundMessage {
        message_id: 1,
        chat_id: 1,
        text: None,
        document: Some(Document { file_id: "F".to_string(), file_name: None }),
    };
    assert_eq!(get_file_id(&m), None);
}

#[test]
fn inline_text_comes_first() {
    match text_source(&message(Some("hello"), Some("notes.txt"))) {
        TextSource::Inline(t) => assert_eq!(t, "hello"),
        other => panic!("unexpected {:?}", other),
    }
    match text_source(&message(None, Some("notes.txt"))) {
        TextSource::Document(f) => assert_eq!(f, "FILE"),
        other => panic!("unexpected {:?}", other),
    }
}

#[test]
fn non_plaintext_document_is_skipped_and_cursor_advances() {
    let m = message(None, Some("scan.pdf"));
    assert!(matches!(text_source(&m), TextSource::Nothing));
    let actions = message_actions(&m, &None, &vec![222]);
    assert!(actions.is_empty());
    let mut cursor = RelayCursor::new();
    assert_eq!(cursor.offset, 0);
    cursor.advance(41);
    assert_eq!(cursor.offset, 42);
}

#[test]
fn end_to_end_message_is_queued_forwarded_and_acknowledged() {
    let mut tx = WriteTransaction { directory: Directory::new() };
    let roster = vec![
        User { telegram_id: 111, role: Role::Offerer, commands_queue: Vec::new() },
        User { telegram_id: 222, role: Role::Cantor, commands_queue: Vec::new() },
    ];
    assert_eq!(tx.add_users(&roster), Ok(()));
    let cantors = tx.get_cantors_telegram_user_ids();
    assert_eq!(cantors, vec![222]);

    let m = message(Some("add relation X to Y"), None);
    let text = match text_source(&m) {
        TextSource::Inline(t) => Some(t),
        _ => None,
    };
    let actions = message_actions(&m, &text, &cantors);
    assert_eq!(actions.len(), 3);
    match &actions[0] {
        RelayAction::QueueCommands { user_id, text } => {
            assert_eq!(user_id.value, User::id_from_telegram_id(111).value);
            assert_eq!(text, "add relation X to Y");
        }
        other => panic!("unexpected {:?}", other),
    }
    let forwards: Vec<i64> = actions
        .iter()
        .filter_map(|a| match a {
            RelayAction::Forward { message_id, from_chat_id, to_chat_id } => {
                assert_eq!(*message_id, 7);
                assert_eq!(*from_chat_id, 111);
                Some(*to_chat_id)
            }
            _ => None,
        })
        .collect();
    assert_eq!(forwards, vec![222]);
    match &actions[2] {
        RelayAction::React { chat_id, message_id } => {
            assert_eq!(*chat_id, 111);
            assert_eq!(*message_id, 7);
        }
        other => panic!("unexpected {:?}", other),
    }
}
