use thread_store::engine::{Cell, Param};
use thread_store::error::{Column, Fault, StoreError};
use thread_store::mapper::{decode_ids, decode_message, decode_messages, decode_thread};
use thread_store::plan::{plan_creation, plan_deletion, plan_update};
use thread_store::secret::{
    blank, key_of_answer, store_api_key, store_request, stored_of_answer, white_space, KeyAnswer,
    KeyRequest, StoreAnswer,
};
use thread_store::statement::{Query, Statement};
use thread_store::thread::{
    copy_title, relabel, role_name, same_text, sender_code, Message, SENDER_ASSISTANT,
    SENDER_USER,
};

fn text(s: &str) -> Cell {
    Cell::Text(s.to_string())
}

fn message(id: &str, role: &str, body: &str) -> Message {
    Message {
        id: id.to_string(),
        timestamp: 1700000000,
        role: role.to_string(),
        message: body.to_string(),
        diagram: Some("erDiagram".to_string()),
    }
}

#[test]
fn user_role_has_code_one() {
    assert_eq!(sender_code("user"), 1);
    assert_eq!(SENDER_USER, 1);
}

#[test]
fn every_other_role_has_code_two() {
    assert_eq!(sender_code("assistant"), 2);
    assert_eq!(sender_code("system"), 2);
    assert_eq!(sender_code(""), 2);
    assert_eq!(sender_code("User"), 2);
    assert_eq!(SENDER_ASSISTANT, 2);
}

#[test]
fn code_one_reads_back_as_user() {
    assert_eq!(role_name(1), "user");
}

#[test]
fn every_other_code_reads_back_as_assistant() {
    assert_eq!(role_name(2), "assistant");
    assert_eq!(role_name(0), "assistant");
    assert_eq!(role_name(-7), "assistant");
}

#[test]
fn same_text_compares_contents() {
    assert!(same_text("abc", "abc"));
    assert!(!same_text("abc", "abd"));
    assert!(!same_text("abc", "ab"));
}

#[test]
fn copy_title_appends_suffix() {
    assert_eq!(copy_title(&Some("Orders".to_string())), Some("Orders (Copy)".to_string()));
    assert_eq!(copy_title(&Some(String::new())), Some(" (Copy)".to_string()));
    assert_eq!(copy_title(&None), None);
}

#[test]
fn relabel_changes_the_ids_and_nothing_else() {
    let log = vec![message("m1", "user", "hello"), message("m2", "system", "rules")];
    let mut expected = log.clone();
    expected[0].id = "a".to_string();
    expected[1].id = "b".to_string();
    assert_eq!(relabel(&log, &vec!["a".to_string(), "b".to_string()]), expected);
    assert_eq!(
        relabel(&log, &vec!["a".to_string(), "b".to_string(), "c".to_string()]),
        expected
    );
}

#[test]
fn relabel_keeps_the_id_where_none_is_given() {
    let log = vec![message("m1", "user", "hello"), message("m2", "system", "rules")];
    let mut expected = log.clone();
    expected[0].id = "a".to_string();
    assert_eq!(relabel(&log, &vec!["a".to_string()]), expected);
    assert_eq!(relabel(&log, &vec![]), log);
    assert_eq!(relabel(&vec![], &vec!["a".to_string()]), vec![]);
}

#[test]
fn creation_plan_lists_conversation_schema_and_messages() {
    let plan = plan_creation(
        &"t1".to_string(),
        &Some("Orders".to_string()),
        &"erDiagram".to_string(),
        &"CREATE TABLE a(x);".to_string(),
        &vec![message("m1", "user", "hello"), message("m2", "system", "rules")],
    );
    assert_eq!(
        plan,
        vec![
            Statement::InsertConversation { id: "t1".to_string(), title: Some("Orders".to_string()) },
            Statement::InsertSchema {
                id: "t1".to_string(),
                schema_sql: "CREATE TABLE a(x);".to_string(),
                diagram: "erDiagram".to_string(),
            },
            Statement::InsertMessage {
                message_id: "m1".to_string(),
                conversation_id: "t1".to_string(),
                sender: 1,
                content: "hello".to_string(),
            },
            Statement::InsertMessage {
                message_id: "m2".to_string(),
                conversation_id: "t1".to_string(),
                sender: 2,
                content: "rules".to_string(),
            },
        ]
    );
}

#[test]
fn update_plan_of_nothing_is_empty() {
    assert_eq!(plan_update(&"t1".to_string(), &None, &None, &None, &None), vec![]);
}

#[test]
fn update_plan_orders_title_diagram_schema_messages() {
    let plan = plan_update(
        &"t1".to_string(),
        &Some(Some("New".to_string())),
        &Some("d".to_string()),
        &Some("s".to_string()),
        &Some(vec![message("m9", "user", "again")]),
    );
    assert_eq!(
        plan,
        vec![
            Statement::UpdateTitle { id: "t1".to_string(), title: Some("New".to_string()) },
            Statement::UpdateDiagram { id: "t1".to_string(), diagram: "d".to_string() },
            Statement::UpdateSchemaSql { id: "t1".to_string(), schema_sql: "s".to_string() },
            Statement::DeleteMessages { id: "t1".to_string() },
            Statement::InsertMessage {
                message_id: "m9".to_string(),
                conversation_id: "t1".to_string(),
                sender: 1,
                content: "again".to_string(),
            },
        ]
    );
}

#[test]
fn update_plan_of_a_title_that_is_given_as_none_sets_it_to_null() {
    let plan = plan_update(&"t1".to_string(), &Some(None), &None, &None, &None);
    assert_eq!(plan, vec![Statement::UpdateTitle { id: "t1".to_string(), title: None }]);
    let params = plan[0].params();
    assert_eq!(params.len(), 2);
    assert!(matches!(&params[0], Param::Null));
    assert!(matches!(&params[1], Param::Text(t) if t == "t1"));
}

#[test]
fn update_plan_with_empty_log_only_deletes() {
    let plan = plan_update(&"t1".to_string(), &None, &None, &None, &Some(vec![]));
    assert_eq!(plan, vec![Statement::DeleteMessages { id: "t1".to_string() }]);
}

#[test]
fn deletion_plan_goes_from_messages_to_conversation() {
    assert_eq!(
        plan_deletion(&"t1".to_string()),
        vec![
            Statement::DeleteMessages { id: "t1".to_string() },
            Statement::DeleteSchema { id: "t1".to_string() },
            Statement::DeleteConversation { id: "t1".to_string() },
        ]
    );
}

#[test]
fn statement_text_and_parameters() {
    let s = Statement::InsertConversation { id: "t1".to_string(), title: None };
    assert_eq!(s.sql(), "INSERT INTO conversations (conversation_id, title) VALUES (?1, ?2)");
    let params = s.params();
    assert_eq!(params.len(), 2);
    assert!(matches!(&params[0], Param::Text(t) if t == "t1"));
    assert!(matches!(&params[1], Param::Null));

    let s = Statement::InsertMessage {
        message_id: "m1".to_string(),
        conversation_id: "t1".to_string(),
        sender: 2,
        content: "hi".to_string(),
    };
    let params = s.params();
    assert_eq!(params.len(), 4);
    assert!(matches!(&params[0], Param::Text(t) if t == "m1"));
    assert!(matches!(&params[1], Param::Text(t) if t == "t1"));
    assert!(matches!(&params[2], Param::Integer(2)));
    assert!(matches!(&params[3], Param::Text(t) if t == "hi"));

    let s = Statement::UpdateTitle { id: "t1".to_string(), title: Some("X".to_string()) };
    assert_eq!(
        s.sql(),
        "UPDATE conversations SET title = ?1, updated_at = CURRENT_TIMESTAMP WHERE conversation_id = ?2"
    );
    let params = s.params();
    assert!(matches!(&params[0], Param::Text(t) if t == "X"));
    assert!(matches!(&params[1], Param::Text(t) if t == "t1"));
}

#[test]
fn query_text_and_parameters() {
    let q = Query::Messages { id: "t1".to_string() };
    assert_eq!(
        q.sql(),
        "SELECT message_id, content, sender, created_at FROM messages WHERE conversation_id = ?1 ORDER BY created_at ASC, rowid ASC"
    );
    assert_eq!(q.params().len(), 1);
    assert_eq!(Query::ConversationIds.params().len(), 0);
    assert_eq!(
        Query::ConversationIds.sql(),
        "SELECT conversation_id FROM conversations ORDER BY updated_at DESC"
    );
    assert_eq!(
        Query::Thread { id: "t1".to_string() }.sql(),
        "SELECT c.conversation_id, c.title, c.created_at, c.updated_at, COALESCE(s.schema_sql, ''), COALESCE(s.diagram, '') FROM conversations c LEFT JOIN schemas s ON c.conversation_id = s.conversation_id WHERE c.conversation_id = ?1"
    );
}

#[test]
fn message_row_is_decoded_without_time_and_diagram() {
    let row = vec![text("m1"), text("hello"), Cell::Integer(1), text("2024-05-01 10:00:00")];
    assert_eq!(
        decode_message(&row),
        Ok(Message {
            id: "m1".to_string(),
            timestamp: 0,
            role: "user".to_string(),
            message: "hello".to_string(),
            diagram: None,
        })
    );
    let row = vec![text("m2"), text("hi"), Cell::Integer(5), text("2024-05-01 10:00:00")];
    assert_eq!(decode_message(&row).map(|m| m.role), Ok("assistant".to_string()));
}

#[test]
fn message_row_faults_name_the_first_bad_column() {
    let good_time = text("2024-05-01 10:00:00");
    assert_eq!(decode_message(&vec![text("m1"), text("hello")]), Err(Fault::RowWidth));
    assert_eq!(
        decode_message(&vec![Cell::Null, Cell::Null, text("1"), Cell::Null]),
        Err(Fault::Value(Column::Sender))
    );
    assert_eq!(
        decode_message(&vec![text("m1"), text("hello"), Cell::Integer(2147483648), good_time.clone()]),
        Err(Fault::Value(Column::Sender))
    );
    assert_eq!(
        decode_message(&vec![Cell::Null, Cell::Null, Cell::Integer(-2147483648), Cell::Null]),
        Err(Fault::Value(Column::MessageCreatedAt))
    );
    assert_eq!(
        decode_message(&vec![Cell::Blob(vec![1]), Cell::Null, Cell::Integer(1), good_time.clone()]),
        Err(Fault::Value(Column::MessageId))
    );
    assert_eq!(
        decode_message(&vec![text("m1"), Cell::Real, Cell::Integer(1), good_time]),
        Err(Fault::Value(Column::Content))
    );
}

#[test]
fn message_rows_stop_at_first_fault() {
    let good = vec![text("m1"), text("hello"), Cell::Integer(1), text("t")];
    let bad_content = vec![text("m2"), Cell::Null, Cell::Integer(1), text("t")];
    let bad_sender = vec![text("m3"), text("x"), Cell::Null, text("t")];
    assert_eq!(
        decode_messages(&vec![good.clone(), bad_content, bad_sender]),
        Err(Fault::Value(Column::Content))
    );
    assert_eq!(decode_messages(&vec![]), Ok(vec![]));
    assert_eq!(decode_messages(&vec![good.clone(), good]).map(|l| l.len()), Ok(2));
}

#[test]
fn thread_row_is_decoded_with_null_title() {
    let row = vec![text("t1"), Cell::Null, text("c"), text("u"), text("sql"), text("dia")];
    let t = decode_thread(&row).unwrap();
    assert_eq!(t.chat_id, "t1");
    assert_eq!(t.title, None);
    assert_eq!(t.created_at, "c");
    assert_eq!(t.updated_at, "u");
    assert_eq!(t.schema_sql, "sql");
    assert_eq!(t.diagram, "dia");
    assert!(t.conversation.is_empty());
}

#[test]
fn thread_row_faults_name_the_first_bad_column() {
    let ok = |i: usize| -> Vec<Cell> {
        let mut row =
            vec![text("t1"), text("title"), text("c"), text("u"), text("sql"), text("dia")];
        row[i] = Cell::Integer(3);
        row
    };
    assert_eq!(decode_thread(&ok(0)), Err(Fault::Value(Column::ConversationId)));
    assert_eq!(decode_thread(&ok(1)), Err(Fault::Value(Column::Title)));
    assert_eq!(decode_thread(&ok(2)), Err(Fault::Value(Column::CreatedAt)));
    assert_eq!(decode_thread(&ok(3)), Err(Fault::Value(Column::UpdatedAt)));
    assert_eq!(decode_thread(&ok(4)), Err(Fault::Value(Column::SchemaSql)));
    assert_eq!(decode_thread(&ok(5)), Err(Fault::Value(Column::Diagram)));
    assert_eq!(decode_thread(&vec![text("t1")]), Err(Fault::RowWidth));
    let mut nulls = ok(5);
    nulls[0] = Cell::Null;
    assert_eq!(decode_thread(&nulls), Err(Fault::Value(Column::ConversationId)));
}

#[test]
fn id_rows_are_decoded_in_order() {
    assert_eq!(
        decode_ids(&vec![vec![text("b")], vec![text("a")]]),
        Ok(vec!["b".to_string(), "a".to_string()])
    );
    assert_eq!(decode_ids(&vec![vec![text("b")], vec![]]), Err(Fault::RowWidth));
    assert_eq!(
        decode_ids(&vec![vec![Cell::Null], vec![text("a"), text("b")]]),
        Err(Fault::Value(Column::ConversationId))
    );
}

#[test]
fn error_messages() {
    assert_eq!(StoreError::NotFound.message(), "Thread not found");
    assert_eq!(
        StoreError::SourceNotFound.message(),
        "Source thread not found: Thread not found"
    );
    assert_eq!(StoreError::WriteFailed("disk full".to_string()).message(), "disk full");
    assert_eq!(StoreError::ReadFailed("locked".to_string()).message(), "locked");
    assert_eq!(StoreError::StorageInit("no file".to_string()).message(), "no file");
    assert_eq!(
        StoreError::Mapping(Fault::Value(Column::Sender)).message(),
        "Stored value has an unexpected type in column sender"
    );
    assert_eq!(
        StoreError::Mapping(Fault::Value(Column::MessageCreatedAt)).message(),
        "Stored value has an unexpected type in column messages.created_at"
    );
    assert_eq!(
        StoreError::Mapping(Fault::RowWidth).message(),
        "Stored row has an unexpected number of columns"
    );
    assert_eq!(Column::SchemaSql.name(), "schema_sql");
}

#[test]
fn blank_keys_are_recognised() {
    assert!(blank(""));
    assert!(blank("   "));
    assert!(blank(" \t\r\n"));
    assert!(blank("\u{a0}\u{2003}\u{3000}"));
    assert!(!blank(" k "));
    assert!(!blank("sk-123"));
    assert!(!blank("\u{200b}"));
    assert!(white_space('\u{85}'));
    assert!(white_space('\u{1680}'));
    assert!(!white_space('\u{8}'));
    assert!(!white_space('\u{e}'));
    assert!(!white_space('a'));
}

#[test]
fn white_space_agrees_with_the_standard_library() {
    let mut c: u32 = 0;
    while c <= 0x3100 {
        if let Some(ch) = char::from_u32(c) {
            assert_eq!(white_space(ch), ch.is_whitespace());
        }
        c += 1;
    }
}

#[test]
fn blank_key_is_refused_before_the_store_is_asked() {
    assert_eq!(store_api_key(String::new()), Err("No API key provided.".to_string()));
    assert_eq!(store_api_key("  \n ".to_string()), Err("No API key provided.".to_string()));
}

#[test]
fn key_that_is_not_blank_goes_to_the_credential_store() {
    let r = store_api_key("sk-123".to_string());
    match r {
        Ok(()) => {}
        Err(m) => assert!(
            m.starts_with("Failed to store API key: ")
                || m.starts_with("Failed to create keyring entry: ")
        ),
    }
}

#[test]
fn key_that_cannot_be_read_names_the_step_that_failed() {
    match thread_store::get_api_key() {
        Ok(_) => {}
        Err(m) => assert!(
            m.starts_with("Failed to retrieve API key: ")
                || m.starts_with("Failed to create keyring entry: ")
        ),
    }
}

#[test]
fn answer_of_the_credential_store_decides_what_is_returned() {
    assert_eq!(key_of_answer(KeyAnswer::Key("sk-123".to_string())), Ok("sk-123".to_string()));
    assert_eq!(key_of_answer(KeyAnswer::Key(String::new())), Ok(String::new()));
    assert_eq!(
        key_of_answer(KeyAnswer::KeyRefused("no entry".to_string())),
        Err("Failed to retrieve API key: no entry".to_string())
    );
    assert_eq!(
        key_of_answer(KeyAnswer::EntryRefused("bad name".to_string())),
        Err("Failed to create keyring entry: bad name".to_string())
    );
}

#[test]
fn blank_key_makes_no_request() {
    assert_eq!(store_request(""), None);
    assert_eq!(store_request(" \t\n"), None);
}

#[test]
fn key_goes_to_the_store_as_it_is() {
    assert_eq!(
        store_request("  sk-123 \n"),
        Some(KeyRequest {
            service: "schema_desktop_app".to_string(),
            user: "user_api_key".to_string(),
            password: "  sk-123 \n".to_string(),
        })
    );
}

#[test]
fn answer_of_the_credential_store_decides_whether_the_key_is_stored() {
    assert_eq!(stored_of_answer(StoreAnswer::Kept), Ok(()));
    assert_eq!(
        stored_of_answer(StoreAnswer::KeyRefused("locked".to_string())),
        Err("Failed to store API key: locked".to_string())
    );
    assert_eq!(
        stored_of_answer(StoreAnswer::EntryRefused("bad name".to_string())),
        Err("Failed to create keyring entry: bad name".to_string())
    );
}
