use thread_store::error::{Column, Fault, StoreError};
use thread_store::storage::StorageHandle;
use thread_store::{
    copy_thread, create_thread, delete_thread, duplicate_thread, get_all_threads, get_thread,
    initialize_database, update_thread, Message, Thread,
};

fn fresh_store() -> StorageHandle {
    let mut store = StorageHandle::open_in_memory().unwrap();
    store.bootstrap().unwrap();
    store
}

fn message(id: &str, role: &str, body: &str) -> Message {
    Message {
        id: id.to_string(),
        timestamp: 1700000000,
        role: role.to_string(),
        message: body.to_string(),
        diagram: Some("erDiagram".to_string()),
    }
}

fn stored(id: &str, role: &str, body: &str) -> Message {
    Message {
        id: id.to_string(),
        timestamp: 0,
        role: role.to_string(),
        message: body.to_string(),
        diagram: None,
    }
}

fn create(store: &mut StorageHandle, id: &str, title: Option<&str>, log: Vec<Message>) {
    create_thread(
        store,
        id.to_string(),
        title.map(|t| t.to_string()),
        "erDiagram".to_string(),
        "CREATE TABLE a(x);".to_string(),
        log,
    )
    .unwrap();
}

fn wait_for_next_second() {
    let start = std::time::Instant::now();
    while start.elapsed() < std::time::Duration::from_millis(1100) {
        std::hint::spin_loop();
    }
}

fn ids(threads: &Vec<Thread>) -> Vec<String> {
    threads.iter().map(|t| t.chat_id.clone()).collect()
}

#[test]
fn bootstrap_may_be_repeated() {
    let mut store = StorageHandle::open_in_memory().unwrap();
    assert_eq!(store.bootstrap(), Ok(()));
    assert_eq!(store.bootstrap(), Ok(()));
    create(&mut store, "t1", None, vec![message("m1", "user", "hello")]);
    assert_eq!(initialize_database(&mut store), Ok(()));
    assert_eq!(get_thread(&mut store, "t1".to_string()).unwrap().conversation.len(), 1);
}

#[test]
fn opening_a_store_in_a_missing_directory_fails() {
    let r = StorageHandle::open("/no/such/directory/anywhere/store.db");
    assert!(matches!(r, Err(StoreError::StorageInit(_))));
}

#[test]
fn created_thread_reads_back() {
    let mut store = fresh_store();
    create_thread(
        &mut store,
        "t1".to_string(),
        Some("Orders".to_string()),
        "erDiagram".to_string(),
        "CREATE TABLE a(x);".to_string(),
        vec![
            message("m1", "user", "hello"),
            message("m2", "assistant", "hi"),
            message("m3", "user", "more"),
        ],
    )
    .unwrap();
    let t = get_thread(&mut store, "t1".to_string()).unwrap();
    assert_eq!(t.chat_id, "t1");
    assert_eq!(t.title, Some("Orders".to_string()));
    assert_eq!(t.diagram, "erDiagram");
    assert_eq!(t.schema_sql, "CREATE TABLE a(x);");
    assert_eq!(
        t.conversation,
        vec![
            stored("m1", "user", "hello"),
            stored("m2", "assistant", "hi"),
            stored("m3", "user", "more"),
        ]
    );
    assert_eq!(t.created_at.len(), 19);
    assert_eq!(t.created_at, t.updated_at);
}

#[test]
fn thread_without_title_and_messages_reads_back() {
    let mut store = fresh_store();
    create_thread(&mut store, "t1".to_string(), None, String::new(), String::new(), vec![]).unwrap();
    let t = get_thread(&mut store, "t1".to_string()).unwrap();
    assert_eq!(t.title, None);
    assert_eq!(t.diagram, "");
    assert_eq!(t.schema_sql, "");
    assert!(t.conversation.is_empty());
}

#[test]
fn role_other_than_user_reads_back_as_assistant() {
    let mut store = fresh_store();
    create(&mut store, "t1", None, vec![message("m1", "system", "rules")]);
    let t = get_thread(&mut store, "t1".to_string()).unwrap();
    assert_eq!(t.conversation, vec![stored("m1", "assistant", "rules")]);
}

#[test]
fn missing_thread_is_not_found() {
    let mut store = fresh_store();
    assert_eq!(get_thread(&mut store, "nope".to_string()), Err(StoreError::NotFound));
}

#[test]
fn query_without_tables_is_a_read_failure() {
    let mut store = StorageHandle::open_in_memory().unwrap();
    assert!(matches!(get_thread(&mut store, "t1".to_string()), Err(StoreError::ReadFailed(_))));
    assert!(matches!(get_all_threads(&mut store), Err(StoreError::ReadFailed(_))));
}

#[test]
fn write_without_tables_is_a_write_failure() {
    let mut store = StorageHandle::open_in_memory().unwrap();
    let r = create_thread(
        &mut store,
        "t1".to_string(),
        None,
        String::new(),
        String::new(),
        vec![],
    );
    assert!(matches!(r, Err(StoreError::WriteFailed(_))));
}

#[test]
fn creating_a_thread_twice_fails_and_keeps_the_first() {
    let mut store = fresh_store();
    create(&mut store, "t1", Some("first"), vec![message("m1", "user", "hello")]);
    let r = create_thread(
        &mut store,
        "t1".to_string(),
        Some("second".to_string()),
        "other".to_string(),
        "other".to_string(),
        vec![message("m2", "user", "again")],
    );
    assert!(matches!(r, Err(StoreError::WriteFailed(_))));
    let t = get_thread(&mut store, "t1".to_string()).unwrap();
    assert_eq!(t.title, Some("first".to_string()));
    assert_eq!(t.diagram, "erDiagram");
    assert_eq!(t.conversation, vec![stored("m1", "user", "hello")]);
}

#[test]
fn failed_creation_leaves_no_row() {
    let mut store = fresh_store();
    let r = create_thread(
        &mut store,
        "t1".to_string(),
        Some("Orders".to_string()),
        "erDiagram".to_string(),
        "CREATE TABLE a(x);".to_string(),
        vec![message("m1", "user", "hello"), message("m1", "user", "same id")],
    );
    assert!(matches!(r, Err(StoreError::WriteFailed(_))));
    assert_eq!(get_thread(&mut store, "t1".to_string()), Err(StoreError::NotFound));
    assert_eq!(get_all_threads(&mut store), Ok(vec![]));
    create(&mut store, "t1", Some("Orders"), vec![message("m1", "user", "hello")]);
    assert_eq!(get_thread(&mut store, "t1".to_string()).unwrap().conversation.len(), 1);
}

#[test]
fn failed_update_changes_nothing() {
    let mut store = fresh_store();
    create(&mut store, "t1", Some("Orders"), vec![message("m1", "user", "hello")]);
    let before = get_thread(&mut store, "t1".to_string()).unwrap();
    let r = update_thread(
        &mut store,
        "t1".to_string(),
        Some(Some("Changed".to_string())),
        Some("changed".to_string()),
        Some("changed".to_string()),
        Some(vec![message("m7", "user", "a"), message("m7", "user", "b")]),
    );
    assert!(matches!(r, Err(StoreError::WriteFailed(_))));
    assert_eq!(get_thread(&mut store, "t1".to_string()).unwrap(), before);
}

#[test]
fn update_of_title_alone_keeps_the_rest() {
    let mut store = fresh_store();
    create(
        &mut store,
        "t1",
        Some("Orders"),
        vec![message("m1", "user", "hello"), message("m2", "assistant", "hi")],
    );
    let before = get_thread(&mut store, "t1".to_string()).unwrap();
    update_thread(&mut store, "t1".to_string(), Some(Some("X".to_string())), None, None, None).unwrap();
    let after = get_thread(&mut store, "t1".to_string()).unwrap();
    assert_eq!(after.title, Some("X".to_string()));
    assert_eq!(after.diagram, before.diagram);
    assert_eq!(after.schema_sql, before.schema_sql);
    assert_eq!(after.conversation, before.conversation);
    assert_eq!(after.created_at, before.created_at);
    assert_eq!(after.chat_id, before.chat_id);
}

#[test]
fn title_that_is_given_as_none_is_set_to_null() {
    let mut store = fresh_store();
    create(&mut store, "t1", Some("Orders"), vec![message("m1", "user", "hello")]);
    update_thread(&mut store, "t1".to_string(), None, None, None, None).unwrap();
    let kept = get_thread(&mut store, "t1".to_string()).unwrap();
    assert_eq!(kept.title, Some("Orders".to_string()));
    update_thread(&mut store, "t1".to_string(), Some(None), None, None, None).unwrap();
    let cleared = get_thread(&mut store, "t1".to_string()).unwrap();
    assert_eq!(cleared.title, None);
    assert_eq!(cleared.diagram, kept.diagram);
    assert_eq!(cleared.schema_sql, kept.schema_sql);
    assert_eq!(cleared.conversation, kept.conversation);
    assert_eq!(cleared.created_at, kept.created_at);
}

#[test]
fn update_of_diagram_and_schema_are_independent() {
    let mut store = fresh_store();
    create(&mut store, "t1", Some("Orders"), vec![message("m1", "user", "hello")]);
    update_thread(&mut store, "t1".to_string(), None, Some("D2".to_string()), None, None).unwrap();
    let t = get_thread(&mut store, "t1".to_string()).unwrap();
    assert_eq!(t.diagram, "D2");
    assert_eq!(t.schema_sql, "CREATE TABLE a(x);");
    assert_eq!(t.title, Some("Orders".to_string()));
    update_thread(&mut store, "t1".to_string(), None, None, Some("S2".to_string()), None).unwrap();
    let t = get_thread(&mut store, "t1".to_string()).unwrap();
    assert_eq!(t.diagram, "D2");
    assert_eq!(t.schema_sql, "S2");
    assert_eq!(t.conversation, vec![stored("m1", "user", "hello")]);
}

#[test]
fn update_with_nothing_given_changes_nothing() {
    let mut store = fresh_store();
    create(&mut store, "t1", Some("Orders"), vec![message("m1", "user", "hello")]);
    let before = get_thread(&mut store, "t1".to_string()).unwrap();
    assert_eq!(update_thread(&mut store, "t1".to_string(), None, None, None, None), Ok(()));
    assert_eq!(get_thread(&mut store, "t1".to_string()).unwrap(), before);
}

#[test]
fn update_of_messages_replaces_the_log() {
    let mut store = fresh_store();
    create(
        &mut store,
        "t1",
        Some("Orders"),
        vec![
            message("m1", "user", "hello"),
            message("m2", "assistant", "hi"),
            message("m3", "user", "more"),
        ],
    );
    update_thread(
        &mut store,
        "t1".to_string(),
        None,
        None,
        None,
        Some(vec![message("m1", "user", "hello")]),
    )
    .unwrap();
    let t = get_thread(&mut store, "t1".to_string()).unwrap();
    assert_eq!(t.conversation, vec![stored("m1", "user", "hello")]);
    assert_eq!(t.title, Some("Orders".to_string()));

    update_thread(&mut store, "t1".to_string(), None, None, None, Some(vec![])).unwrap();
    assert!(get_thread(&mut store, "t1".to_string()).unwrap().conversation.is_empty());
}

#[test]
fn update_of_a_missing_thread_is_no_error() {
    let mut store = fresh_store();
    assert_eq!(
        update_thread(&mut store, "nope".to_string(), Some(Some("X".to_string())), None, None, None),
        Ok(())
    );
    assert_eq!(get_thread(&mut store, "nope".to_string()), Err(StoreError::NotFound));
}

#[test]
fn update_leaves_other_threads() {
    let mut store = fresh_store();
    create(&mut store, "t1", Some("One"), vec![message("m1", "user", "hello")]);
    create(&mut store, "t2", Some("Two"), vec![message("m2", "user", "world")]);
    let other = get_thread(&mut store, "t2".to_string()).unwrap();
    update_thread(
        &mut store,
        "t1".to_string(),
        Some(Some("X".to_string())),
        Some("D".to_string()),
        Some("S".to_string()),
        Some(vec![message("m3", "assistant", "new")]),
    )
    .unwrap();
    assert_eq!(get_thread(&mut store, "t2".to_string()).unwrap(), other);
}

#[test]
fn deleted_thread_is_gone() {
    let mut store = fresh_store();
    create(&mut store, "t1", Some("One"), vec![message("m1", "user", "hello")]);
    create(&mut store, "t2", Some("Two"), vec![message("m2", "user", "world")]);
    let other = get_thread(&mut store, "t2".to_string()).unwrap();
    assert_eq!(delete_thread(&mut store, "t1".to_string()), Ok(()));
    assert_eq!(get_thread(&mut store, "t1".to_string()), Err(StoreError::NotFound));
    assert_eq!(get_thread(&mut store, "t2".to_string()).unwrap(), other);
    assert_eq!(ids(&get_all_threads(&mut store).unwrap()), vec!["t2".to_string()]);
    // The message id and the thread id are free again only if every row went.
    create(&mut store, "t1", Some("Again"), vec![message("m1", "user", "hello")]);
    let t = get_thread(&mut store, "t1".to_string()).unwrap();
    assert_eq!(t.title, Some("Again".to_string()));
    assert_eq!(t.diagram, "erDiagram");
    assert_eq!(t.conversation, vec![stored("m1", "user", "hello")]);
}

#[test]
fn deleting_a_missing_thread_is_no_error() {
    let mut store = fresh_store();
    assert_eq!(delete_thread(&mut store, "nope".to_string()), Ok(()));
}

#[test]
fn duplicate_has_a_fresh_id_and_the_contents_of_its_source() {
    let mut store = fresh_store();
    create(&mut store, "t1", Some("Orders"), vec![]);
    let source = get_thread(&mut store, "t1".to_string()).unwrap();
    let copy = duplicate_thread(&mut store, "t1".to_string()).unwrap();
    assert_ne!(copy.chat_id, "t1");
    assert_eq!(copy.chat_id.len(), 36);
    assert_eq!(copy.chat_id.matches('-').count(), 4);
    assert_eq!(copy.title, Some("Orders (Copy)".to_string()));
    assert_eq!(copy.diagram, source.diagram);
    assert_eq!(copy.schema_sql, source.schema_sql);
    assert_eq!(copy.conversation, source.conversation);
    assert_eq!(get_thread(&mut store, copy.chat_id.clone()).unwrap(), copy);
    assert_eq!(get_thread(&mut store, "t1".to_string()).unwrap(), source);

    let second = duplicate_thread(&mut store, "t1".to_string()).unwrap();
    assert_ne!(second.chat_id, copy.chat_id);
}

#[test]
fn change_of_a_duplicate_leaves_its_source() {
    let mut store = fresh_store();
    create(&mut store, "t1", Some("Orders"), vec![message("m1", "user", "hello")]);
    let source = get_thread(&mut store, "t1".to_string()).unwrap();
    let copy = duplicate_thread(&mut store, "t1".to_string()).unwrap();
    update_thread(
        &mut store,
        copy.chat_id.clone(),
        Some(Some("Changed".to_string())),
        Some("changed".to_string()),
        Some("changed".to_string()),
        Some(vec![message("m5", "user", "only in the copy")]),
    )
    .unwrap();
    assert_eq!(get_thread(&mut store, "t1".to_string()).unwrap(), source);
    delete_thread(&mut store, copy.chat_id.clone()).unwrap();
    assert_eq!(get_thread(&mut store, "t1".to_string()).unwrap(), source);
}

#[test]
fn duplicate_of_a_thread_without_title_has_no_title() {
    let mut store = fresh_store();
    create(&mut store, "t1", None, vec![]);
    let copy = duplicate_thread(&mut store, "t1".to_string()).unwrap();
    assert_eq!(copy.title, None);
}

#[test]
fn duplicate_of_a_thread_with_messages_has_its_messages_under_fresh_ids() {
    let mut store = fresh_store();
    create(
        &mut store,
        "t1",
        Some("Orders"),
        vec![
            message("m1", "user", "hello"),
            message("m2", "assistant", "hi"),
            message("m3", "system", "rules"),
        ],
    );
    let source = get_thread(&mut store, "t1".to_string()).unwrap();
    let copy = duplicate_thread(&mut store, "t1".to_string()).unwrap();
    assert_ne!(copy.chat_id, "t1");
    assert_eq!(copy.title, Some("Orders (Copy)".to_string()));
    assert_eq!(copy.diagram, source.diagram);
    assert_eq!(copy.schema_sql, source.schema_sql);
    assert_eq!(copy.conversation.len(), 3);
    let mut i = 0;
    while i < 3 {
        assert_eq!(copy.conversation[i].message, source.conversation[i].message);
        assert_eq!(copy.conversation[i].role, source.conversation[i].role);
        assert_eq!(copy.conversation[i].timestamp, 0);
        assert_eq!(copy.conversation[i].diagram, None);
        assert_eq!(copy.conversation[i].id.len(), 36);
        assert_ne!(copy.conversation[i].id, source.conversation[i].id);
        i += 1;
    }
    assert_ne!(copy.conversation[0].id, copy.conversation[1].id);
    assert_ne!(copy.conversation[1].id, copy.conversation[2].id);
    assert_ne!(copy.conversation[0].id, copy.chat_id);
    assert_eq!(get_thread(&mut store, "t1".to_string()).unwrap(), source);
    assert_eq!(get_thread(&mut store, copy.chat_id.clone()).unwrap(), copy);
    let again = duplicate_thread(&mut store, copy.chat_id.clone()).unwrap();
    assert_eq!(again.title, Some("Orders (Copy) (Copy)".to_string()));
    assert_eq!(get_all_threads(&mut store).unwrap().len(), 3);
}

#[test]
fn duplicate_of_a_missing_thread_is_source_not_found() {
    let mut store = fresh_store();
    assert_eq!(duplicate_thread(&mut store, "nope".to_string()), Err(StoreError::SourceNotFound));
}

#[test]
fn copy_is_stored_under_the_given_ids() {
    let mut store = fresh_store();
    create(
        &mut store,
        "t1",
        Some("Orders"),
        vec![message("m1", "user", "hello"), message("m2", "assistant", "hi")],
    );
    let source = get_thread(&mut store, "t1".to_string()).unwrap();
    let copy = copy_thread(
        &mut store,
        &source,
        "t2".to_string(),
        vec!["c1".to_string(), "c2".to_string()],
    )
    .unwrap();
    assert_eq!(copy.chat_id, "t2");
    assert_eq!(copy.title, Some("Orders (Copy)".to_string()));
    assert_eq!(
        copy.conversation,
        vec![stored("c1", "user", "hello"), stored("c2", "assistant", "hi")]
    );
    assert_eq!(get_thread(&mut store, "t1".to_string()).unwrap(), source);
}

#[test]
fn copy_under_ids_that_are_taken_is_refused_and_leaves_nothing() {
    let mut store = fresh_store();
    create(&mut store, "t1", Some("Orders"), vec![message("m1", "user", "hello")]);
    let source = get_thread(&mut store, "t1".to_string()).unwrap();
    let r = copy_thread(&mut store, &source, "t1".to_string(), vec!["c1".to_string()]);
    assert!(matches!(r, Err(StoreError::WriteFailed(_))));
    let r = copy_thread(&mut store, &source, "t2".to_string(), vec!["m1".to_string()]);
    assert!(matches!(r, Err(StoreError::WriteFailed(_))));
    let r = copy_thread(&mut store, &source, "t3".to_string(), vec![]);
    assert!(matches!(r, Err(StoreError::WriteFailed(_))));
    assert_eq!(ids(&get_all_threads(&mut store).unwrap()), vec!["t1".to_string()]);
    assert_eq!(get_thread(&mut store, "t1".to_string()).unwrap(), source);
}

#[test]
fn listing_of_an_empty_store_is_empty() {
    let mut store = fresh_store();
    assert_eq!(get_all_threads(&mut store), Ok(vec![]));
}

#[test]
fn listing_is_newest_first_and_a_touch_moves_to_the_front() {
    let mut store = fresh_store();
    create(&mut store, "a", Some("A"), vec![message("m1", "user", "hello")]);
    wait_for_next_second();
    create(&mut store, "b", Some("B"), vec![]);
    wait_for_next_second();
    create(&mut store, "c", None, vec![message("m2", "user", "world")]);
    let listed = get_all_threads(&mut store).unwrap();
    assert_eq!(ids(&listed), vec!["c".to_string(), "b".to_string(), "a".to_string()]);
    assert!(listed[0].updated_at >= listed[1].updated_at);
    assert!(listed[1].updated_at >= listed[2].updated_at);
    assert_eq!(listed[2], get_thread(&mut store, "a".to_string()).unwrap());
    assert_eq!(listed[2].conversation, vec![stored("m1", "user", "hello")]);

    wait_for_next_second();
    update_thread(&mut store, "a".to_string(), Some(Some("A2".to_string())), None, None, None).unwrap();
    let listed = get_all_threads(&mut store).unwrap();
    assert_eq!(ids(&listed), vec!["a".to_string(), "c".to_string(), "b".to_string()]);
    assert!(listed[0].updated_at > listed[0].created_at);
}

#[test]
fn update_without_title_does_not_move_a_thread() {
    let mut store = fresh_store();
    create(&mut store, "a", Some("A"), vec![]);
    wait_for_next_second();
    create(&mut store, "b", Some("B"), vec![]);
    wait_for_next_second();
    let before = get_thread(&mut store, "a".to_string()).unwrap();
    update_thread(&mut store, "a".to_string(), None, Some("D".to_string()), None, None).unwrap();
    let after = get_thread(&mut store, "a".to_string()).unwrap();
    assert_eq!(after.updated_at, before.updated_at);
    assert_eq!(
        ids(&get_all_threads(&mut store).unwrap()),
        vec!["b".to_string(), "a".to_string()]
    );
}

#[test]
fn stored_value_of_another_type_is_a_mapping_failure() {
    let path = "file:mapping_failure_case?mode=memory&cache=shared";
    let mut store = StorageHandle::open(path).unwrap();
    store.bootstrap().unwrap();
    create(&mut store, "t1", Some("Orders"), vec![message("m1", "user", "hello")]);
    let raw = rusqlite::Connection::open(path).unwrap();
    raw.execute("UPDATE messages SET sender = 'nobody' WHERE message_id = 'm1'", ()).unwrap();
    assert_eq!(
        get_thread(&mut store, "t1".to_string()),
        Err(StoreError::Mapping(Fault::Value(Column::Sender)))
    );
    assert_eq!(
        get_all_threads(&mut store),
        Err(StoreError::Mapping(Fault::Value(Column::Sender)))
    );
    raw.execute("UPDATE messages SET sender = 2, content = x'00ff'", ()).unwrap();
    assert_eq!(
        get_thread(&mut store, "t1".to_string()),
        Err(StoreError::Mapping(Fault::Value(Column::Content)))
    );
}

#[test]
fn thread_without_schema_record_reads_back_with_empty_texts() {
    let path = "file:missing_schema_case?mode=memory&cache=shared";
    let mut store = StorageHandle::open(path).unwrap();
    store.bootstrap().unwrap();
    create(&mut store, "t1", Some("Orders"), vec![]);
    let raw = rusqlite::Connection::open(path).unwrap();
    raw.execute("DELETE FROM schemas WHERE conversation_id = 't1'", ()).unwrap();
    let t = get_thread(&mut store, "t1".to_string()).unwrap();
    assert_eq!(t.diagram, "");
    assert_eq!(t.schema_sql, "");
    assert_eq!(t.title, Some("Orders".to_string()));
}

#[test]
fn messages_of_equal_time_come_in_the_order_of_insertion() {
    let mut store = fresh_store();
    let mut log = Vec::new();
    let mut expected = Vec::new();
    let mut i = 0;
    while i < 40 {
        let id = format!("m{}", 39 - i);
        log.push(message(&id, "user", "x"));
        expected.push(stored(&id, "user", "x"));
        i += 1;
    }
    create(&mut store, "t1", None, log);
    assert_eq!(get_thread(&mut store, "t1".to_string()).unwrap().conversation, expected);
}

#[test]
fn store_in_a_file_keeps_its_threads_between_handles() {
    let path = "/tmp/thread_store_keeps_its_threads.db";
    {
        let mut store = StorageHandle::open(path).unwrap();
        store.bootstrap().unwrap();
        delete_thread(&mut store, "kept".to_string()).unwrap();
        create(&mut store, "kept", Some("Orders"), vec![message("kept-m1", "user", "hello")]);
    }
    let mut store = StorageHandle::open(path).unwrap();
    store.bootstrap().unwrap();
    let t = get_thread(&mut store, "kept".to_string()).unwrap();
    assert_eq!(t.title, Some("Orders".to_string()));
    assert_eq!(t.conversation, vec![stored("kept-m1", "user", "hello")]);
    delete_thread(&mut store, "kept".to_string()).unwrap();
    assert_eq!(get_thread(&mut store, "kept".to_string()), Err(StoreError::NotFound));
}
