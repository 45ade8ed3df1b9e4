use blackbird::ai::client::StreamStore;
use blackbird::ai::error::ChatErrorKind;
use blackbird::ai::gateway::chat_reply_stream_poll;

#[test]
fn identifiers_start_at_one_and_increase() {
    let mut store = StreamStore::new();
    let mut ids = Vec::new();
    for _ in 0..50 {
        ids.push(store.create_handle().id);
    }
    assert_eq!(ids[0], 1);
    for pair in ids.windows(2) {
        assert!(pair[0] < pair[1]);
    }
    let mut distinct = ids.clone();
    distinct.sort();
    distinct.dedup();
    assert_eq!(distinct.len(), ids.len());
}

#[test]
fn polling_unissued_identifier_is_not_found() {
    let mut store = StreamStore::new();
    let error = chat_reply_stream_poll(&store, 1).unwrap_err();
    assert_eq!(error.kind, ChatErrorKind::NotFound);
    assert_eq!(error.to_string(), "invalid stream id");
    let handle = store.create_handle();
    assert!(chat_reply_stream_poll(&store, 0).is_err());
    assert!(chat_reply_stream_poll(&store, handle.id + 1).is_err());
    assert!(chat_reply_stream_poll(&store, u64::MAX).is_err());
}

#[test]
fn polling_issued_identifier_always_answers() {
    let mut store = StreamStore::new();
    let first = store.create_handle();
    assert_eq!(chat_reply_stream_poll(&store, first.id), Ok((String::new(), false)));
    let second = store.create_handle();
    first.append(&mut store, "a");
    second.append(&mut store, "b");
    first.finish(&mut store);
    second.fail(&mut store, "broken");
    for _ in 0..10 {
        store.create_handle();
    }
    assert_eq!(chat_reply_stream_poll(&store, first.id), Ok(("a".to_string(), true)));
    assert_eq!(chat_reply_stream_poll(&store, second.id), Ok(("broken".to_string(), true)));
}

#[test]
fn appends_keep_their_order() {
    let mut store = StreamStore::new();
    let handle = store.create_handle();
    handle.append(&mut store, "Hello");
    handle.append(&mut store, "");
    handle.append(&mut store, " world");
    assert_eq!(store.snapshot(handle.id), Ok(("Hello world".to_string(), false)));
    handle.replace(&mut store, "whole".to_string());
    assert_eq!(store.snapshot(handle.id), Ok(("whole".to_string(), false)));
}

#[test]
fn ended_entry_never_changes() {
    let mut store = StreamStore::new();
    let handle = store.create_handle();
    handle.append(&mut store, "answer");
    handle.finish(&mut store);
    handle.append(&mut store, " more");
    handle.replace(&mut store, "other".to_string());
    handle.fail(&mut store, "late error");
    handle.finish(&mut store);
    assert_eq!(store.snapshot(handle.id), Ok(("answer".to_string(), true)));

    let failed = store.create_handle();
    failed.append(&mut store, "partial");
    failed.fail(&mut store, "boom");
    failed.append(&mut store, "x");
    failed.fail(&mut store, "second");
    assert_eq!(store.snapshot(failed.id), Ok(("boom".to_string(), true)));
}

#[test]
fn writes_to_unknown_identifier_change_nothing() {
    let mut store = StreamStore::new();
    let handle = store.create_handle();
    store.append(99, "ghost");
    store.finish(99);
    store.fail(99, "ghost".to_string());
    store.replace(99, "ghost".to_string());
    assert!(store.snapshot(99).is_err());
    assert_eq!(store.snapshot(handle.id), Ok((String::new(), false)));
    assert!(!store.is_exhausted());
}
