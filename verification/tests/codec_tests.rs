use webtiles_rs::codec::MessageBatcher;

#[test]
fn flush_on_empty_queue_returns_none() {
    let mut batcher = MessageBatcher::new();
    assert!(batcher.flush().is_none());
}

#[test]
fn queue_raw_is_spliced_without_reparsing() {
    let mut batcher = MessageBatcher::new();
    batcher.queue_raw(r#"{"msg":"map","cells":[[1,2,3]]}"#);
    let frame = batcher.flush().unwrap();
    assert_eq!(frame, r#"{"msgs":[{"msg":"map","cells":[[1,2,3]]}]}"#);
}

#[test]
fn batch_keeps_queue_order_and_empties() {
    let mut batcher = MessageBatcher::new();
    batcher.queue_raw(r#"{"msg":"ping"}"#);
    batcher.queue_raw(r#"{"msg":"game_started"}"#);
    assert!(!batcher.is_empty());
    let frame = batcher.flush().unwrap();
    assert_eq!(frame, r#"{"msgs":[{"msg":"ping"},{"msg":"game_started"}]}"#);
    assert!(batcher.is_empty());
    assert!(batcher.flush().is_none());
}

#[test]
fn raw_javascript_is_spliced_as_is() {
    let mut batcher = MessageBatcher::new();
    batcher.queue_raw("connection_closed('full');");
    assert_eq!(batcher.flush().unwrap(), "{\"msgs\":[connection_closed('full');]}");
}
