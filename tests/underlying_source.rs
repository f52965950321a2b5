use js_trace::underlying_source::{ExternalUnderlyingSource, ExternalUnderlyingSourceController, StreamAction};

#[test]
fn memory_source_gives_its_bytes() {
    let mut c = ExternalUnderlyingSourceController::new(ExternalUnderlyingSource::Memory(4));
    assert!(c.in_memory());
    assert_eq!(c.get_in_memory_bytes(), Some(vec![]));
    assert_eq!(c.enqueue_chunk(vec![1, 2]), StreamAction::SignalAvailable(2));
    assert_eq!(c.get_in_memory_bytes(), Some(vec![1, 2]));
}

#[test]
fn other_sources_are_not_in_memory() {
    let c = ExternalUnderlyingSourceController::new(ExternalUnderlyingSource::Blob(8));
    assert!(!c.in_memory());
    assert_eq!(c.get_in_memory_bytes(), None);
    let f = ExternalUnderlyingSourceController::new(ExternalUnderlyingSource::FetchResponse);
    assert!(!f.in_memory());
}

#[test]
fn new_chunks_go_in_front_and_reads_take_the_oldest() {
    let mut c = ExternalUnderlyingSourceController::new(ExternalUnderlyingSource::FetchResponse);
    c.enqueue_chunk(vec![1, 2, 3]);
    assert_eq!(c.enqueue_chunk(vec![4, 5]), StreamAction::SignalAvailable(5));
    assert_eq!(c.get_chunk_with_length(2), vec![2, 3]);
    let mut dest = [0u8; 2];
    c.write_into_buffer(&mut dest);
    assert_eq!(dest, [5, 1]);
    assert_eq!(c.get_chunk_with_length(1), vec![4]);
    assert_eq!(c.pull(16), StreamAction::Nothing);
}

#[test]
fn empty_chunk_signals_nothing() {
    let mut c = ExternalUnderlyingSourceController::new(ExternalUnderlyingSource::Blob(0));
    assert_eq!(c.enqueue_chunk(vec![]), StreamAction::Nothing);
    assert_eq!(c.maybe_signal_available_bytes(0), StreamAction::Nothing);
    assert_eq!(c.maybe_signal_available_bytes(3), StreamAction::SignalAvailable(3));
}

#[test]
fn pull_after_close_asks_to_close() {
    let mut c = ExternalUnderlyingSourceController::new(ExternalUnderlyingSource::FetchResponse);
    c.enqueue_chunk(vec![7]);
    assert_eq!(c.pull(1), StreamAction::SignalAvailable(1));
    assert_eq!(c.close(), StreamAction::Close);
    assert_eq!(c.pull(1), StreamAction::Close);
}
