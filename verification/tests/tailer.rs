use futility::file_watcher::{FileReader, FileWatcher, FileWatcherHandle};

#[test]
fn same_path_registers_watch_only_once() {
    let mut handle = FileWatcherHandle::new();
    let mut watcher = FileWatcher::new();

    // First request: the handle forwards it and the watcher opens a
    // subscription.
    let send1 = handle.set_file_path(Some("/tmp/a.log".to_string()));
    assert!(send1);
    let c1 = watcher.on_set_path(Some("/tmp/a.log".to_string()));
    assert_eq!(c1.unwatch, None);
    assert_eq!(c1.watch.as_deref(), Some("/tmp/a.log"));
    watcher.confirm_watch(Some("/tmp/a.log".to_string()));

    // The same target again: the handle forwards nothing, so the watch is
    // registered exactly once.
    let send2 = handle.set_file_path(Some("/tmp/a.log".to_string()));
    assert!(!send2);
    assert_eq!(watcher.watched.as_deref(), Some("/tmp/a.log"));
    assert_eq!(watcher.generation, 1);
}

#[test]
fn switching_paths_tears_down_before_setup() {
    let mut handle = FileWatcherHandle::new();
    let mut watcher = FileWatcher::new();
    assert!(handle.set_file_path(Some("/tmp/a.log".to_string())));
    let c1 = watcher.on_set_path(Some("/tmp/a.log".to_string()));
    watcher.confirm_watch(Some("/tmp/a.log".to_string()));

    assert!(handle.set_file_path(Some("/tmp/b.log".to_string())));
    let c2 = watcher.on_set_path(Some("/tmp/b.log".to_string()));
    // The old watch is named for teardown, the new one for registration.
    assert_eq!(c2.unwatch.as_deref(), Some("/tmp/a.log"));
    assert_eq!(c2.watch.as_deref(), Some("/tmp/b.log"));
    assert!(!c2.publish_empty);
    // A publish tagged with the old generation is stale and discarded.
    assert!(!watcher.accept_publish(c1.generation));
    assert!(watcher.accept_publish(c2.generation));
}

#[test]
fn clearing_the_target_publishes_empty() {
    let mut handle = FileWatcherHandle::new();
    let mut watcher = FileWatcher::new();
    assert!(handle.set_file_path(Some("/tmp/a.log".to_string())));
    watcher.on_set_path(Some("/tmp/a.log".to_string()));
    watcher.confirm_watch(Some("/tmp/a.log".to_string()));

    assert!(handle.set_file_path(None));
    let c = watcher.on_set_path(None);
    assert_eq!(c.unwatch.as_deref(), Some("/tmp/a.log"));
    assert_eq!(c.watch, None);
    assert!(c.publish_empty);
}

#[test]
fn tail_buffer_grows_without_losing_or_duplicating() {
    let mut reader = FileReader::new();
    assert_eq!(reader.pos, 0);
    // The file holds "A\n" at subscribe time.
    let out1 = reader.apply_read("A\n", 2);
    assert_eq!(out1, "A\n");
    assert_eq!(reader.pos, 2);
    // "B\n" is appended; only the new bytes are read from the offset.
    let out2 = reader.apply_read("B\n", 2);
    assert_eq!(out2, "A\nB\n");
    assert_eq!(reader.pos, 4);
}

#[test]
fn failed_read_keeps_buffer_for_next_activation() {
    let mut reader = FileReader::new();
    reader.apply_read("start\n", 6);
    // An open or read failure publishes an error instead of content and
    // folds nothing in; the next successful read continues from the same
    // offset and buffer.
    assert_eq!(reader.pos, 6);
    assert_eq!(reader.content, "start\n");
    let out = reader.apply_read("more\n", 5);
    assert_eq!(out, "start\nmore\n");
    assert_eq!(reader.pos, 11);
}
