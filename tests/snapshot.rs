use oci_images::snapshot::{ignore_file, Change, Snapshot, SnapshotEntry, SnapshotEntryMetadata};

fn file(content: &str) -> SnapshotEntry {
    let metadata = SnapshotEntryMetadata { uid: 1000, gid: 1000, readonly: false };
    SnapshotEntry::new(Some(metadata), Some(content.as_bytes()))
}

#[test]
fn fingerprints_are_fixed() {
    assert_eq!(SnapshotEntry::file_fingerprint(b"Hello from a.txt"), 3958791156379554752);
    assert_eq!(SnapshotEntry::file_fingerprint(b"Hello from b.txt"), 15548480638800185371);
    assert_eq!(SnapshotEntry::file_fingerprint(b"Hello"), 3297469917561599766);
    assert_eq!(file("Hello from a.txt").fingerprint, Some(3958791156379554752));
    assert_eq!(SnapshotEntry::new(None, None).fingerprint, None);
}

#[test]
fn diff_with_self_is_empty() {
    let mut snap = Snapshot::new("/tmp/src", "/workspace");
    assert_eq!(snap.diff(&snap).len(), 0);
    snap.insert("a.txt".to_string(), file("A"));
    snap.insert("dir/b.txt".to_string(), file("B"));
    assert_eq!(snap.diff(&snap).len(), 0);
}

#[test]
fn snapshot_changes_in_memory() {
    let snap1 = Snapshot::new("/tmp/src", "workspace");
    assert_eq!(snap1.len(), 0);
    assert_eq!(snap1.diff(&snap1).len(), 0);

    let mut snap2 = Snapshot::new("/tmp/src", "workspace");
    snap2.insert("a.txt".to_string(), file("Hello from a.txt"));
    assert_eq!(snap2.len(), 1);
    assert_eq!(snap2.get("a.txt").unwrap().fingerprint, Some(3958791156379554752));
    let changes = snap1.diff(&snap2);
    assert_eq!(changes.len(), 1);
    assert_eq!(changes.items()[0], Change::Added("a.txt".to_string()));

    let mut snap3 = Snapshot::new("/tmp/src", "workspace");
    snap3.insert("a.txt".to_string(), file("Hello from a.txt"));
    snap3.insert("b.txt".to_string(), file("Hello from b.txt"));
    assert_eq!(snap3.get("b.txt").unwrap().fingerprint, Some(15548480638800185371));
    let changes = snap2.diff(&snap3);
    assert_eq!(changes.len(), 1);
    assert_eq!(changes.items()[0], Change::Added("b.txt".to_string()));

    let mut snap4 = Snapshot::new("/tmp/src", "workspace");
    snap4.insert("b.txt".to_string(), file("Hello from b.txt"));
    let changes = snap3.diff(&snap4);
    assert_eq!(changes.len(), 1);
    assert_eq!(changes.items()[0], Change::Removed("a.txt".to_string()));

    let mut snap5 = Snapshot::new("/tmp/src", "workspace");
    snap5.insert("b.txt".to_string(), file("Hello"));
    assert_eq!(snap5.get("b.txt").unwrap().fingerprint, Some(3297469917561599766));
    let changes = snap4.diff(&snap5);
    assert_eq!(changes.len(), 1);
    assert_eq!(changes.items()[0], Change::Modified("b.txt".to_string()));
}

#[test]
fn metadata_change_is_a_modification() {
    let mut before = Snapshot::new("/src", "/workspace");
    before.insert("x".to_string(), file("same"));
    let mut after = Snapshot::new("/src", "/workspace");
    let readonly = SnapshotEntryMetadata { uid: 1000, gid: 1000, readonly: true };
    after.insert("x".to_string(), SnapshotEntry::new(Some(readonly), Some(b"same")));
    let changes = before.diff(&after);
    assert_eq!(changes.items().len(), 1);
    assert_eq!(changes.items()[0], Change::Modified("x".to_string()));
}

#[test]
fn insert_replaces_and_remove_forgets() {
    let mut snap = Snapshot::new("/src", "/workspace");
    snap.insert("a".to_string(), file("1"));
    snap.insert("a".to_string(), file("2"));
    assert_eq!(snap.len(), 1);
    assert_eq!(snap.get("a").unwrap().fingerprint, file("2").fingerprint);
    snap.remove("a");
    assert!(!snap.contains_key("a"));
    assert_eq!(snap.len(), 0);
}

#[test]
fn diff_orders_removals_and_modifications_before_additions() {
    let mut a = Snapshot::new("/src", "/workspace");
    a.insert("gone".to_string(), file("g"));
    a.insert("kept".to_string(), file("k"));
    a.insert("edited".to_string(), file("e"));
    let mut b = Snapshot::new("/src", "/workspace");
    b.insert("new".to_string(), file("n"));
    b.insert("kept".to_string(), file("k"));
    b.insert("edited".to_string(), file("E"));
    let changes = a.diff(&b);
    let items = changes.items();
    assert_eq!(items.len(), 3);
    assert_eq!(items[0], Change::Removed("gone".to_string()));
    assert_eq!(items[1], Change::Modified("edited".to_string()));
    assert_eq!(items[2], Change::Added("new".to_string()));
    assert_eq!(changes.source_dir(), "/src");
    assert_eq!(changes.dest_dir(), "workspace");
}

#[test]
fn replicate_adds_everything() {
    let mut a = Snapshot::new("/src", "//layers/x");
    a.insert("one".to_string(), file("1"));
    a.insert("two".to_string(), file("2"));
    let changes = a.replicate();
    assert_eq!(changes.items().len(), 2);
    assert_eq!(changes.items()[0], Change::Added("one".to_string()));
    assert_eq!(changes.items()[1], Change::Added("two".to_string()));
    assert_eq!(changes.dest_dir(), "layers/x");

    let now = Snapshot::new("/src", "/layers/x");
    assert_eq!(a.layer_changes(&now, false).len(), 0);
    assert_eq!(a.layer_changes(&now, true).len(), 2);
}

#[test]
fn record_keeps_leaves_only() {
    let mut snap = Snapshot::new("/src", "/workspace");
    snap.record(String::new(), true, SnapshotEntry::new(None, None));
    snap.record("dir".to_string(), true, SnapshotEntry::new(None, None));
    snap.record("dir/file".to_string(), false, file("x"));
    snap.record("link".to_string(), false, SnapshotEntry::new(None, None));
    assert_eq!(snap.len(), 2);
    assert!(snap.contains_key("dir/file"));
    assert!(!snap.contains_key("dir"));
    assert_eq!(snap.entries()[0].0, "dir/file");
    assert_eq!(snap.entries()[1].0, "link");
}

#[test]
fn dockerignore_wins_over_containerignore() {
    assert_eq!(ignore_file(true, true), Some(".dockerignore"));
    assert_eq!(ignore_file(true, false), Some(".dockerignore"));
    assert_eq!(ignore_file(false, true), Some(".containerignore"));
    assert_eq!(ignore_file(false, false), None);
}
