use oci_images::blob::{blobs_dir, layer_path, str_sha256_hex, Descriptor, MediaType};
use oci_images::layer::{diff_id, Compression, LayerEntry, LayerError, LayerRecord};
use oci_images::snapshot::{Change, ChangeSet, Snapshot, SnapshotEntry};

#[test]
fn empty_changeset_is_a_sentinel() {
    let changes = ChangeSet::new("/src", "/workspace", Vec::new());
    let (id, descriptor) = changes.empty_layer(MediaType::ImageLayerGzip).unwrap();
    assert_eq!(id, "<empty>");
    assert_eq!(descriptor.digest, "<none>");
    assert_eq!(descriptor.size, 0);
    assert_eq!(descriptor.media_type, MediaType::ImageLayerGzip);

    let changes = ChangeSet::new("/src", "/workspace", vec![Change::Added("a".to_string())]);
    assert!(changes.empty_layer(MediaType::ImageLayerGzip).is_none());
}

#[test]
fn layer_entries_with_whiteouts() {
    let items = vec![
        Change::Added("a.txt".to_string()),
        Change::Removed("a.txt".to_string()),
        Change::Removed("dir/b.txt".to_string()),
        Change::Modified("dir/c.txt".to_string()),
    ];
    let changes = ChangeSet::new("/tmp/src", "/workspace", items);
    let entries = changes.layer_entries().unwrap();
    assert_eq!(entries.len(), 5);
    match &entries[0] {
        LayerEntry::Path { source, name } => {
            assert_eq!(source, "/tmp/src");
            assert_eq!(name, "workspace");
        }
        _ => panic!("expected the directory entry first"),
    }
    match &entries[1] {
        LayerEntry::Path { source, name } => {
            assert_eq!(source, "/tmp/src/a.txt");
            assert_eq!(name, "workspace/a.txt");
        }
        _ => panic!("expected a path entry"),
    }
    match &entries[2] {
        LayerEntry::Whiteout { name } => assert_eq!(name, "workspace/.wh.a.txt"),
        _ => panic!("expected a whiteout"),
    }
    match &entries[3] {
        LayerEntry::Whiteout { name } => assert_eq!(name, "workspace/dir/.wh.b.txt"),
        _ => panic!("expected a whiteout"),
    }
    match &entries[4] {
        LayerEntry::Path { name, .. } => assert_eq!(name, "workspace/dir/c.txt"),
        _ => panic!("expected a path entry"),
    }
}

#[test]
fn removal_without_file_name_is_refused() {
    let changes = ChangeSet::new("/src", "", vec![Change::Removed("a/..".to_string())]);
    match changes.layer_entries() {
        Err(LayerError::NoFileName(p)) => assert_eq!(p, "a/.."),
        other => panic!("unexpected {:?}", other),
    }
}

#[test]
fn compression_by_media_type() {
    assert_eq!(Compression::for_media_type(MediaType::ImageLayer).unwrap(), Compression::Plain);
    assert_eq!(Compression::for_media_type(MediaType::ImageLayerGzip).unwrap(), Compression::Gzip);
    assert_eq!(Compression::for_media_type(MediaType::ImageLayerZstd).unwrap(), Compression::Zstd);
    assert!(matches!(
        Compression::for_media_type(MediaType::ImageConfig),
        Err(LayerError::UnhandledMediaType(MediaType::ImageConfig))
    ));
}

#[test]
fn annotations_list_first_hundred() {
    let mut record = LayerRecord::new();
    for i in 0..150 {
        record.record(&Change::Added(format!("f{}", i)));
    }
    record.record(&Change::Removed("old".to_string()));
    let annotations = record.annotations("2.0.0", "2024-01-01T00:00:00Z", "workspace", 151);
    assert_eq!(annotations.len(), 6);
    assert_eq!(annotations[0], ("io.stencila.version".to_string(), "2.0.0".to_string()));
    assert_eq!(annotations[3], ("io.stencila.layer.changes".to_string(), "151".to_string()));
    assert_eq!(annotations[4].0, "io.stencila.layer.additions");
    let listed: Vec<&str> = annotations[4].1.split(':').collect();
    assert_eq!(listed.len(), 100);
    assert_eq!(listed[0], "f0");
    assert_eq!(listed[99], "f99");
    assert_eq!(annotations[5], ("io.stencila.layer.deletions".to_string(), "old".to_string()));
}

#[test]
fn digests_and_blob_paths() {
    let digest: Vec<u8> = (0u8..32).collect();
    let id = diff_id(&digest);
    assert_eq!(id.len(), 7 + 64);
    assert!(id.starts_with("sha256:000102030405"));
    let d = Descriptor::for_blob(MediaType::ImageLayerGzip, 5, &digest, None);
    assert_eq!(d.digest, id);
    assert_eq!(d.size, 5);
    let hex = &id[7..];
    assert_eq!(layer_path("/img", &d.digest), format!("/img/blobs/sha256/{}", hex));
    assert_eq!(layer_path("/img/", hex), format!("/img/blobs/sha256/{}", hex));
    assert_eq!(blobs_dir("/img"), "/img/blobs/sha256");
}

#[test]
fn sha256_of_strings() {
    assert_eq!(
        str_sha256_hex(""),
        "e3b0c44298fc1c149afbf4c8996fb92427ae41e4649b934ca495991b7852b855"
    );
    assert_eq!(
        str_sha256_hex("abc"),
        "ba7816bf8f01cfea414140de5dae2223b00361a396177a9cb410ff61f20015ad"
    );
}

#[test]
fn changes_layer_entries() {
    let snap = Snapshot::new("/tmp/source", "workspace");
    let mut now = Snapshot::new("/tmp/source", "workspace");
    now.insert("some-file.txt".to_string(), SnapshotEntry::new(None, Some(b"Hello")));
    let changes = snap.diff(&now);
    let entries = changes.layer_entries().unwrap();
    assert_eq!(entries.len(), 2);
    match &entries[1] {
        LayerEntry::Path { source, name } => {
            assert_eq!(source, "/tmp/source/some-file.txt");
            assert_eq!(name, "workspace/some-file.txt");
        }
        _ => panic!("expected a path entry"),
    }
}
