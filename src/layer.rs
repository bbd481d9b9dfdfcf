//! Turning a change set into an OCI layer: the archive entries, the compression, the
//! sentinel for an empty layer, and the provenance annotations.
use vstd::prelude::*;

use crate::blob::{digest_string, Descriptor, MediaType};
use crate::snapshot::{
    diff_entries, keys_unique, lemma_diff_added, lemma_diff_modified, lemma_diff_removed, lookup,
    with_entry, without_key, Change, ChangeSet, ChangeView, EntriesView, SnapshotEntry,
};
use crate::text::{
    decimal, join, join_first, join_path, joined, last_index, lemma_last_index, rfind_char, str_eq,
    strings_view, to_decimal, to_hex,
};

verus! {

/// The diff ID that stands for "no layer": an empty change set writes no blob.
pub const EMPTY_DIFF_ID: &'static str = "<empty>";

/// The digest in the descriptor of an empty change set.
pub const EMPTY_DIGEST: &'static str = "<none>";

/// The compression level used for gzip and zstd layers.
pub const COMPRESSION_LEVEL: u32 = 4;

/// How the bytes of a layer's archive are compressed.
#[derive(Debug, Clone, Copy, PartialEq, Eq, Structural)]
pub enum Compression {
    Plain,
    Gzip,
    Zstd,
}

/// Why a layer could not be written.
#[derive(Debug)]
pub enum LayerError {
    /// The media type is not one of the three layer types.
    UnhandledMediaType(MediaType),
    /// A removed path has no file name to form a whiteout from.
    NoFileName(String),
}

/// The compression that a layer media type calls for.
pub open spec fn compression_of(m: MediaType) -> Option<Compression> {
    match m {
        MediaType::ImageLayer => Some(Compression::Plain),
        MediaType::ImageLayerGzip => Some(Compression::Gzip),
        MediaType::ImageLayerZstd => Some(Compression::Zstd),
        _ => None,
    }
}

impl Compression {
    /// The compression for a layer of media type `m`; other media types are refused.
    pub fn for_media_type(m: MediaType) -> (r: Result<Compression, LayerError>)
        ensures
            match r {
                Ok(c) => compression_of(m) == Some(c),
                Err(e) => compression_of(m) is None && e == LayerError::UnhandledMediaType(m),
            },
    {
        match m {
            MediaType::ImageLayer => Ok(Compression::Plain),
            MediaType::ImageLayerGzip => Ok(Compression::Gzip),
            MediaType::ImageLayerZstd => Ok(Compression::Zstd),
            _ => Err(LayerError::UnhandledMediaType(m)),
        }
    }
}

/// The last component of a relative path.
pub open spec fn base_name(p: Seq<char>) -> Seq<char> {
    let i = last_index(p, '/');
    if i >= 0 {
        p.subrange(i + 1, p.len() as int)
    } else {
        p
    }
}

/// Whether a path has a file name: a last component that is neither empty nor `..`.
pub open spec fn has_file_name(p: Seq<char>) -> bool {
    base_name(p).len() > 0 && base_name(p) != ".."@
}

/// The whiteout for a path: `.wh.` before its last component, in the same directory.
pub open spec fn whiteout_path(p: Seq<char>) -> Seq<char> {
    let i = last_index(p, '/');
    if i >= 0 {
        p.subrange(0, i + 1) + ".wh."@ + p.subrange(i + 1, p.len() as int)
    } else {
        ".wh."@ + p
    }
}

/// One entry of a layer's archive.
#[derive(Debug)]
pub enum LayerEntry {
    /// The file system object at `source`, stored under the archive name `name`.
    Path { source: String, name: String },
    /// A zero-size entry marking a deleted path.
    Whiteout { name: String },
}

pub ghost enum LayerEntryView {
    Path { source: Seq<char>, name: Seq<char> },
    Whiteout { name: Seq<char> },
}

impl View for LayerEntry {
    type V = LayerEntryView;

    open spec fn view(&self) -> LayerEntryView {
        match self {
            LayerEntry::Path { source, name } => LayerEntryView::Path {
                source: source@,
                name: name@,
            },
            LayerEntry::Whiteout { name } => LayerEntryView::Whiteout { name: name@ },
        }
    }
}

/// The archive entry for one change.
pub open spec fn change_entry(source: Seq<char>, dest: Seq<char>, c: ChangeView) -> LayerEntryView {
    match c {
        ChangeView::Added(p) => LayerEntryView::Path {
            source: join_path(source, p),
            name: join_path(dest, p),
        },
        ChangeView::Modified(p) => LayerEntryView::Path {
            source: join_path(source, p),
            name: join_path(dest, p),
        },
        ChangeView::Removed(p) => LayerEntryView::Whiteout { name: join_path(dest, whiteout_path(p)) },
    }
}

/// The archive entries of a layer: the destination directory itself (from the source
/// directory, so that its ownership is kept), then one entry per change, in order.
pub open spec fn layer_entries(source: Seq<char>, dest: Seq<char>, items: Seq<ChangeView>) -> Seq<
    LayerEntryView,
> {
    seq![LayerEntryView::Path { source, name: dest }] + items.map_values(
        |c: ChangeView| change_entry(source, dest, c),
    )
}

/// Whether a change is a removal of a path without a file name.
pub open spec fn is_unnamed_removal(c: ChangeView) -> bool {
    c matches ChangeView::Removed(p) && !has_file_name(p)
}

pub open spec fn entries_view(v: Seq<LayerEntry>) -> Seq<LayerEntryView> {
    v.map_values(|e: LayerEntry| e@)
}

/// Whether the path has a file name.
fn file_name_present(p: &str) -> (r: bool)
    ensures
        r == has_file_name(p@),
{
    proof {
        lemma_last_index(p@, '/');
    }
    let n = p.unicode_len();
    let base = match rfind_char(p, '/') {
        Some(i) => p.substring_char(i + 1, n),
        None => p,
    };
    base.unicode_len() > 0 && !str_eq(base, "..")
}

/// The whiteout for a path.
fn whiteout(p: &str) -> (r: String)
    ensures
        r@ == whiteout_path(p@),
{
    proof {
        lemma_last_index(p@, '/');
    }
    let n = p.unicode_len();
    match rfind_char(p, '/') {
        Some(i) => {
            let mut out = p.substring_char(0, i + 1).to_string();
            out.append(".wh.");
            out.append(p.substring_char(i + 1, n));
            out
        },
        None => {
            let mut out = String::from_str(".wh.");
            out.append(p);
            out
        },
    }
}

impl ChangeSet {
    /// The sentinel result of writing an empty change set: diff ID `<empty>` and a
    /// zero-size descriptor with digest `<none>`; `None` where there are changes.
    pub fn empty_layer(&self, media_type: MediaType) -> (r: Option<(String, Descriptor)>)
        ensures
            r is Some <==> self.items_view().len() == 0,
            r matches Some((diff_id, d)) ==> diff_id@ == EMPTY_DIFF_ID@ && d.digest@ == EMPTY_DIGEST@
                && d.size == 0 && d.media_type == media_type && d.annotations is None,
    {
        if self.len() == 0 {
            let d = Descriptor {
                media_type,
                size: 0,
                digest: String::from_str(EMPTY_DIGEST),
                annotations: None,
            };
            Some((String::from_str(EMPTY_DIFF_ID), d))
        } else {
            None
        }
    }

    /// The archive entries of the layer for these changes, or the first removed path that
    /// has no file name to form its whiteout from.
    pub fn layer_entries(&self) -> (r: Result<Vec<LayerEntry>, LayerError>)
        ensures
            match r {
                Ok(v) => entries_view(v@) == layer_entries(
                    self.source_view(),
                    self.dest_view(),
                    self.items_view(),
                ) && forall|i: int|
                    0 <= i < self.items_view().len() ==> !is_unnamed_removal(
                        #[trigger] self.items_view()[i],
                    ),
                Err(LayerError::NoFileName(p)) => exists|i: int|
                    0 <= i < self.items_view().len() && #[trigger] self.items_view()[i]
                        == ChangeView::Removed(p@) && !has_file_name(p@),
                Err(LayerError::UnhandledMediaType(_)) => false,
            },
    {
        let ghost items = self.items_view();
        let ghost source = self.source_view();
        let ghost dest = self.dest_view();
        let source_dir = self.source_dir();
        let dest_dir = self.dest_dir();
        let list = self.items();
        let mut out: Vec<LayerEntry> = Vec::new();
        out.push(LayerEntry::Path { source: source_dir.to_string(), name: dest_dir.to_string() });
        let mut i: usize = 0;
        while i < list.len()
            invariant
                items == crate::snapshot::changes_view(list@),
                items == self.items_view(),
                source == source_dir@,
                dest == dest_dir@,
                i <= list@.len(),
                entries_view(out@) == layer_entries(source, dest, items.subrange(0, i as int)),
                forall|j: int| 0 <= j < i ==> !is_unnamed_removal(#[trigger] items[j]),
            decreases list@.len() - i,
        {
            let ghost before = out@;
            assert(items[i as int] == list@[i as int]@);
            let entry = match &list[i] {
                Change::Added(p) => LayerEntry::Path {
                    source: join(source_dir, p.as_str()),
                    name: join(dest_dir, p.as_str()),
                },
                Change::Modified(p) => LayerEntry::Path {
                    source: join(source_dir, p.as_str()),
                    name: join(dest_dir, p.as_str()),
                },
                Change::Removed(p) => {
                    if !file_name_present(p.as_str()) {
                        let missing = p.clone();
                        assert(items[i as int] == ChangeView::Removed(missing@));
                        return Err(LayerError::NoFileName(missing));
                    }
                    let w = whiteout(p.as_str());
                    LayerEntry::Whiteout { name: join(dest_dir, w.as_str()) }
                },
            };
            out.push(entry);
            assert(entries_view(out@) =~= entries_view(before).push(
                change_entry(source, dest, items[i as int]),
            ));
            assert(layer_entries(source, dest, items.subrange(0, i + 1)) =~= layer_entries(
                source,
                dest,
                items.subrange(0, i as int),
            ).push(change_entry(source, dest, items[i as int])));
            i = i + 1;
        }
        assert(items.subrange(0, items.len() as int) =~= items);
        Ok(out)
    }
}

/// The diff ID of a layer whose uncompressed archive has this SHA-256 digest.
pub fn diff_id(digest: &[u8]) -> (r: String)
    ensures
        r@ == digest_string(digest@),
{
    let mut d = String::from_str("sha256:");
    let hex = to_hex(digest);
    d.append(hex.as_str());
    d
}

/// The most paths that one annotation lists.
pub const MAX_LISTED_PATHS: usize = 100;

pub const VERSION_ANNOTATION: &'static str = "io.stencila.version";
pub const CREATED_ANNOTATION: &'static str = "io.stencila.layer.created";
pub const DIRECTORY_ANNOTATION: &'static str = "io.stencila.layer.directory";
pub const CHANGES_ANNOTATION: &'static str = "io.stencila.layer.changes";
pub const ADDITIONS_ANNOTATION: &'static str = "io.stencila.layer.additions";
pub const MODIFICATIONS_ANNOTATION: &'static str = "io.stencila.layer.modifications";
pub const DELETIONS_ANNOTATION: &'static str = "io.stencila.layer.deletions";

/// The first paths of a list, joined with `:`.
pub open spec fn listed_paths(paths: Seq<Seq<char>>) -> Seq<char> {
    joined(
        paths.take(
            if paths.len() < MAX_LISTED_PATHS {
                paths.len() as int
            } else {
                MAX_LISTED_PATHS as int
            },
        ),
        ":"@,
    )
}

/// An annotation listing `paths` under `key`, or none where there are no paths.
pub open spec fn list_annotation(key: Seq<char>, paths: Seq<Seq<char>>) -> Seq<(Seq<char>, Seq<char>)> {
    if paths.len() == 0 {
        Seq::empty()
    } else {
        seq![(key, listed_paths(paths))]
    }
}

pub open spec fn pairs_view(v: Seq<(String, String)>) -> Seq<(Seq<char>, Seq<char>)> {
    v.map_values(|p: (String, String)| (p.0@, p.1@))
}

/// The paths that made it into a layer, by kind of change.
#[derive(Debug)]
pub struct LayerRecord {
    additions: Vec<String>,
    modifications: Vec<String>,
    deletions: Vec<String>,
}

impl LayerRecord {
    pub closed spec fn additions_view(&self) -> Seq<Seq<char>> {
        strings_view(self.additions@)
    }

    pub closed spec fn modifications_view(&self) -> Seq<Seq<char>> {
        strings_view(self.modifications@)
    }

    pub closed spec fn deletions_view(&self) -> Seq<Seq<char>> {
        strings_view(self.deletions@)
    }

    /// A record of no paths.
    pub fn new() -> (r: LayerRecord)
        ensures
            r.additions_view().len() == 0,
            r.modifications_view().len() == 0,
            r.deletions_view().len() == 0,
    {
        LayerRecord { additions: Vec::new(), modifications: Vec::new(), deletions: Vec::new() }
    }

    /// Records that the entry for `change` was written to the layer.
    pub fn record(&mut self, change: &Change)
        ensures
            final(self).additions_view() == match change@ {
                ChangeView::Added(p) => old(self).additions_view().push(p),
                _ => old(self).additions_view(),
            },
            final(self).modifications_view() == match change@ {
                ChangeView::Modified(p) => old(self).modifications_view().push(p),
                _ => old(self).modifications_view(),
            },
            final(self).deletions_view() == match change@ {
                ChangeView::Removed(p) => old(self).deletions_view().push(p),
                _ => old(self).deletions_view(),
            },
    {
        match change {
            Change::Added(p) => {
                self.additions.push(p.clone());
                assert(self.additions_view() =~= old(self).additions_view().push(p@));
            },
            Change::Modified(p) => {
                self.modifications.push(p.clone());
                assert(self.modifications_view() =~= old(self).modifications_view().push(p@));
            },
            Change::Removed(p) => {
                self.deletions.push(p.clone());
                assert(self.deletions_view() =~= old(self).deletions_view().push(p@));
            },
        }
    }

    /// The provenance annotations of a layer: the product version, when it was created,
    /// the directory it fills, how many changes it was made from, and up to the first
    /// hundred added, modified and deleted paths (each list left out where empty).
    pub fn annotations(&self, version: &str, created: &str, dest_dir: &str, changes: u64) -> (r: Vec<
        (String, String),
    >)
        ensures
            pairs_view(r@) == seq![
                (VERSION_ANNOTATION@, version@),
                (CREATED_ANNOTATION@, created@),
                (DIRECTORY_ANNOTATION@, dest_dir@),
                (CHANGES_ANNOTATION@, decimal(changes as nat)),
            ] + list_annotation(ADDITIONS_ANNOTATION@, self.additions_view()) + list_annotation(
                MODIFICATIONS_ANNOTATION@,
                self.modifications_view(),
            ) + list_annotation(DELETIONS_ANNOTATION@, self.deletions_view()),
    {
        let mut out: Vec<(String, String)> = Vec::new();
        out.push((String::from_str(VERSION_ANNOTATION), version.to_string()));
        out.push((String::from_str(CREATED_ANNOTATION), created.to_string()));
        out.push((String::from_str(DIRECTORY_ANNOTATION), dest_dir.to_string()));
        out.push((String::from_str(CHANGES_ANNOTATION), to_decimal(changes)));
        let ghost base = pairs_view(out@);
        assert(base =~= seq![
            (VERSION_ANNOTATION@, version@),
            (CREATED_ANNOTATION@, created@),
            (DIRECTORY_ANNOTATION@, dest_dir@),
            (CHANGES_ANNOTATION@, decimal(changes as nat)),
        ]);
        Self::push_list(&mut out, ADDITIONS_ANNOTATION, &self.additions);
        Self::push_list(&mut out, MODIFICATIONS_ANNOTATION, &self.modifications);
        Self::push_list(&mut out, DELETIONS_ANNOTATION, &self.deletions);
        assert(pairs_view(out@) =~= base + list_annotation(ADDITIONS_ANNOTATION@, self.additions_view())
            + list_annotation(MODIFICATIONS_ANNOTATION@, self.modifications_view())
            + list_annotation(DELETIONS_ANNOTATION@, self.deletions_view()));
        out
    }

    fn push_list(out: &mut Vec<(String, String)>, key: &str, paths: &Vec<String>)
        ensures
            pairs_view(final(out)@) == pairs_view(old(out)@) + list_annotation(
                key@,
                strings_view(paths@),
            ),
    {
        if paths.len() > 0 {
            let joined_paths = join_first(paths, MAX_LISTED_PATHS, ":");
            out.push((key.to_string(), joined_paths));
            assert(pairs_view(out@) =~= pairs_view(old(out)@) + list_annotation(
                key@,
                strings_view(paths@),
            ));
        } else {
            assert(pairs_view(out@) =~= pairs_view(old(out)@) + list_annotation(
                key@,
                strings_view(paths@),
            ));
        }
    }
}

/// The layer of a newly recorded path holds the destination directory and that path.
pub proof fn lemma_added_layer(
    a: EntriesView,
    k: Seq<char>,
    e: SnapshotEntry,
    source: Seq<char>,
    dest: Seq<char>,
)
    requires
        keys_unique(a),
        lookup(a, k) is None,
    ensures
        layer_entries(source, dest, diff_entries(a, with_entry(a, k, e))) == seq![
            LayerEntryView::Path { source, name: dest },
            LayerEntryView::Path { source: join_path(source, k), name: join_path(dest, k) },
        ],
{
    lemma_diff_added(a, k, e);
    assert(layer_entries(source, dest, seq![ChangeView::Added(k)]) =~= seq![
        LayerEntryView::Path { source, name: dest },
        LayerEntryView::Path { source: join_path(source, k), name: join_path(dest, k) },
    ]);
}

/// The layer of a removed path holds the destination directory and a single whiteout
/// for the path.
pub proof fn lemma_removed_layer(a: EntriesView, k: Seq<char>, source: Seq<char>, dest: Seq<char>)
    requires
        keys_unique(a),
        lookup(a, k) is Some,
    ensures
        layer_entries(source, dest, diff_entries(a, without_key(a, k))) == seq![
            LayerEntryView::Path { source, name: dest },
            LayerEntryView::Whiteout { name: join_path(dest, whiteout_path(k)) },
        ],
{
    lemma_diff_removed(a, k);
    assert(layer_entries(source, dest, seq![ChangeView::Removed(k)]) =~= seq![
        LayerEntryView::Path { source, name: dest },
        LayerEntryView::Whiteout { name: join_path(dest, whiteout_path(k)) },
    ]);
}

/// The layer of a modified path holds the destination directory and the path, whose
/// current content it archives.
pub proof fn lemma_modified_layer(
    a: EntriesView,
    k: Seq<char>,
    e: SnapshotEntry,
    source: Seq<char>,
    dest: Seq<char>,
)
    requires
        keys_unique(a),
        lookup(a, k) is Some,
        lookup(a, k) != Some(e),
    ensures
        layer_entries(source, dest, diff_entries(a, with_entry(a, k, e))) == seq![
            LayerEntryView::Path { source, name: dest },
            LayerEntryView::Path { source: join_path(source, k), name: join_path(dest, k) },
        ],
{
    lemma_diff_modified(a, k, e);
    assert(layer_entries(source, dest, seq![ChangeView::Modified(k)]) =~= seq![
        LayerEntryView::Path { source, name: dest },
        LayerEntryView::Path { source: join_path(source, k), name: join_path(dest, k) },
    ]);
}

} // verus!
