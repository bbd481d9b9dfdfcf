//! Snapshots of a directory's leaves and the change sets between two snapshots.
use std::hash::Hasher;

use vstd::prelude::*;

verus! {

/// A name for seahash's streaming hash (default seeds) of a file's content.
pub uninterp spec fn fingerprint_of(content: Seq<u8>) -> u64;

/// Relies on `seahash::SeaHasher` with its default seeds: after the bytes are written,
/// `finish` depends on those bytes alone (the hasher buffers a partial word, so how the
/// bytes are split between writes does not matter).
#[verifier::external_body]
fn seahash_content(content: &[u8]) -> (r: u64)
    ensures
        r == fingerprint_of(content@),
{
    let mut hasher = seahash::SeaHasher::default();
    hasher.write(content);
    hasher.finish()
}

/// The ownership metadata of a snapshot entry that a change is detected on.
#[derive(Debug, Clone, Copy, PartialEq, Eq, Structural)]
pub struct SnapshotEntryMetadata {
    pub uid: u32,
    pub gid: u32,
    pub readonly: bool,
}

/// What a snapshot records of one leaf (a file or a symlink).
#[derive(Debug, Clone, Copy, PartialEq, Eq, Structural)]
pub struct SnapshotEntry {
    /// `None` where the metadata could not be read.
    pub metadata: Option<SnapshotEntryMetadata>,
    /// Fingerprint of the content, for regular files only.
    pub fingerprint: Option<u64>,
}

impl SnapshotEntry {
    /// An entry with the given metadata; `content` is the file's content for a regular
    /// file that could be read, and `None` otherwise.
    pub fn new(metadata: Option<SnapshotEntryMetadata>, content: Option<&[u8]>) -> (r: SnapshotEntry)
        ensures
            r.metadata == metadata,
            r.fingerprint == match content {
                Some(c) => Some(fingerprint_of(c@)),
                None => None,
            },
    {
        let fingerprint = match content {
            Some(c) => Some(Self::file_fingerprint(c)),
            None => None,
        };
        SnapshotEntry { metadata, fingerprint }
    }

    /// The fingerprint of a file's content: a fast non-cryptographic hash, for change
    /// detection only.
    pub fn file_fingerprint(content: &[u8]) -> (r: u64)
        ensures
            r == fingerprint_of(content@),
    {
        seahash_content(content)
    }
}

/// Entries of a snapshot, as (relative path, entry) pairs.
pub type EntriesView = Seq<(Seq<char>, SnapshotEntry)>;

/// Whether no two entries share a path.
pub open spec fn keys_unique(s: EntriesView) -> bool {
    forall|i: int, j: int| 0 <= i < j < s.len() ==> s[i].0 != s[j].0
}

/// Position of the first entry for `k`, or -1 when there is none.
pub open spec fn key_index(s: EntriesView, k: Seq<char>) -> int
    decreases s.len(),
{
    if s.len() == 0 {
        -1
    } else {
        let r = key_index(s.drop_last(), k);
        if r >= 0 {
            r
        } else if s.last().0 == k {
            s.len() - 1
        } else {
            -1
        }
    }
}

/// The entry recorded for path `k`.
pub open spec fn lookup(s: EntriesView, k: Seq<char>) -> Option<SnapshotEntry> {
    let i = key_index(s, k);
    if i >= 0 {
        Some(s[i].1)
    } else {
        None
    }
}

/// `key_index` is -1 where no entry has path `k`, and otherwise the first such entry.
pub proof fn lemma_key_index(s: EntriesView, k: Seq<char>)
    ensures
        -1 <= key_index(s, k) < s.len(),
        key_index(s, k) >= 0 ==> s[key_index(s, k)].0 == k,
        forall|j: int| 0 <= j < key_index(s, k) ==> s[j].0 != k,
        key_index(s, k) == -1 <==> forall|j: int| 0 <= j < s.len() ==> s[j].0 != k,
    decreases s.len(),
{
    if s.len() > 0 {
        let t = s.drop_last();
        lemma_key_index(t, k);
        assert forall|j: int| 0 <= j < t.len() implies t[j] == s[j] by {}
        if key_index(t, k) == -1 && s.last().0 != k {
            assert forall|j: int| 0 <= j < s.len() implies s[j].0 != k by {
                if j < t.len() {
                    assert(t[j] == s[j]);
                }
            }
        }
    }
}

/// With unique paths, an entry's path finds that entry.
pub proof fn lemma_lookup_at(s: EntriesView, j: int)
    requires
        keys_unique(s),
        0 <= j < s.len(),
    ensures
        key_index(s, s[j].0) == j,
        lookup(s, s[j].0) == Some(s[j].1),
{
    lemma_key_index(s, s[j].0);
}

/// The change between two snapshots at one path.
pub ghost enum ChangeView {
    Added(Seq<char>),
    Modified(Seq<char>),
    Removed(Seq<char>),
}

/// Changes for the entries of `a`: `Modified` where `b` records another entry for the
/// path, `Removed` where `b` records none; in the order of `a`.
pub open spec fn modified_or_removed(a: EntriesView, b: EntriesView) -> Seq<ChangeView>
    decreases a.len(),
{
    if a.len() == 0 {
        Seq::empty()
    } else {
        let (k, e) = a.last();
        modified_or_removed(a.drop_last(), b) + match lookup(b, k) {
            Some(f) => if f == e {
                Seq::empty()
            } else {
                seq![ChangeView::Modified(k)]
            },
            None => seq![ChangeView::Removed(k)],
        }
    }
}

/// `Added` for each path of `b` that `a` does not record, in the order of `b`.
pub open spec fn added(b: EntriesView, a: EntriesView) -> Seq<ChangeView>
    decreases b.len(),
{
    if b.len() == 0 {
        Seq::empty()
    } else {
        added(b.drop_last(), a) + if lookup(a, b.last().0) is None {
            seq![ChangeView::Added(b.last().0)]
        } else {
            Seq::empty()
        }
    }
}

/// The changes that lead from the entries `a` to the entries `b`.
pub open spec fn diff_entries(a: EntriesView, b: EntriesView) -> Seq<ChangeView> {
    modified_or_removed(a, b) + added(b, a)
}

/// `Added` for every entry, in order.
pub open spec fn all_added(a: EntriesView) -> Seq<ChangeView> {
    a.map_values(|p: (Seq<char>, SnapshotEntry)| ChangeView::Added(p.0))
}

/// A change of one path between two snapshots.
#[derive(Debug)]
pub enum Change {
    Added(String),
    Modified(String),
    Removed(String),
}

impl View for Change {
    type V = ChangeView;

    open spec fn view(&self) -> ChangeView {
        match self {
            Change::Added(p) => ChangeView::Added(p@),
            Change::Modified(p) => ChangeView::Modified(p@),
            Change::Removed(p) => ChangeView::Removed(p@),
        }
    }
}

impl PartialEq for Change {
    fn eq(&self, other: &Change) -> (r: bool) {
        match self {
            Change::Added(a) => match other {
                Change::Added(b) => crate::text::str_eq(a.as_str(), b.as_str()),
                _ => false,
            },
            Change::Modified(a) => match other {
                Change::Modified(b) => crate::text::str_eq(a.as_str(), b.as_str()),
                _ => false,
            },
            Change::Removed(a) => match other {
                Change::Removed(b) => crate::text::str_eq(a.as_str(), b.as_str()),
                _ => false,
            },
        }
    }
}

impl vstd::std_specs::cmp::PartialEqSpecImpl for Change {
    open spec fn obeys_eq_spec() -> bool {
        true
    }

    open spec fn eq_spec(&self, other: &Change) -> bool {
        self@ == other@
    }
}

/// The views of a list of changes.
pub open spec fn changes_view(items: Seq<Change>) -> Seq<ChangeView> {
    items.map_values(|c: Change| c@)
}

/// The entries of a list of (path, entry) pairs as views.
pub open spec fn entries_view(v: Seq<(String, SnapshotEntry)>) -> EntriesView {
    v.map_values(|p: (String, SnapshotEntry)| (p.0@, p.1))
}

/// The entry list with the path `k` gone.
pub open spec fn without_key(s: EntriesView, k: Seq<char>) -> EntriesView {
    let i = key_index(s, k);
    if i >= 0 {
        s.remove(i)
    } else {
        s
    }
}

/// The entry list with `(k, e)` recorded: in place where `k` is present, else last.
pub open spec fn with_entry(s: EntriesView, k: Seq<char>, e: SnapshotEntry) -> EntriesView {
    let i = key_index(s, k);
    if i >= 0 {
        s.update(i, (k, e))
    } else {
        s.push((k, e))
    }
}

/// The leaves of a directory tree at one moment, keyed by path relative to the tree.
#[derive(Debug)]
pub struct Snapshot {
    /// The directory, on the local filesystem, that was captured.
    source_dir: String,
    /// The directory, in the image's root filesystem, that it stands for.
    dest_dir: String,
    entries: Vec<(String, SnapshotEntry)>,
}

impl Snapshot {
    pub closed spec fn source_view(&self) -> Seq<char> {
        self.source_dir@
    }

    pub closed spec fn dest_view(&self) -> Seq<char> {
        self.dest_dir@
    }

    pub closed spec fn entries_view(&self) -> EntriesView {
        entries_view(self.entries@)
    }

    /// Paths are unique.
    pub open spec fn wf(&self) -> bool {
        keys_unique(self.entries_view())
    }

    /// An empty snapshot of `source_dir`, to stand at `dest_dir` in an image.
    pub fn new(source_dir: &str, dest_dir: &str) -> (r: Snapshot)
        ensures
            r.wf(),
            r.source_view() == source_dir@,
            r.dest_view() == dest_dir@,
            r.entries_view() == Seq::<(Seq<char>, SnapshotEntry)>::empty(),
    {
        let r = Snapshot {
            source_dir: source_dir.to_string(),
            dest_dir: dest_dir.to_string(),
            entries: Vec::new(),
        };
        assert(r.entries_view() =~= Seq::<(Seq<char>, SnapshotEntry)>::empty());
        r
    }

    /// The directory that was captured.
    pub fn source_dir(&self) -> (r: &str)
        ensures
            r@ == self.source_view(),
    {
        self.source_dir.as_str()
    }

    /// The directory in the image that the snapshot stands for.
    pub fn dest_dir(&self) -> (r: &str)
        ensures
            r@ == self.dest_view(),
    {
        self.dest_dir.as_str()
    }

    /// The number of entries.
    pub fn len(&self) -> (r: usize)
        ensures
            r == self.entries_view().len(),
    {
        self.entries.len()
    }

    /// Position of the entry for `path`, if any.
    fn position(&self, path: &str) -> (r: Option<usize>)
        ensures
            match r {
                Some(i) => key_index(self.entries_view(), path@) == i,
                None => key_index(self.entries_view(), path@) == -1,
            },
    {
        let ghost v = self.entries_view();
        let mut i: usize = 0;
        while i < self.entries.len()
            invariant
                v == self.entries_view(),
                i <= v.len(),
                key_index(v.subrange(0, i as int), path@) == -1,
            decreases v.len() - i,
        {
            let ghost t = v.subrange(0, i + 1);
            assert(t.drop_last() =~= v.subrange(0, i as int));
            assert(t.last() == v[i as int]);
            if crate::text::str_eq(self.entries[i].0.as_str(), path) {
                proof {
                    lemma_prefix_key_index(v, path@, i as int);
                }
                return Some(i);
            }
            i = i + 1;
        }
        assert(v.subrange(0, v.len() as int) =~= v);
        None
    }

    /// The entry recorded for `path`.
    pub fn get(&self, path: &str) -> (r: Option<SnapshotEntry>)
        ensures
            r == lookup(self.entries_view(), path@),
    {
        proof {
            lemma_key_index(self.entries_view(), path@);
        }
        match self.position(path) {
            Some(i) => Some(self.entries[i].1),
            None => None,
        }
    }

    /// Whether an entry is recorded for `path`.
    pub fn contains_key(&self, path: &str) -> (r: bool)
        ensures
            r == (lookup(self.entries_view(), path@) is Some),
    {
        self.position(path).is_some()
    }

    /// Records `entry` for `path`, replacing an entry already recorded for it.
    pub fn insert(&mut self, path: String, entry: SnapshotEntry)
        requires
            old(self).wf(),
        ensures
            final(self).wf(),
            final(self).source_view() == old(self).source_view(),
            final(self).dest_view() == old(self).dest_view(),
            final(self).entries_view() == with_entry(old(self).entries_view(), path@, entry),
    {
        let ghost v = self.entries_view();
        proof {
            lemma_key_index(v, path@);
        }
        match self.position(path.as_str()) {
            Some(i) => {
                self.entries.set(i, (path, entry));
                assert(self.entries_view() =~= v.update(i as int, (path@, entry)));
            },
            None => {
                let ghost k = path@;
                self.entries.push((path, entry));
                assert(self.entries_view() =~= v.push((k, entry)));
            },
        }
    }

    /// Records what a walk of the source directory met at `relative_path`: only leaves
    /// are recorded, neither directories nor the source directory itself (the empty path).
    pub fn record(&mut self, relative_path: String, is_dir: bool, entry: SnapshotEntry)
        requires
            old(self).wf(),
        ensures
            final(self).wf(),
            final(self).source_view() == old(self).source_view(),
            final(self).dest_view() == old(self).dest_view(),
            final(self).entries_view() == if is_dir || relative_path@.len() == 0 {
                old(self).entries_view()
            } else {
                with_entry(old(self).entries_view(), relative_path@, entry)
            },
    {
        if !is_dir && relative_path.as_str().unicode_len() > 0 {
            self.insert(relative_path, entry);
        }
    }

    /// The (path, entry) pairs, in the order they were recorded.
    pub fn entries(&self) -> (r: &Vec<(String, SnapshotEntry)>)
        ensures
            entries_view(r@) == self.entries_view(),
    {
        &self.entries
    }

    /// Forgets the entry for `path`, if any.
    pub fn remove(&mut self, path: &str)
        requires
            old(self).wf(),
        ensures
            final(self).wf(),
            final(self).source_view() == old(self).source_view(),
            final(self).dest_view() == old(self).dest_view(),
            final(self).entries_view() == without_key(old(self).entries_view(), path@),
    {
        let ghost v = self.entries_view();
        proof {
            lemma_key_index(v, path@);
        }
        match self.position(path) {
            Some(i) => {
                self.entries.remove(i);
                assert(self.entries_view() =~= v.remove(i as int));
            },
            None => {},
        }
    }
}

/// When the first entry for `k` is at `i`, that is `key_index`.
proof fn lemma_prefix_key_index(s: EntriesView, k: Seq<char>, i: int)
    requires
        0 <= i < s.len(),
        s[i].0 == k,
        key_index(s.subrange(0, i), k) == -1,
    ensures
        key_index(s, k) == i,
    decreases s.len() - i,
{
    if i == s.len() - 1 {
        assert(s.drop_last() =~= s.subrange(0, i));
    } else {
        let t = s.drop_last();
        assert(t.subrange(0, i) =~= s.subrange(0, i));
        lemma_prefix_key_index(t, k, i);
    }
}

/// `s` without its leading `/` characters.
pub open spec fn strip_leading_slashes(s: Seq<char>) -> Seq<char>
    decreases s.len(),
{
    if s.len() > 0 && s[0] == '/' {
        strip_leading_slashes(s.drop_first())
    } else {
        s
    }
}

/// The changes between two snapshots of one directory, ready to become a layer.
#[derive(Debug)]
pub struct ChangeSet {
    source_dir: String,
    /// Relative: paths in a layer's archive carry no leading `/`.
    dest_dir: String,
    items: Vec<Change>,
}

impl ChangeSet {
    pub closed spec fn source_view(&self) -> Seq<char> {
        self.source_dir@
    }

    pub closed spec fn dest_view(&self) -> Seq<char> {
        self.dest_dir@
    }

    pub closed spec fn items_view(&self) -> Seq<ChangeView> {
        changes_view(self.items@)
    }

    /// A change set for `source_dir`, whose destination loses its leading slashes.
    pub fn new(source_dir: &str, dest_dir: &str, items: Vec<Change>) -> (r: ChangeSet)
        ensures
            r.source_view() == source_dir@,
            r.dest_view() == strip_leading_slashes(dest_dir@),
            r.items_view() == changes_view(items@),
    {
        let n = dest_dir.unicode_len();
        let mut i: usize = 0;
        assert(dest_dir@.subrange(0, n as int) =~= dest_dir@);
        while i < n && dest_dir.get_char(i) == '/'
            invariant
                n == dest_dir@.len(),
                i <= n,
                strip_leading_slashes(dest_dir@) == strip_leading_slashes(
                    dest_dir@.subrange(i as int, n as int),
                ),
            decreases n - i,
        {
            let ghost t = dest_dir@.subrange(i as int, n as int);
            assert(t.drop_first() =~= dest_dir@.subrange(i + 1, n as int));
            i = i + 1;
        }
        let ghost t = dest_dir@.subrange(i as int, n as int);
        let dest = dest_dir.substring_char(i, n).to_string();
        ChangeSet { source_dir: source_dir.to_string(), dest_dir: dest, items }
    }

    /// The number of changes.
    pub fn len(&self) -> (r: usize)
        ensures
            r == self.items_view().len(),
    {
        self.items.len()
    }

    /// The changes, in order.
    pub fn items(&self) -> (r: &Vec<Change>)
        ensures
            changes_view(r@) == self.items_view(),
    {
        &self.items
    }

    /// The directory the changes were found in.
    pub fn source_dir(&self) -> (r: &str)
        ensures
            r@ == self.source_view(),
    {
        self.source_dir.as_str()
    }

    /// The directory, relative to the image root, that the changes go to.
    pub fn dest_dir(&self) -> (r: &str)
        ensures
            r@ == self.dest_view(),
    {
        self.dest_dir.as_str()
    }
}

impl Snapshot {
    /// The changes from this snapshot to `other`: `Removed` for paths only here,
    /// `Modified` for paths whose entries differ, `Added` for paths only in `other`.
    pub fn diff(&self, other: &Snapshot) -> (r: ChangeSet)
        ensures
            r.source_view() == self.source_view(),
            r.dest_view() == strip_leading_slashes(self.dest_view()),
            r.items_view() == diff_entries(self.entries_view(), other.entries_view()),
    {
        let ghost a = self.entries_view();
        let ghost b = other.entries_view();
        let mut changes: Vec<Change> = Vec::new();
        let mut i: usize = 0;
        while i < self.entries.len()
            invariant
                a == self.entries_view(),
                b == other.entries_view(),
                i <= a.len(),
                changes_view(changes@) == modified_or_removed(a.subrange(0, i as int), b),
            decreases a.len() - i,
        {
            let ghost t = a.subrange(0, i + 1);
            assert(t.drop_last() =~= a.subrange(0, i as int));
            let path = &self.entries[i].0;
            let entry = self.entries[i].1;
            let ghost before = changes@;
            match other.get(path.as_str()) {
                Some(found) => {
                    if found != entry {
                        changes.push(Change::Modified(path.clone()));
                        assert(changes_view(changes@) =~= changes_view(before).push(
                            ChangeView::Modified(path@),
                        ));
                    } else {
                        assert(changes_view(changes@) =~= changes_view(before) + Seq::empty());
                    }
                },
                None => {
                    changes.push(Change::Removed(path.clone()));
                    assert(changes_view(changes@) =~= changes_view(before).push(
                        ChangeView::Removed(path@),
                    ));
                },
            }
            i = i + 1;
        }
        assert(a.subrange(0, a.len() as int) =~= a);
        let ghost first = changes_view(changes@);
        let mut j: usize = 0;
        while j < other.entries.len()
            invariant
                a == self.entries_view(),
                b == other.entries_view(),
                j <= b.len(),
                first == modified_or_removed(a, b),
                changes_view(changes@) == first + added(b.subrange(0, j as int), a),
            decreases b.len() - j,
        {
            let ghost t = b.subrange(0, j + 1);
            assert(t.drop_last() =~= b.subrange(0, j as int));
            let path = &other.entries[j].0;
            let ghost before = changes@;
            if !self.contains_key(path.as_str()) {
                changes.push(Change::Added(path.clone()));
                assert(changes_view(changes@) =~= changes_view(before).push(
                    ChangeView::Added(path@),
                ));
            } else {
                assert(changes_view(changes@) =~= changes_view(before) + Seq::empty());
            }
            j = j + 1;
        }
        assert(b.subrange(0, b.len() as int) =~= b);
        ChangeSet::new(self.source_dir.as_str(), self.dest_dir.as_str(), changes)
    }

    /// Every entry as `Added`: the change set of a layer that holds the whole directory.
    pub fn replicate(&self) -> (r: ChangeSet)
        ensures
            r.source_view() == self.source_view(),
            r.dest_view() == strip_leading_slashes(self.dest_view()),
            r.items_view() == all_added(self.entries_view()),
    {
        let ghost a = self.entries_view();
        let mut changes: Vec<Change> = Vec::new();
        let mut i: usize = 0;
        while i < self.entries.len()
            invariant
                a == self.entries_view(),
                i <= a.len(),
                changes_view(changes@) == all_added(a.subrange(0, i as int)),
            decreases a.len() - i,
        {
            let path = self.entries[i].0.clone();
            assert(path@ == a[i as int].0);
            let ghost before = changes@;
            changes.push(Change::Added(path));
            assert(changes_view(changes@) =~= changes_view(before).push(ChangeView::Added(a[i as int].0)));
            assert(all_added(a.subrange(0, i + 1)) =~= all_added(a.subrange(0, i as int)).push(ChangeView::Added(a[i as int].0)));
            i = i + 1;
        }
        assert(a.subrange(0, a.len() as int) =~= a);
        ChangeSet::new(self.source_dir.as_str(), self.dest_dir.as_str(), changes)
    }
}

proof fn lemma_modified_or_removed_concat(p: EntriesView, q: EntriesView, b: EntriesView)
    ensures
        modified_or_removed(p + q, b) == modified_or_removed(p, b) + modified_or_removed(q, b),
    decreases q.len(),
{
    if q.len() == 0 {
        assert(p + q =~= p);
        assert(modified_or_removed(p, b) + Seq::empty() =~= modified_or_removed(p, b));
    } else {
        assert((p + q).drop_last() =~= p + q.drop_last());
        lemma_modified_or_removed_concat(p, q.drop_last(), b);
        assert((p + q).last() == q.last());
        let tail = modified_or_removed(q, b).subrange(
            modified_or_removed(q.drop_last(), b).len() as int,
            modified_or_removed(q, b).len() as int,
        );
        assert(modified_or_removed(p, b) + modified_or_removed(q, b) =~= modified_or_removed(p, b)
            + modified_or_removed(q.drop_last(), b) + tail);
    }
}

proof fn lemma_added_concat(p: EntriesView, q: EntriesView, a: EntriesView)
    ensures
        added(p + q, a) == added(p, a) + added(q, a),
    decreases q.len(),
{
    if q.len() == 0 {
        assert(p + q =~= p);
        assert(added(p, a) + Seq::empty() =~= added(p, a));
    } else {
        assert((p + q).drop_last() =~= p + q.drop_last());
        lemma_added_concat(p, q.drop_last(), a);
        assert((p + q).last() == q.last());
        let tail = added(q, a).subrange(added(q.drop_last(), a).len() as int, added(q, a).len() as int);
        assert(added(p, a) + added(q, a) =~= added(p, a) + added(q.drop_last(), a) + tail);
    }
}

/// No change for entries that `b` records alike.
proof fn lemma_modified_or_removed_none(p: EntriesView, b: EntriesView)
    requires
        forall|j: int| 0 <= j < p.len() ==> lookup(b, #[trigger] p[j].0) == Some(p[j].1),
    ensures
        modified_or_removed(p, b) == Seq::<ChangeView>::empty(),
    decreases p.len(),
{
    if p.len() > 0 {
        let t = p.drop_last();
        assert forall|j: int| 0 <= j < t.len() implies lookup(b, #[trigger] t[j].0) == Some(t[j].1) by {
            assert(t[j] == p[j]);
        }
        lemma_modified_or_removed_none(t, b);
        assert(p.last() == p[p.len() - 1]);
        assert(modified_or_removed(p, b) =~= Seq::<ChangeView>::empty());
    }
}

/// No addition for paths that `a` records.
proof fn lemma_added_none(p: EntriesView, a: EntriesView)
    requires
        forall|j: int| 0 <= j < p.len() ==> lookup(a, #[trigger] p[j].0) is Some,
    ensures
        added(p, a) == Seq::<ChangeView>::empty(),
    decreases p.len(),
{
    if p.len() > 0 {
        let t = p.drop_last();
        assert forall|j: int| 0 <= j < t.len() implies lookup(a, #[trigger] t[j].0) is Some by {
            assert(t[j] == p[j]);
        }
        lemma_added_none(t, a);
        assert(p.last() == p[p.len() - 1]);
        assert(added(p, a) =~= Seq::<ChangeView>::empty());
    }
}

/// Every entry of `s` is what `s` records for its path.
proof fn lemma_lookup_all(s: EntriesView)
    requires
        keys_unique(s),
    ensures
        forall|j: int| 0 <= j < s.len() ==> lookup(s, #[trigger] s[j].0) == Some(s[j].1),
{
    assert forall|j: int| 0 <= j < s.len() implies lookup(s, #[trigger] s[j].0) == Some(s[j].1) by {
        lemma_lookup_at(s, j);
    }
}

/// A snapshot compared with itself has no changes.
pub proof fn lemma_diff_self(s: &Snapshot)
    requires
        s.wf(),
    ensures
        diff_entries(s.entries_view(), s.entries_view()) == Seq::<ChangeView>::empty(),
{
    let a = s.entries_view();
    lemma_lookup_all(a);
    lemma_modified_or_removed_none(a, a);
    lemma_added_none(a, a);
    assert(diff_entries(a, a) =~= Seq::<ChangeView>::empty());
}

/// Recording a path that a snapshot lacks gives exactly one change, `Added` for it.
pub proof fn lemma_diff_added(a: EntriesView, k: Seq<char>, e: SnapshotEntry)
    requires
        keys_unique(a),
        lookup(a, k) is None,
    ensures
        diff_entries(a, with_entry(a, k, e)) == seq![ChangeView::Added(k)],
{
    lemma_key_index(a, k);
    let b = with_entry(a, k, e);
    assert(b == a.push((k, e)));
    assert(keys_unique(b));
    lemma_lookup_all(b);
    assert forall|j: int| 0 <= j < a.len() implies lookup(b, #[trigger] a[j].0) == Some(a[j].1) by {
        assert(b[j] == a[j]);
    }
    lemma_modified_or_removed_none(a, b);
    lemma_lookup_all(a);
    lemma_added_none(a, a);
    assert(b.drop_last() =~= a);
    assert(added(b, a) =~= added(a, a) + seq![ChangeView::Added(k)]);
    assert(diff_entries(a, b) =~= seq![ChangeView::Added(k)]);
}

/// Forgetting a recorded path gives exactly one change, `Removed` for it.
pub proof fn lemma_diff_removed(a: EntriesView, k: Seq<char>)
    requires
        keys_unique(a),
        lookup(a, k) is Some,
    ensures
        diff_entries(a, without_key(a, k)) == seq![ChangeView::Removed(k)],
{
    lemma_key_index(a, k);
    let i = key_index(a, k);
    let b = without_key(a, k);
    assert(b == a.remove(i));
    assert(keys_unique(b));
    lemma_lookup_all(b);
    lemma_key_index(b, k);
    assert forall|j: int| 0 <= j < b.len() implies b[j].0 != k by {
        if j < i {
            assert(b[j] == a[j]);
        } else {
            assert(b[j] == a[j + 1]);
        }
    }
    let pre = a.subrange(0, i);
    let mid = a.subrange(i, i + 1);
    let post = a.subrange(i + 1, a.len() as int);
    assert(a =~= pre + mid + post);
    assert forall|j: int| 0 <= j < pre.len() implies lookup(b, #[trigger] pre[j].0) == Some(pre[j].1) by {
        assert(b[j] == a[j]);
    }
    assert forall|j: int| 0 <= j < post.len() implies lookup(b, #[trigger] post[j].0) == Some(post[j].1) by {
        assert(b[i + j] == a[i + 1 + j]);
    }
    lemma_modified_or_removed_none(pre, b);
    lemma_modified_or_removed_none(post, b);
    lemma_modified_or_removed_concat(pre + mid, post, b);
    lemma_modified_or_removed_concat(pre, mid, b);
    assert(mid.drop_last() =~= Seq::<(Seq<char>, SnapshotEntry)>::empty());
    assert(mid.last() == a[i]);
    assert(modified_or_removed(mid.drop_last(), b) == Seq::<ChangeView>::empty());
    assert(lookup(b, k) is None);
    assert(modified_or_removed(mid, b) =~= seq![ChangeView::Removed(k)]);
    lemma_lookup_all(a);
    assert forall|j: int| 0 <= j < b.len() implies lookup(a, #[trigger] b[j].0) is Some by {
        if j < i {
            assert(b[j] == a[j]);
        } else {
            assert(b[j] == a[j + 1]);
        }
    }
    lemma_added_none(b, a);
    assert(diff_entries(a, b) =~= seq![ChangeView::Removed(k)]);
}

/// Recording another entry for a recorded path gives exactly one change, `Modified` for it.
pub proof fn lemma_diff_modified(a: EntriesView, k: Seq<char>, e: SnapshotEntry)
    requires
        keys_unique(a),
        lookup(a, k) is Some,
        lookup(a, k) != Some(e),
    ensures
        diff_entries(a, with_entry(a, k, e)) == seq![ChangeView::Modified(k)],
{
    lemma_key_index(a, k);
    let i = key_index(a, k);
    let b = with_entry(a, k, e);
    assert(b == a.update(i, (k, e)));
    assert(keys_unique(b));
    lemma_lookup_all(b);
    lemma_lookup_at(b, i);
    let pre = a.subrange(0, i);
    let mid = a.subrange(i, i + 1);
    let post = a.subrange(i + 1, a.len() as int);
    assert(a =~= pre + mid + post);
    assert forall|j: int| 0 <= j < pre.len() implies lookup(b, #[trigger] pre[j].0) == Some(pre[j].1) by {
        assert(b[j] == a[j]);
    }
    assert forall|j: int| 0 <= j < post.len() implies lookup(b, #[trigger] post[j].0) == Some(post[j].1) by {
        assert(b[i + 1 + j] == a[i + 1 + j]);
    }
    lemma_modified_or_removed_none(pre, b);
    lemma_modified_or_removed_none(post, b);
    lemma_modified_or_removed_concat(pre + mid, post, b);
    lemma_modified_or_removed_concat(pre, mid, b);
    assert(mid.drop_last() =~= Seq::<(Seq<char>, SnapshotEntry)>::empty());
    assert(mid.last() == a[i]);
    assert(modified_or_removed(mid.drop_last(), b) == Seq::<ChangeView>::empty());
    assert(lookup(b, k) == Some(e));
    assert(lookup(a, k) == Some(a[i].1));
    assert(modified_or_removed(mid, b) =~= seq![ChangeView::Modified(k)]);
    lemma_lookup_all(a);
    assert forall|j: int| 0 <= j < b.len() implies lookup(a, #[trigger] b[j].0) is Some by {
        assert(b[j].0 == a[j].0);
    }
    lemma_added_none(b, a);
    assert(diff_entries(a, b) =~= seq![ChangeView::Modified(k)]);
}

/// The ignore file looked for first in a source directory.
pub const DOCKER_IGNORE: &'static str = ".dockerignore";

/// The ignore file looked for where there is no `.dockerignore`.
pub const CONTAINER_IGNORE: &'static str = ".containerignore";

/// The ignore file a snapshot applies: `.dockerignore` where it exists, else
/// `.containerignore` where that exists; the two are never merged.
pub fn ignore_file(docker_exists: bool, container_exists: bool) -> (r: Option<&'static str>)
    ensures
        match r {
            Some(name) => if docker_exists {
                name@ == DOCKER_IGNORE@
            } else {
                container_exists && name@ == CONTAINER_IGNORE@
            },
            None => !docker_exists && !container_exists,
        },
{
    if docker_exists {
        Some(DOCKER_IGNORE)
    } else if container_exists {
        Some(CONTAINER_IGNORE)
    } else {
        None
    }
}

proof fn lemma_contains_concat(x: Seq<ChangeView>, y: Seq<ChangeView>, c: ChangeView)
    ensures
        (x + y).contains(c) == (x.contains(c) || y.contains(c)),
{
    if (x + y).contains(c) {
        let i = choose|i: int| 0 <= i < (x + y).len() && (x + y)[i] == c;
        if i < x.len() {
            assert(x[i] == c);
        } else {
            assert(y[i - x.len()] == c);
        }
    }
    if x.contains(c) {
        let i = choose|i: int| 0 <= i < x.len() && x[i] == c;
        assert((x + y)[i] == c);
    }
    if y.contains(c) {
        let i = choose|i: int| 0 <= i < y.len() && y[i] == c;
        assert((x + y)[x.len() + i] == c);
    }
}

/// One step of `lookup` over a list with a last entry.
proof fn lemma_lookup_last(p: EntriesView, k: Seq<char>)
    requires
        p.len() > 0,
        keys_unique(p),
    ensures
        keys_unique(p.drop_last()),
        lookup(p, k) == if p.last().0 == k {
            Some(p.last().1)
        } else {
            lookup(p.drop_last(), k)
        },
        lookup(p.drop_last(), p.last().0) is None,
{
    let t = p.drop_last();
    assert forall|j: int| 0 <= j < t.len() implies t[j] == p[j] by {}
    lemma_key_index(t, p.last().0);
    lemma_key_index(t, k);
}

/// Which changes `modified_or_removed` holds, path by path.
proof fn lemma_modified_or_removed_members(p: EntriesView, b: EntriesView)
    requires
        keys_unique(p),
    ensures
        forall|k: Seq<char>|
            #[trigger] modified_or_removed(p, b).contains(ChangeView::Removed(k)) <==> (lookup(p, k) is Some
                && lookup(b, k) is None),
        forall|k: Seq<char>|
            #[trigger] modified_or_removed(p, b).contains(ChangeView::Modified(k)) <==> (lookup(p, k) is Some
                && lookup(b, k) is Some && lookup(b, k) != lookup(p, k)),
        forall|k: Seq<char>| !(#[trigger] modified_or_removed(p, b).contains(ChangeView::Added(k))),
    decreases p.len(),
{
    if p.len() == 0 {
        assert forall|k: Seq<char>| lookup(p, k) is None by {
            lemma_key_index(p, k);
        }
    } else {
        let t = p.drop_last();
        let (k0, e0) = p.last();
        lemma_lookup_last(p, k0);
        lemma_modified_or_removed_members(t, b);
        let head = modified_or_removed(t, b);
        let tail = match lookup(b, k0) {
            Some(f) => if f == e0 {
                Seq::<ChangeView>::empty()
            } else {
                seq![ChangeView::Modified(k0)]
            },
            None => seq![ChangeView::Removed(k0)],
        };
        assert(modified_or_removed(p, b) == head + tail);
        assert forall|k: Seq<char>|
            #[trigger] modified_or_removed(p, b).contains(ChangeView::Removed(k)) <==> (lookup(p, k) is Some
                && lookup(b, k) is None) by {
            lemma_lookup_last(p, k);
            lemma_contains_concat(head, tail, ChangeView::Removed(k));
            if tail.contains(ChangeView::Removed(k)) {
                assert(tail[0] == ChangeView::Removed(k));
            }
        }
        assert forall|k: Seq<char>|
            #[trigger] modified_or_removed(p, b).contains(ChangeView::Modified(k)) <==> (lookup(p, k) is Some
                && lookup(b, k) is Some && lookup(b, k) != lookup(p, k)) by {
            lemma_lookup_last(p, k);
            lemma_contains_concat(head, tail, ChangeView::Modified(k));
            if tail.contains(ChangeView::Modified(k)) {
                assert(tail[0] == ChangeView::Modified(k));
            }
            if k == k0 && lookup(b, k) is Some && lookup(b, k) != lookup(p, k) {
                assert(tail[0] == ChangeView::Modified(k));
            }
        }
        assert forall|k: Seq<char>| !(#[trigger] modified_or_removed(p, b).contains(ChangeView::Added(k))) by {
            lemma_contains_concat(head, tail, ChangeView::Added(k));
            if tail.contains(ChangeView::Added(k)) {
                assert(tail[0] == ChangeView::Added(k));
            }
        }
    }
}

/// Which changes `added` holds, path by path.
proof fn lemma_added_members(q: EntriesView, a: EntriesView)
    requires
        keys_unique(q),
    ensures
        forall|k: Seq<char>|
            #[trigger] added(q, a).contains(ChangeView::Added(k)) <==> (lookup(q, k) is Some && lookup(
                a,
                k,
            ) is None),
        forall|k: Seq<char>| !(#[trigger] added(q, a).contains(ChangeView::Removed(k))),
        forall|k: Seq<char>| !(#[trigger] added(q, a).contains(ChangeView::Modified(k))),
    decreases q.len(),
{
    if q.len() == 0 {
        assert forall|k: Seq<char>| lookup(q, k) is None by {
            lemma_key_index(q, k);
        }
    } else {
        let t = q.drop_last();
        let k0 = q.last().0;
        lemma_lookup_last(q, k0);
        lemma_added_members(t, a);
        let head = added(t, a);
        let tail = if lookup(a, k0) is None {
            seq![ChangeView::Added(k0)]
        } else {
            Seq::<ChangeView>::empty()
        };
        assert(added(q, a) == head + tail);
        assert forall|k: Seq<char>|
            #[trigger] added(q, a).contains(ChangeView::Added(k)) <==> (lookup(q, k) is Some && lookup(
                a,
                k,
            ) is None) by {
            lemma_lookup_last(q, k);
            lemma_contains_concat(head, tail, ChangeView::Added(k));
            if tail.contains(ChangeView::Added(k)) {
                assert(tail[0] == ChangeView::Added(k));
            }
        }
        assert forall|k: Seq<char>| !(#[trigger] added(q, a).contains(ChangeView::Removed(k))) by {
            lemma_contains_concat(head, tail, ChangeView::Removed(k));
            if tail.contains(ChangeView::Removed(k)) {
                assert(tail[0] == ChangeView::Removed(k));
            }
        }
        assert forall|k: Seq<char>| !(#[trigger] added(q, a).contains(ChangeView::Modified(k))) by {
            lemma_contains_concat(head, tail, ChangeView::Modified(k));
            if tail.contains(ChangeView::Modified(k)) {
                assert(tail[0] == ChangeView::Modified(k));
            }
        }
    }
}

/// The diff of two snapshots is comprehensive: a path is `Removed` exactly when only the
/// first records it, `Modified` exactly when both record it with different entries, and
/// `Added` exactly when only the second records it.
pub proof fn lemma_diff_members(a: EntriesView, b: EntriesView)
    requires
        keys_unique(a),
        keys_unique(b),
    ensures
        forall|k: Seq<char>|
            #[trigger] diff_entries(a, b).contains(ChangeView::Removed(k)) <==> (lookup(a, k) is Some
                && lookup(b, k) is None),
        forall|k: Seq<char>|
            #[trigger] diff_entries(a, b).contains(ChangeView::Modified(k)) <==> (lookup(a, k) is Some
                && lookup(b, k) is Some && lookup(a, k) != lookup(b, k)),
        forall|k: Seq<char>|
            #[trigger] diff_entries(a, b).contains(ChangeView::Added(k)) <==> (lookup(a, k) is None
                && lookup(b, k) is Some),
{
    lemma_modified_or_removed_members(a, b);
    lemma_added_members(b, a);
    assert forall|k: Seq<char>|
        #[trigger] diff_entries(a, b).contains(ChangeView::Removed(k)) <==> (lookup(a, k) is Some
            && lookup(b, k) is None) by {
        lemma_contains_concat(modified_or_removed(a, b), added(b, a), ChangeView::Removed(k));
    }
    assert forall|k: Seq<char>|
        #[trigger] diff_entries(a, b).contains(ChangeView::Modified(k)) <==> (lookup(a, k) is Some
            && lookup(b, k) is Some && lookup(a, k) != lookup(b, k)) by {
        lemma_contains_concat(modified_or_removed(a, b), added(b, a), ChangeView::Modified(k));
    }
    assert forall|k: Seq<char>|
        #[trigger] diff_entries(a, b).contains(ChangeView::Added(k)) <==> (lookup(a, k) is None
            && lookup(b, k) is Some) by {
        lemma_contains_concat(modified_or_removed(a, b), added(b, a), ChangeView::Added(k));
    }
}

} // verus!
