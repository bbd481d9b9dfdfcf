//! An image under construction: its references, directories and formats, and the
//! decisions of writing it as an OCI image layout.
use vstd::prelude::*;
use vstd::string::StringSliceAdditionalSpecFns;

use crate::blob::{hex_of_sha, media_type_name, str_sha256_hex, Descriptor, MediaType};
use crate::layer::EMPTY_DIFF_ID;
use crate::reference::{parse_reference, tag_or_latest_string, ImageReference, ReferenceView};
use crate::snapshot::{all_added, diff_entries, ChangeSet, Snapshot};
use crate::text::{join, join_path, last_index, lemma_last_index, rfind_char, str_eq};

verus! {

/// The base image where none is given and the environment names none.
pub const DEFAULT_BASE: &'static str = "stencila/stencila:nano";

/// The repository name of an image whose working directory has no name.
pub const UNNAMED: &'static str = "unnamed";

/// How many hex digits of the working directory's hash name an image.
pub const HASH_DIGITS: usize = 12;

/// The directory, in every image, that the working directory becomes.
pub const WORKSPACE_DIR: &'static str = "/workspace";

/// The directory, in every image, under which buildpack layers lie.
pub const LAYERS_ROOT: &'static str = "/layers";

/// The marker file of an image layout, and its content.
pub const LAYOUT_MARKER_FILE: &'static str = "oci-layout";
pub const LAYOUT_MARKER: &'static str = "{\"imageLayoutVersion\": \"1.0.0\"}";

/// The index file of an image layout.
pub const INDEX_FILE: &'static str = "index.json";

/// The media type of a Docker v2 schema 2 manifest.
pub const DOCKER_MANIFEST: &'static str = "application/vnd.docker.distribution.manifest.v2+json";

/// Why an image could not be set up.
#[derive(Debug, Clone, Copy, PartialEq, Eq, Structural)]
pub enum ImageError {
    UnknownLayerFormat,
    UnknownManifestFormat,
}

pub open spec fn opt_str_view(o: Option<&str>) -> Option<Seq<char>> {
    match o {
        Some(s) => Some(s@),
        None => None,
    }
}

/// The media type of layers for a format name: gzip unless `tar+zstd`/`tzs` or `tar`.
pub open spec fn layer_format_of(f: Option<Seq<char>>) -> Option<MediaType> {
    match f {
        None => Some(MediaType::ImageLayerGzip),
        Some(s) => if s == "tar+gzip"@ || s == "tgz"@ {
            Some(MediaType::ImageLayerGzip)
        } else if s == "tar+zstd"@ || s == "tzs"@ {
            Some(MediaType::ImageLayerZstd)
        } else if s == "tar"@ {
            Some(MediaType::ImageLayer)
        } else {
            None
        },
    }
}

/// The manifest media type for a format name: OCI unless `v2s2`.
pub open spec fn manifest_format_of(f: Option<Seq<char>>) -> Option<Seq<char>> {
    match f {
        None => Some(media_type_name(MediaType::ImageManifest)),
        Some(s) => if s == "oci"@ {
            Some(media_type_name(MediaType::ImageManifest))
        } else if s == "v2s2"@ {
            Some(DOCKER_MANIFEST@)
        } else {
            None
        },
    }
}

/// The media type of layers for a format name.
pub fn layer_format(f: Option<&str>) -> (r: Result<MediaType, ImageError>)
    ensures
        match r {
            Ok(m) => layer_format_of(opt_str_view(f)) == Some(m),
            Err(e) => layer_format_of(opt_str_view(f)) is None && e == ImageError::UnknownLayerFormat,
        },
{
    match f {
        None => Ok(MediaType::ImageLayerGzip),
        Some(s) => if str_eq(s, "tar+gzip") || str_eq(s, "tgz") {
            Ok(MediaType::ImageLayerGzip)
        } else if str_eq(s, "tar+zstd") || str_eq(s, "tzs") {
            Ok(MediaType::ImageLayerZstd)
        } else if str_eq(s, "tar") {
            Ok(MediaType::ImageLayer)
        } else {
            Err(ImageError::UnknownLayerFormat)
        },
    }
}

/// The manifest media type for a format name.
pub fn manifest_format(f: Option<&str>) -> (r: Result<String, ImageError>)
    ensures
        match r {
            Ok(m) => manifest_format_of(opt_str_view(f)) == Some(m@),
            Err(e) => manifest_format_of(opt_str_view(f)) is None && e
                == ImageError::UnknownManifestFormat,
        },
{
    match f {
        None => Ok(MediaType::ImageManifest.as_str().to_string()),
        Some(s) => if str_eq(s, "oci") {
            Ok(MediaType::ImageManifest.as_str().to_string())
        } else if str_eq(s, "v2s2") {
            Ok(String::from_str(DOCKER_MANIFEST))
        } else {
            Err(ImageError::UnknownManifestFormat)
        },
    }
}

/// The name of a directory: the last component of its path, ignoring trailing slashes;
/// `unnamed` where that is empty or `..`.
pub open spec fn dir_name(d: Seq<char>) -> Seq<char> {
    let t = trim_trailing_slashes(d);
    let i = last_index(t, '/');
    let base = if i >= 0 {
        t.subrange(i + 1, t.len() as int)
    } else {
        t
    };
    if base.len() == 0 || base == ".."@ {
        UNNAMED@
    } else {
        base
    }
}

pub open spec fn trim_trailing_slashes(s: Seq<char>) -> Seq<char>
    decreases s.len(),
{
    if s.len() > 0 && s.last() == '/' {
        trim_trailing_slashes(s.drop_last())
    } else {
        s
    }
}

/// At most the first `n` elements.
pub open spec fn first_n(s: Seq<char>, n: int) -> Seq<char> {
    if s.len() <= n {
        s
    } else {
        s.subrange(0, n)
    }
}

/// The reference of an image given none: on the default registry, named after its
/// working directory and the first hex digits of the SHA-256 of that directory's path
/// (with no working directory: `unnamed` and the given unique string).
pub open spec fn default_reference(working_dir: Option<Seq<char>>, working_dir_bytes: Seq<u8>, unique: Seq<char>) -> ReferenceView {
    let name = match working_dir {
        Some(d) => dir_name(d),
        None => UNNAMED@,
    };
    let hash = match working_dir {
        Some(_) => hex_of_sha(working_dir_bytes),
        None => unique,
    };
    ReferenceView {
        registry: crate::reference::DOCKER_REGISTRY@,
        repository: name + "-"@ + first_n(hash, HASH_DIGITS as int),
        tag: None,
        digest: None,
    }
}

fn trim_slashes(s: &str) -> (r: &str)
    ensures
        r@ == trim_trailing_slashes(s@),
{
    let mut n = s.unicode_len();
    assert(s@.subrange(0, n as int) =~= s@);
    while n > 0 && s.get_char(n - 1) == '/'
        invariant
            n <= s@.len(),
            trim_trailing_slashes(s@) == trim_trailing_slashes(s@.subrange(0, n as int)),
        decreases n,
    {
        assert(s@.subrange(0, n as int).drop_last() =~= s@.subrange(0, n - 1));
        n = n - 1;
    }
    s.substring_char(0, n)
}

fn dir_name_of(d: &str) -> (r: String)
    ensures
        r@ == dir_name(d@),
{
    let t = trim_slashes(d);
    let n = t.unicode_len();
    proof {
        lemma_last_index(t@, '/');
    }
    let base = match rfind_char(t, '/') {
        Some(i) => t.substring_char(i + 1, n),
        None => t,
    };
    if base.unicode_len() == 0 || str_eq(base, "..") {
        String::from_str(UNNAMED)
    } else {
        base.to_string()
    }
}

fn prefix_of(s: &str, n: usize) -> (r: &str)
    ensures
        r@ == first_n(s@, n as int),
{
    let len = s.unicode_len();
    if len <= n {
        s
    } else {
        s.substring_char(0, n)
    }
}

/// The reference of an image given none.
pub fn default_reference_for(working_dir: Option<&str>, unique: &str) -> (r: ImageReference)
    ensures
        r@ == default_reference(
            opt_str_view(working_dir),
            match working_dir {
                Some(d) => d.spec_bytes(),
                None => Seq::empty(),
            },
            unique@,
        ),
{
    let (name, hash) = match working_dir {
        Some(d) => (dir_name_of(d), str_sha256_hex(d)),
        None => (String::from_str(UNNAMED), unique.to_string()),
    };
    let mut repository = name;
    repository.append("-");
    repository.append(prefix_of(hash.as_str(), HASH_DIGITS));
    ImageReference {
        registry: String::from_str(crate::reference::DOCKER_REGISTRY),
        repository,
        tag: None,
        digest: None,
    }
}

/// A container image to be built from a working directory and buildpack layers.
#[derive(Debug)]
pub struct Image {
    working_dir: Option<String>,
    reference: ImageReference,
    base: ImageReference,
    layers_dir: String,
    layer_diffs: bool,
    layer_format: MediaType,
    layer_snapshots: Vec<Snapshot>,
    layout_dir: String,
    layout_complete: bool,
    manifest_format: String,
}

/// The settings an image is made from; each `None` takes its default.
pub struct ImageOptions<'a> {
    /// The directory whose content becomes `/workspace`.
    pub working_dir: Option<&'a str>,
    /// The image's own reference.
    pub reference: Option<&'a str>,
    /// The reference of the base image.
    pub base: Option<&'a str>,
    /// The base to use where `base` is `None`, as configured in the environment.
    pub base_default: Option<&'a str>,
    /// Whether layers are the differences of snapshots (else whole copies).
    pub layer_diffs: Option<bool>,
    /// `tar`, `tar+gzip` (or `tgz`), or `tar+zstd` (or `tzs`).
    pub layer_format: Option<&'a str>,
    /// Whether the layout also holds the base image's layers.
    pub layout_complete: bool,
    /// `oci` or `v2s2`.
    pub manifest_format: Option<&'a str>,
    /// A unique string to name an image that has no working directory.
    pub unique: &'a str,
}

/// The reference of the base image: the one given, else the configured default, else
/// `stencila/stencila:nano`.
pub open spec fn base_reference(base: Option<Seq<char>>, base_default: Option<Seq<char>>) -> ReferenceView {
    match base {
        Some(b) => parse_reference(b),
        None => match base_default {
            Some(b) => parse_reference(b),
            None => parse_reference(DEFAULT_BASE@),
        },
    }
}

impl Image {
    pub closed spec fn working_dir_view(&self) -> Option<Seq<char>> {
        crate::reference::opt_view(self.working_dir)
    }

    pub closed spec fn reference_view(&self) -> ReferenceView {
        self.reference@
    }

    pub closed spec fn base_view(&self) -> ReferenceView {
        self.base@
    }

    pub closed spec fn layers_dir_view(&self) -> Seq<char> {
        self.layers_dir@
    }

    pub closed spec fn layout_dir_view(&self) -> Seq<char> {
        self.layout_dir@
    }

    pub closed spec fn spec_layer_diffs(&self) -> bool {
        self.layer_diffs
    }

    pub closed spec fn spec_layer_format(&self) -> MediaType {
        self.layer_format
    }

    pub closed spec fn spec_layout_complete(&self) -> bool {
        self.layout_complete
    }

    pub closed spec fn manifest_format_view(&self) -> Seq<char> {
        self.manifest_format@
    }

    pub closed spec fn snapshots_view(&self) -> Seq<Snapshot> {
        self.layer_snapshots@
    }

    /// An image from its settings, the directory holding its buildpack layers, the
    /// directory to write its layout to, and the snapshots of its layer directories (the
    /// working directory's first, then one per layer directory).
    ///
    /// Fails where the layer format or the manifest format is unknown.
    pub fn new(
        options: ImageOptions,
        layers_dir: String,
        layout_dir: String,
        layer_snapshots: Vec<Snapshot>,
    ) -> (r: Result<Image, ImageError>)
        ensures
            match r {
                Ok(image) => {
                    &&& layer_format_of(opt_str_view(options.layer_format)) == Some(
                        image.spec_layer_format(),
                    )
                    &&& manifest_format_of(opt_str_view(options.manifest_format)) == Some(
                        image.manifest_format_view(),
                    )
                    &&& image.reference_view() == match options.reference {
                        Some(s) => parse_reference(s@),
                        None => default_reference(
                            opt_str_view(options.working_dir),
                            match options.working_dir {
                                Some(d) => d.spec_bytes(),
                                None => Seq::empty(),
                            },
                            options.unique@,
                        ),
                    }
                    &&& image.base_view() == base_reference(
                        opt_str_view(options.base),
                        opt_str_view(options.base_default),
                    )
                    &&& image.working_dir_view() == opt_str_view(options.working_dir)
                    &&& image.layers_dir_view() == layers_dir@
                    &&& image.layout_dir_view() == layout_dir@
                    &&& image.spec_layer_diffs() == match options.layer_diffs {
                        Some(d) => d,
                        None => true,
                    }
                    &&& image.spec_layout_complete() == options.layout_complete
                    &&& image.snapshots_view() == layer_snapshots@
                },
                Err(e) => if layer_format_of(opt_str_view(options.layer_format)) is None {
                    e == ImageError::UnknownLayerFormat
                } else {
                    manifest_format_of(opt_str_view(options.manifest_format)) is None && e
                        == ImageError::UnknownManifestFormat
                },
            },
    {
        let reference = match options.reference {
            Some(s) => ImageReference::parse(s),
            None => default_reference_for(options.working_dir, options.unique),
        };
        let base = match options.base {
            Some(b) => ImageReference::parse(b),
            None => match options.base_default {
                Some(b) => ImageReference::parse(b),
                None => ImageReference::parse(DEFAULT_BASE),
            },
        };
        let layer_format = match layer_format(options.layer_format) {
            Ok(m) => m,
            Err(e) => {
                return Err(e);
            },
        };
        let manifest_format = match manifest_format(options.manifest_format) {
            Ok(m) => m,
            Err(e) => {
                return Err(e);
            },
        };
        let working_dir = match options.working_dir {
            Some(d) => Some(d.to_string()),
            None => None,
        };
        Ok(Image {
            working_dir,
            reference,
            base,
            layers_dir,
            layer_diffs: match options.layer_diffs {
                Some(d) => d,
                None => true,
            },
            layer_format,
            layer_snapshots,
            layout_dir,
            layout_complete: options.layout_complete,
            manifest_format,
        })
    }

    /// The image's reference.
    pub fn reference(&self) -> (r: &ImageReference)
        ensures
            r@ == self.reference_view(),
    {
        &self.reference
    }

    /// The reference of the image's base.
    pub fn base(&self) -> (r: &ImageReference)
        ensures
            r@ == self.base_view(),
    {
        &self.base
    }

    /// The directory the image's layout is written to.
    pub fn layout_dir(&self) -> (r: &str)
        ensures
            r@ == self.layout_dir_view(),
    {
        self.layout_dir.as_str()
    }

    /// The working directory, if any.
    pub fn working_dir(&self) -> (r: Option<&str>)
        ensures
            opt_str_view(r) == self.working_dir_view(),
    {
        match &self.working_dir {
            Some(d) => Some(d.as_str()),
            None => None,
        }
    }

    /// The directory holding the buildpack layers.
    pub fn layers_dir(&self) -> (r: &str)
        ensures
            r@ == self.layers_dir_view(),
    {
        self.layers_dir.as_str()
    }

    /// Whether layers are differences of snapshots rather than whole copies.
    pub fn layer_diffs(&self) -> (r: bool)
        ensures
            r == self.spec_layer_diffs(),
    {
        self.layer_diffs
    }

    /// The media type that layers are written in.
    pub fn layer_format(&self) -> (r: MediaType)
        ensures
            r == self.spec_layer_format(),
    {
        self.layer_format
    }

    /// Whether the layout also holds the base image's layers.
    pub fn layout_complete(&self) -> (r: bool)
        ensures
            r == self.spec_layout_complete(),
    {
        self.layout_complete
    }

    /// The media type of the manifest.
    pub fn manifest_format(&self) -> (r: &str)
        ensures
            r@ == self.manifest_format_view(),
    {
        self.manifest_format.as_str()
    }

    /// The snapshots of the layer directories, in the order their layers are written.
    pub fn layer_snapshots(&self) -> (r: &Vec<Snapshot>)
        ensures
            r@ == self.snapshots_view(),
    {
        &self.layer_snapshots
    }

    /// Records the digests that writing the index produced: the manifest's as this image's,
    /// and the one the base resolved to as the base's.
    pub fn record_digests(&mut self, base_digest: String, manifest_digest: String)
        ensures
            final(self).reference_view() == (ReferenceView {
                digest: Some(manifest_digest@),
                ..old(self).reference_view()
            }),
            final(self).base_view() == (ReferenceView {
                digest: Some(base_digest@),
                ..old(self).base_view()
            }),
            final(self).layout_dir_view() == old(self).layout_dir_view(),
            final(self).snapshots_view() == old(self).snapshots_view(),
            final(self).working_dir_view() == old(self).working_dir_view(),
            final(self).layers_dir_view() == old(self).layers_dir_view(),
    {
        self.base.digest = Some(base_digest);
        self.reference.digest = Some(manifest_digest);
    }

    /// The annotations of the image index: this image's name, when it was created, and
    /// the base image's name and digest.
    pub fn index_annotations(&self, created: &str, base_digest: &str) -> (r: Vec<(String, String)>)
        ensures
            crate::layer::pairs_view(r@) == seq![
                (REF_NAME_ANNOTATION@, tag_or_latest_string(self.reference_view())),
                (CREATED_ANNOTATION@, created@),
                (BASE_NAME_ANNOTATION@, tag_or_latest_string(self.base_view())),
                (BASE_DIGEST_ANNOTATION@, base_digest@),
            ],
    {
        let mut out: Vec<(String, String)> = Vec::new();
        out.push((String::from_str(REF_NAME_ANNOTATION), self.reference.to_string_tag_or_latest()));
        out.push((String::from_str(CREATED_ANNOTATION), created.to_string()));
        out.push((String::from_str(BASE_NAME_ANNOTATION), self.base.to_string_tag_or_latest()));
        out.push((String::from_str(BASE_DIGEST_ANNOTATION), base_digest.to_string()));
        assert(crate::layer::pairs_view(out@) =~= seq![
            (REF_NAME_ANNOTATION@, tag_or_latest_string(self.reference_view())),
            (CREATED_ANNOTATION@, created@),
            (BASE_NAME_ANNOTATION@, tag_or_latest_string(self.base_view())),
            (BASE_DIGEST_ANNOTATION@, base_digest@),
        ]);
        out
    }
}

pub const REF_NAME_ANNOTATION: &'static str = "org.opencontainers.image.ref.name";
pub const CREATED_ANNOTATION: &'static str = "org.opencontainers.image.created";
pub const BASE_NAME_ANNOTATION: &'static str = "org.opencontainers.image.base.name";
pub const BASE_DIGEST_ANNOTATION: &'static str = "org.opencontainers.image.base.digest";

/// One entry of an image's history.
#[derive(Debug)]
pub struct History {
    pub created: String,
    pub created_by: String,
    pub comment: String,
}

impl History {
    /// The history entry of a layer made from `source_dir` by the command with arguments
    /// `args`: created by `stencila <args>`, commented `Layer for directory <source_dir>`.
    pub fn for_layer(created: &str, args: &Vec<String>, source_dir: &str) -> (r: History)
        ensures
            r.created@ == created@,
            r.created_by@ == "stencila "@ + crate::text::joined(crate::text::strings_view(args@), " "@),
            r.comment@ == "Layer for directory "@ + source_dir@,
    {
        let mut created_by = String::from_str("stencila ");
        let all = crate::text::join_first(args, args.len(), " ");
        assert(crate::text::strings_view(args@).take(args@.len() as int) =~= crate::text::strings_view(args@));
        created_by.append(all.as_str());
        let mut comment = String::from_str("Layer for directory ");
        comment.append(source_dir);
        History { created: created.to_string(), created_by, comment }
    }
}

/// The layers that writing an image adds to its base's, in order.
#[derive(Debug)]
pub struct LayerStack {
    pub layers: Vec<Descriptor>,
    pub diff_ids: Vec<String>,
    pub history: Vec<History>,
}

impl LayerStack {
    /// No layers yet.
    pub fn new() -> (r: LayerStack)
        ensures
            r.layers@.len() == 0,
            r.diff_ids@.len() == 0,
            r.history@.len() == 0,
    {
        LayerStack { layers: Vec::new(), diff_ids: Vec::new(), history: Vec::new() }
    }

    /// Adds a written layer with its history entry; an empty layer (diff ID `<empty>`)
    /// adds nothing.
    pub fn push(&mut self, diff_id: String, layer: Descriptor, history: History) -> (added: bool)
        ensures
            added == (diff_id@ != EMPTY_DIFF_ID@),
            added ==> final(self).layers@ == old(self).layers@.push(layer) && final(self).diff_ids@
                == old(self).diff_ids@.push(diff_id) && final(self).history@ == old(
                self,
            ).history@.push(history),
            !added ==> *final(self) == *old(self),
    {
        if str_eq(diff_id.as_str(), EMPTY_DIFF_ID) {
            return false;
        }
        self.layers.push(layer);
        self.diff_ids.push(diff_id);
        self.history.push(history);
        true
    }
}

impl Snapshot {
    /// The changes a layer for this snapshot holds, given a snapshot of the same directory
    /// taken now: the difference where `diff` is set, else everything now present.
    pub fn layer_changes(&self, now: &Snapshot, diff: bool) -> (r: ChangeSet)
        ensures
            r.items_view() == if diff {
                diff_entries(self.entries_view(), now.entries_view())
            } else {
                all_added(now.entries_view())
            },
            r.source_view() == if diff {
                self.source_view()
            } else {
                now.source_view()
            },
    {
        if diff {
            self.diff(now)
        } else {
            now.replicate()
        }
    }
}

/// Where buildpack layers go when no directory is given: `/layers` where it exists, else
/// `.stencila/layers` in the working directory (which must then be created), else a
/// uniquely named directory in the temporary directory.
pub open spec fn default_layers_dir(
    layers_root_exists: bool,
    working_dir: Option<Seq<char>>,
    temp_dir: Seq<char>,
    unique: Seq<char>,
) -> (Seq<char>, bool) {
    if layers_root_exists {
        (LAYERS_ROOT@, false)
    } else {
        match working_dir {
            Some(d) => (join_path(join_path(d, ".stencila"@), "layers"@), true),
            None => (join_path(temp_dir, "stencila-"@ + unique), false),
        }
    }
}

/// The directory for buildpack layers where none is given, and whether it is to be created.
pub fn layers_dir_for(
    layers_root_exists: bool,
    working_dir: Option<&str>,
    temp_dir: &str,
    unique: &str,
) -> (r: (String, bool))
    ensures
        (r.0@, r.1) == default_layers_dir(
            layers_root_exists,
            opt_str_view(working_dir),
            temp_dir@,
            unique@,
        ),
{
    if layers_root_exists {
        (String::from_str(LAYERS_ROOT), false)
    } else {
        match working_dir {
            Some(d) => {
                let hidden = join(d, ".stencila");
                (join(hidden.as_str(), "layers"), true)
            },
            None => {
                let mut name = String::from_str("stencila-");
                name.append(unique);
                (join(temp_dir, name.as_str()), false)
            },
        }
    }
}

} // verus!
