//! Content-addressed blobs of an OCI image layout and their descriptors.
use sha2::Digest;
use vstd::prelude::*;
use vstd::string::StringSliceAdditionalSpecFns;

use crate::text::{hex_of, join, join_path, str_eq, to_hex};

verus! {

/// A name for the SHA-256 digest of some bytes.
pub uninterp spec fn sha256_of(data: Seq<u8>) -> Seq<u8>;

/// Relies on `sha2::Sha256::digest`: the 32-byte SHA-256 digest of `data`.
#[verifier::external_body]
fn sha256(data: &[u8]) -> (r: Vec<u8>)
    ensures
        r@ == sha256_of(data@),
        r@.len() == 32,
{
    sha2::Sha256::digest(data).to_vec()
}

/// The SHA-256 digest of some bytes in lower-case hex.
pub open spec fn hex_of_sha(data: Seq<u8>) -> Seq<char> {
    hex_of(sha256_of(data))
}

/// The SHA-256 digest of the UTF-8 bytes of `s`, in lower-case hex.
pub fn str_sha256_hex(s: &str) -> (r: String)
    ensures
        r@ == hex_of_sha(s.spec_bytes()),
        r@.len() == 64,
{
    let digest = sha256(s.as_bytes());
    to_hex(digest.as_slice())
}

/// The media types that an image layout holds.
#[derive(Debug, Clone, Copy, PartialEq, Eq, Structural)]
pub enum MediaType {
    ImageLayer,
    ImageLayerGzip,
    ImageLayerZstd,
    ImageConfig,
    ImageManifest,
    ImageIndex,
}

pub open spec fn media_type_name(m: MediaType) -> Seq<char> {
    match m {
        MediaType::ImageLayer => "application/vnd.oci.image.layer.v1.tar"@,
        MediaType::ImageLayerGzip => "application/vnd.oci.image.layer.v1.tar+gzip"@,
        MediaType::ImageLayerZstd => "application/vnd.oci.image.layer.v1.tar+zstd"@,
        MediaType::ImageConfig => "application/vnd.oci.image.config.v1+json"@,
        MediaType::ImageManifest => "application/vnd.oci.image.manifest.v1+json"@,
        MediaType::ImageIndex => "application/vnd.oci.image.index.v1+json"@,
    }
}

impl MediaType {
    /// The registered name of the media type.
    pub fn as_str(&self) -> (r: &'static str)
        ensures
            r@ == media_type_name(*self),
    {
        match self {
            MediaType::ImageLayer => "application/vnd.oci.image.layer.v1.tar",
            MediaType::ImageLayerGzip => "application/vnd.oci.image.layer.v1.tar+gzip",
            MediaType::ImageLayerZstd => "application/vnd.oci.image.layer.v1.tar+zstd",
            MediaType::ImageConfig => "application/vnd.oci.image.config.v1+json",
            MediaType::ImageManifest => "application/vnd.oci.image.manifest.v1+json",
            MediaType::ImageIndex => "application/vnd.oci.image.index.v1+json",
        }
    }
}

/// A reference to a blob: its media type, size in bytes, digest and annotations.
#[derive(Debug)]
pub struct Descriptor {
    pub media_type: MediaType,
    pub size: u64,
    pub digest: String,
    pub annotations: Option<Vec<(String, String)>>,
}

/// `sha256:` followed by the hex digest.
pub open spec fn digest_string(digest: Seq<u8>) -> Seq<char> {
    "sha256:"@ + hex_of(digest)
}

/// The directory of an image layout that holds its blobs.
pub open spec fn blobs_dir_path(image_dir: Seq<char>) -> Seq<char> {
    join_path(join_path(image_dir, "blobs"@), "sha256"@)
}

/// `digest` without a leading `sha256:`.
pub open spec fn digest_hex_part(digest: Seq<char>) -> Seq<char> {
    if digest.len() >= 7 && digest.subrange(0, 7) == "sha256:"@ {
        digest.subrange(7, digest.len() as int)
    } else {
        digest
    }
}

/// Where the blob with `digest` (with or without its `sha256:`) lies in an image layout.
pub open spec fn blob_path(image_dir: Seq<char>, digest: Seq<char>) -> Seq<char> {
    join_path(blobs_dir_path(image_dir), digest_hex_part(digest))
}

impl Descriptor {
    /// The descriptor of a blob of `size` bytes whose SHA-256 digest is `digest`.
    pub fn for_blob(
        media_type: MediaType,
        size: u64,
        digest: &[u8],
        annotations: Option<Vec<(String, String)>>,
    ) -> (r: Descriptor)
        ensures
            r.media_type == media_type,
            r.size == size,
            r.digest@ == digest_string(digest@),
            r.digest@.len() == 7 + 2 * digest@.len(),
            r.annotations == annotations,
    {
        proof {
            reveal_strlit("sha256:");
        }
        let mut d = String::from_str("sha256:");
        let hex = to_hex(digest);
        d.append(hex.as_str());
        Descriptor { media_type, size, digest: d, annotations }
    }
}

/// The directory of an image layout that holds its blobs.
pub fn blobs_dir(image_dir: &str) -> (r: String)
    ensures
        r@ == blobs_dir_path(image_dir@),
{
    let blobs = join(image_dir, "blobs");
    join(blobs.as_str(), "sha256")
}

/// The file name that a blob with this SHA-256 digest is stored under.
pub fn blob_file_name(digest: &[u8]) -> (r: String)
    ensures
        r@ == hex_of(digest@),
{
    to_hex(digest)
}

/// Where the blob with `digest` (with or without its `sha256:`) lies in an image layout.
pub fn layer_path(image_dir: &str, digest: &str) -> (r: String)
    ensures
        r@ == blob_path(image_dir@, digest@),
{
    let n = digest.unicode_len();
    let hex = if n >= 7 && str_eq(digest.substring_char(0, 7), "sha256:") {
        digest.substring_char(7, n)
    } else {
        digest
    };
    let dir = blobs_dir(image_dir);
    join(dir.as_str(), hex)
}

/// A blob's descriptor names the file it is stored in: the path that its digest leads to
/// is the blobs directory joined with the hex digest, the name that the blob is given.
pub proof fn lemma_blob_path_of_digest(image_dir: Seq<char>, digest: Seq<u8>)
    ensures
        blob_path(image_dir, digest_string(digest)) == join_path(
            blobs_dir_path(image_dir),
            hex_of(digest),
        ),
{
    reveal_strlit("sha256:");
    let d = digest_string(digest);
    assert(d.subrange(0, 7) =~= "sha256:"@);
    assert(d.subrange(7, d.len() as int) =~= hex_of(digest));
}

} // verus!
