//! Building OCI container images from filesystem snapshots: image references,
//! snapshots and their change sets, layer planning, content digests and
//! image configuration; also the document node types and identifiers that
//! travel with images.
pub mod text;
pub mod reference;
pub mod snapshot;
pub mod blob;
pub mod layer;
pub mod strmap;
pub mod config;
pub mod image;
pub mod schema;
pub mod uuids;
pub mod cloud;
