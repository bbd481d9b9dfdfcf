use oci_images::blob::{str_sha256_hex, MediaType};
use oci_images::config::{env_file_action, image_env, image_labels, EnvAction, EnvFileOutcome};
use oci_images::image::{
    default_reference_for, layers_dir_for, History, Image, ImageError, ImageOptions, LayerStack,
};
use oci_images::blob::Descriptor;
use oci_images::reference::ImageReference;

fn options<'a>() -> ImageOptions<'a> {
    ImageOptions {
        working_dir: Some("/home/me/project"),
        reference: None,
        base: None,
        base_default: None,
        layer_diffs: None,
        layer_format: None,
        layout_complete: false,
        manifest_format: None,
        unique: "abcdefghijklmnop",
    }
}

#[test]
fn image_defaults() {
    let image = Image::new(options(), "/layers".to_string(), "/tmp/layout".to_string(), Vec::new()).unwrap();
    let hash = str_sha256_hex("/home/me/project");
    assert_eq!(image.reference().registry, "registry.hub.docker.com");
    assert_eq!(image.reference().repository, format!("project-{}", &hash[..12]));
    assert_eq!(image.base().to_string(), "registry.hub.docker.com/stencila/stencila:nano");
    assert_eq!(image.layer_format(), MediaType::ImageLayerGzip);
    assert_eq!(image.manifest_format(), "application/vnd.oci.image.manifest.v1+json");
    assert!(image.layer_diffs());
    assert_eq!(image.layout_dir(), "/tmp/layout");
}

#[test]
fn image_formats() {
    let mut o = options();
    o.layer_format = Some("tzs");
    o.manifest_format = Some("v2s2");
    o.base_default = Some("ubuntu:22.04");
    let image = Image::new(o, "/layers".to_string(), "/out".to_string(), Vec::new()).unwrap();
    assert_eq!(image.layer_format(), MediaType::ImageLayerZstd);
    assert_eq!(image.manifest_format(), "application/vnd.docker.distribution.manifest.v2+json");
    assert_eq!(image.base().tag.as_deref(), Some("22.04"));

    let mut o = options();
    o.layer_format = Some("zip");
    assert_eq!(Image::new(o, "/l".to_string(), "/o".to_string(), Vec::new()).unwrap_err(), ImageError::UnknownLayerFormat);
    let mut o = options();
    o.manifest_format = Some("v1");
    assert_eq!(Image::new(o, "/l".to_string(), "/o".to_string(), Vec::new()).unwrap_err(), ImageError::UnknownManifestFormat);
}

#[test]
fn default_reference_without_working_dir() {
    let r = default_reference_for(None, "0123456789abcdefXYZ");
    assert_eq!(r.repository, "unnamed-0123456789ab");
    let r = default_reference_for(Some("/a/b/"), "x");
    assert!(r.repository.starts_with("b-"));
    assert_eq!(r.repository.len(), 2 + 12);
}

#[test]
fn index_annotations_and_digests() {
    let mut o = options();
    o.reference = Some("ghcr.io/me/app:1");
    let mut image = Image::new(o, "/l".to_string(), "/o".to_string(), Vec::new()).unwrap();
    image.record_digests("sha256:base".to_string(), "sha256:mine".to_string());
    assert_eq!(image.reference().digest.as_deref(), Some("sha256:mine"));
    assert_eq!(image.base().digest.as_deref(), Some("sha256:base"));
    let a = image.index_annotations("now", "sha256:base");
    assert_eq!(a[0], ("org.opencontainers.image.ref.name".to_string(), "ghcr.io/me/app:1".to_string()));
    assert_eq!(a[2].1, "registry.hub.docker.com/stencila/stencila:nano");
    assert_eq!(a[3].1, "sha256:base");
}

#[test]
fn env_merge() {
    let reference = ImageReference::parse("ghcr.io/me/app:1");
    let base = vec!["PATH=/usr/bin".to_string(), "EMPTY".to_string(), "HOME=/root".to_string()];
    let dirs = vec!["/layers/pack/node".to_string()];
    let files = vec![
        ("PATH.prepend".to_string(), "/usr/bin".to_string()),
        ("HOME.default".to_string(), "/home".to_string()),
        ("EMPTY.default".to_string(), "filled".to_string()),
        ("NODE.override".to_string(), "18".to_string()),
        ("NODE.append".to_string(), "-lts".to_string()),
        ("NODE.weird".to_string(), "ignored".to_string()),
        ("UNSET.weird".to_string(), "ignored".to_string()),
    ];
    let env = image_env(&base, &dirs, &files, &reference);
    assert_eq!(
        env,
        vec![
            "PATH=/layers/pack/node/bin:/usr/bin".to_string(),
            "EMPTY=filled".to_string(),
            "HOME=/root".to_string(),
            "LD_LIBRARY_PATH=/layers/pack/node/lib:".to_string(),
            "NODE=18-lts".to_string(),
            "STENCILA_IMAGE_REF=ghcr.io/me/app:1".to_string(),
        ]
    );
    assert_eq!(env_file_action("A.prepend"), EnvFileOutcome::Applied(EnvAction::Prepend));
    assert_eq!(env_file_action("A.weird"), EnvFileOutcome::UnknownAction);
    assert_eq!(env_file_action(".hidden"), EnvFileOutcome::NoAction);
}

#[test]
fn labels_merge() {
    let base = vec![("a".to_string(), "1".to_string())];
    let labels = image_labels(&base, "2.0", Some("a 2\r\nnospace\nb two words\n"));
    assert_eq!(
        labels,
        vec![
            ("a".to_string(), "2".to_string()),
            ("io.stencila.version".to_string(), "2.0".to_string()),
            ("b".to_string(), "two words".to_string()),
        ]
    );
}

#[test]
fn layer_stack_skips_empty_layers() {
    let mut stack = LayerStack::new();
    let args = vec!["image".to_string(), "build".to_string()];
    let h = History::for_layer("now", &args, "/src");
    assert_eq!(h.created_by, "stencila image build");
    assert_eq!(h.comment, "Layer for directory /src");
    let empty = Descriptor { media_type: MediaType::ImageLayerGzip, size: 0, digest: "<none>".to_string(), annotations: None };
    assert!(!stack.push("<empty>".to_string(), empty, h));
    assert_eq!(stack.layers.len(), 0);
    let d = Descriptor::for_blob(MediaType::ImageLayerGzip, 10, &[0u8; 32], None);
    assert!(stack.push("sha256:x".to_string(), d, History::for_layer("now", &args, "/src")));
    assert_eq!(stack.diff_ids, vec!["sha256:x".to_string()]);
}

#[test]
fn env_files_do_not_grow_variables_when_repeated() {
    let reference = ImageReference::parse("app");
    let files = vec![
        ("PATH.prepend".to_string(), "/opt/bin:".to_string()),
        ("LIBS.append".to_string(), ":/opt/lib".to_string()),
    ];
    let once = image_env(&vec!["PATH=/usr/bin".to_string()], &Vec::new(), &files, &reference);
    let base: Vec<String> = once.iter().filter(|e| !e.starts_with("STENCILA_IMAGE_REF=")).cloned().collect();
    let twice = image_env(&base, &Vec::new(), &files, &reference);
    assert_eq!(once, twice);
    assert_eq!(once[0], "PATH=/opt/bin:/usr/bin");
    assert_eq!(once[1], "LIBS=:/opt/lib");
}

#[test]
fn layers_dir_fallbacks() {
    assert_eq!(layers_dir_for(true, Some("/w"), "/tmp", "u"), ("/layers".to_string(), false));
    assert_eq!(layers_dir_for(false, Some("/w"), "/tmp", "u"), ("/w/.stencila/layers".to_string(), true));
    assert_eq!(layers_dir_for(false, None, "/tmp/", "u"), ("/tmp/stencila-u".to_string(), false));
}
