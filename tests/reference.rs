use oci_images::reference::ImageReference;

#[test]
fn parse_image_ref() {
    let ubuntu = ImageReference {
        registry: "registry.hub.docker.com".to_string(),
        repository: "library/ubuntu".to_string(),
        ..Default::default()
    };

    assert_eq!("ubuntu".parse::<ImageReference>().unwrap(), ubuntu);
    assert_eq!("docker.io/ubuntu".parse::<ImageReference>().unwrap(), ubuntu);
    assert_eq!(
        "registry.hub.docker.com/ubuntu".parse::<ImageReference>().unwrap(),
        ubuntu
    );

    let ubuntu_2204 = ImageReference {
        registry: "registry.hub.docker.com".to_string(),
        repository: "library/ubuntu".to_string(),
        tag: Some("22.04".to_string()),
        ..Default::default()
    };

    assert_eq!("ubuntu:22.04".parse::<ImageReference>().unwrap(), ubuntu_2204);
    assert_eq!(
        "docker.io/ubuntu:22.04".parse::<ImageReference>().unwrap(),
        ubuntu_2204
    );
    assert_eq!(
        "registry.hub.docker.com/ubuntu:22.04".parse::<ImageReference>().unwrap(),
        ubuntu_2204
    );

    let ubuntu_digest = ImageReference {
        registry: "registry.hub.docker.com".to_string(),
        repository: "library/ubuntu".to_string(),
        digest: Some("sha256:abcdef".to_string()),
        ..Default::default()
    };

    assert_eq!(
        "ubuntu@sha256:abcdef".parse::<ImageReference>().unwrap(),
        ubuntu_digest
    );
    assert_eq!(
        "docker.io/ubuntu@sha256:abcdef".parse::<ImageReference>().unwrap(),
        ubuntu_digest
    );
    assert_eq!(
        "registry.hub.docker.com/ubuntu@sha256:abcdef".parse::<ImageReference>().unwrap(),
        ubuntu_digest
    );
}

#[test]
fn parse_other_registries() {
    let r = ImageReference::parse("localhost/app:1");
    assert_eq!(r.registry, "localhost");
    assert_eq!(r.repository, "app");
    assert_eq!(r.tag.as_deref(), Some("1"));

    let r = ImageReference::parse("ghcr.io/owner/app");
    assert_eq!(r.registry, "ghcr.io");
    assert_eq!(r.repository, "owner/app");
    assert_eq!(r.tag, None);

    let r = ImageReference::parse("localhost:5000/app@sha256:00");
    assert_eq!(r.registry, "localhost:5000");
    assert_eq!(r.repository, "app");
    assert_eq!(r.digest.as_deref(), Some("sha256:00"));

    // A first component without a dot, a colon or `localhost` is part of the repository.
    let r = ImageReference::parse("owner/app");
    assert_eq!(r.registry, "registry.hub.docker.com");
    assert_eq!(r.repository, "owner/app");

    let r = ImageReference::parse("");
    assert_eq!(r.registry, "registry.hub.docker.com");
    assert_eq!(r.repository, "library/");
}

#[test]
fn reference_strings() {
    let r = ImageReference::parse("ubuntu:22.04");
    assert_eq!(r.to_string(), "registry.hub.docker.com/library/ubuntu:22.04");
    assert_eq!(r.to_string_tag_or_latest(), "registry.hub.docker.com/library/ubuntu:22.04");
    assert_eq!(r.tag_or_latest(), "22.04");
    assert_eq!(r.digest_or_tag_or_latest(), "22.04");

    let r = ImageReference::parse("ubuntu");
    assert_eq!(r.to_string(), "registry.hub.docker.com/library/ubuntu:latest");
    assert_eq!(r.tag_or_latest(), "latest");
    assert_eq!(r.digest_or_tag_or_latest(), "latest");

    let r = ImageReference::parse("ubuntu@sha256:abcdef");
    assert_eq!(r.to_string(), "registry.hub.docker.com/library/ubuntu@sha256:abcdef");
    assert_eq!(r.to_string_tag_or_latest(), "registry.hub.docker.com/library/ubuntu:latest");
    assert_eq!(r.digest_or_tag_or_latest(), "sha256:abcdef");
}

#[test]
fn reference_round_trip() {
    for s in [
        "ghcr.io/owner/app:1.2",
        "registry.hub.docker.com/library/ubuntu@sha256:abcdef",
        "localhost:5000/team/tool:dev",
    ] {
        let r = ImageReference::parse(s);
        assert_eq!(r.to_string(), s);
        assert_eq!(ImageReference::parse(&r.to_string()), r);
    }
}
