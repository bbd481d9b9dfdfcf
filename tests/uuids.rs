use oci_images::uuids::{assert_id, generate, Family};

#[test]
fn test_node_id() {
    let id = generate(Family::Node);
    assert_eq!(id.len(), 23);
    assert!(oci_images::uuids::matches(Family::Node, &id));
    assert_id(Family::Node, &id).unwrap();
}

#[test]
fn test_project_id() {
    let id = generate(Family::Project);
    assert_eq!(id.len(), 23);
    assert!(oci_images::uuids::matches(Family::Project, &id));
    assert_id(Family::Project, &id).unwrap();
}

#[test]
fn ids_of_other_families_do_not_match() {
    let id = generate(Family::File);
    assert!(id.starts_with("fi-"));
    assert!(!oci_images::uuids::matches(Family::Node, &id));
    assert!(assert_id(Family::Node, &id).is_err());
    assert!(!oci_images::uuids::matches(Family::Project, "pr-ABCDEFGHIJKLMNOPQRST"));
}
