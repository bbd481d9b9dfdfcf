use oci_images::cloud::ErrorResponse;
use oci_images::schema::{
    Cord, Duration, ExecutionMessage, ExecutionMessageLevel, ExecutionRequired, NodeType, Person,
    RawBlock, TimeUnit,
};

#[test]
fn node_constructors() {
    let d = Duration::new(5, TimeUnit::Second);
    assert_eq!(d.value, 5);
    assert_eq!(d.time_unit, TimeUnit::Second);

    let m = ExecutionMessage::new(ExecutionMessageLevel::Error, "boom".to_string());
    assert_eq!(m.node_type(), NodeType::ExecutionMessage);
    assert_eq!(m.node_id().nick, b"exe".to_vec());
    assert_eq!(m.message, "boom");

    let r = RawBlock::new("html".to_string(), Cord { string: "<p>".to_string() });
    assert_eq!(r.node_type(), NodeType::RawBlock);
    assert_eq!(r.node_id().nick, b"raw".to_vec());
    assert_eq!(r.content.string, "<p>");

    let p = Person::new();
    assert!(p.given_names.is_none());
    assert_eq!(ExecutionRequired::default(), ExecutionRequired::NeverExecuted);

    let e = ErrorResponse { status: 404, error: "missing".to_string() };
    assert_eq!(e.status, 404);
}
