use irondb::error::IronDbError;

#[test]
fn error_messages() {
    assert_eq!(IronDbError::Parse("x".into()).message(), "parse error: x");
    assert_eq!(IronDbError::Io("y".into()).message(), "io error: y");
    assert_eq!(
        IronDbError::Persistence("z".into()).message(),
        "persistence error: z"
    );
}
