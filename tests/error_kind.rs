use power_sequence::error::{Error, ErrorKind};

#[test]
fn error_kind_is_its_own_kind() {
    assert_eq!(ErrorKind::Other.kind(), ErrorKind::Other);
}

#[test]
fn error_kind_message() {
    assert_eq!(
        ErrorKind::Other.to_string(),
        "A different error occurred. The original error may contain more information"
    );
}
