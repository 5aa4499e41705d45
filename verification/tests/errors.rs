use penyu::error::PenyuError;

#[test]
fn error_without_cause_is_its_message() {
    let error = PenyuError::new("Stack is empty".to_string(), None);
    assert_eq!(error.message(), "Stack is empty");
    assert!(error.source().is_none());
    assert_eq!(error.to_text(), "Stack is empty");
}

#[test]
fn error_from_message() {
    let error = PenyuError::from_message("Unexpected document start");
    assert_eq!(error.to_text(), "Unexpected document start");
    assert!(error.source().is_none());
}

#[test]
fn causes_are_joined_down_the_chain() {
    let root = PenyuError::new("unexpected end of file".to_string(), None);
    let middle = PenyuError::new("1:7 Unexpected end of stream".to_string(), Some(Box::new(root)));
    let top = PenyuError::new("XML reader error".to_string(), Some(Box::new(middle)));
    assert_eq!(
        top.to_text(),
        "XML reader error: 1:7 Unexpected end of stream: unexpected end of file"
    );
    assert_eq!(top.message(), "XML reader error");
    let cause = top.source().unwrap();
    assert_eq!(cause.message(), "1:7 Unexpected end of stream");
    assert_eq!(cause.to_text(), "1:7 Unexpected end of stream: unexpected end of file");
}
