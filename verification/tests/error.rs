use toggle_ro::error::Error;

#[test]
fn error_from_str_holds_the_message() {
    let error = Error::from("device is gone");
    assert_eq!(error.message, "device is gone");
}

#[test]
fn error_from_string_holds_the_message() {
    let error = Error::from(String::from("no table"));
    assert_eq!(error.message, "no table");
}

#[test]
fn error_from_string_reference_holds_the_message() {
    let text = String::from("short read");
    let error = Error::from(&text);
    assert_eq!(error.message, "short read");
    assert_eq!(text, "short read");
}

#[test]
fn error_to_string_is_the_message() {
    assert_eq!(Error::from("sync failed").to_string(), "sync failed");
    assert_eq!(Error::from("").to_string(), "");
    assert_eq!(Error { message: String::from("héllo") }.to_string(), "héllo");
}

#[test]
fn error_clone_and_debug() {
    let error = Error::from("x");
    let copy = error.clone();
    assert_eq!(copy.message, error.message);
    assert_eq!(format!("{:?}", error), "Error { message: \"x\" }");
}
