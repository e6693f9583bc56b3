use asterisk_apps::sendtext::{AppSendText, SendTextStatus, SendTextType};
use asterisk_apps::DialplanApp;

#[test]
fn test_status_strings() {
    assert_eq!(SendTextStatus::Success.as_str(), "SUCCESS");
    assert_eq!(SendTextStatus::Failure.as_str(), "FAILURE");
    assert_eq!(SendTextStatus::Unsupported.as_str(), "UNSUPPORTED");
}

#[test]
fn test_type_strings() {
    assert_eq!(SendTextType::Nothing.as_str(), "NONE");
    assert_eq!(SendTextType::Basic.as_str(), "BASIC");
    assert_eq!(SendTextType::Enhanced.as_str(), "ENHANCED");
}

#[test]
fn test_sendtext_body_and_outcome() {
    assert_eq!(AppSendText::body_of("arg", Some("var")), "var");
    assert_eq!(AppSendText::body_of("arg", Some("")), "arg");
    assert_eq!(AppSendText::body_of("arg", None), "arg");
    assert_eq!(AppSendText::outcome(""), (SendTextStatus::Success, SendTextType::Nothing));
    assert_eq!(AppSendText::outcome("hi"), (SendTextStatus::Success, SendTextType::Basic));
    assert_eq!(AppSendText.name(), "SendText");
}
