use asterisk_apps::goto::{AppGoto, GotoTarget};
use asterisk_apps::DialplanApp;

#[test]
fn test_goto_target_priority_only() {
    let t = GotoTarget::parse("100").unwrap();
    assert!(t.context.is_none());
    assert!(t.extension.is_none());
    assert_eq!(t.priority, "100");
}

#[test]
fn test_goto_target_exten_priority() {
    let t = GotoTarget::parse("s,1").unwrap();
    assert!(t.context.is_none());
    assert_eq!(t.extension.as_deref(), Some("s"));
    assert_eq!(t.priority, "1");
}

#[test]
fn test_goto_target_full() {
    let t = GotoTarget::parse("default,s,1").unwrap();
    assert_eq!(t.context.as_deref(), Some("default"));
    assert_eq!(t.extension.as_deref(), Some("s"));
    assert_eq!(t.priority, "1");
}

#[test]
fn test_goto_target_too_many_and_priorities() {
    assert!(GotoTarget::parse("a,b,c,d").is_none());
    let t = GotoTarget::parse(" ctx , 100 , N ").unwrap();
    assert_eq!(t.context.as_deref(), Some("ctx"));
    assert_eq!(t.resolve_priority(4), 5);
    let t = GotoTarget::parse("-3").unwrap();
    assert_eq!(t.resolve_priority(4), -3);
    let t = GotoTarget::parse("s,label").unwrap();
    assert_eq!(t.resolve_priority(4), 1);
    assert_eq!(AppGoto.name(), "Goto");
}
