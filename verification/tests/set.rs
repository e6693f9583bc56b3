use asterisk_apps::set::{AppMSet, AppSet};
use asterisk_apps::DialplanApp;

#[test]
fn test_set_assignment() {
    assert_eq!(
        AppSet::assignment(" FOO = bar=baz "),
        Some(("FOO".to_string(), "bar=baz".to_string()))
    );
    assert!(AppSet::assignment("   ").is_none());
    assert!(AppSet::assignment("NOEQUALS").is_none());
    assert_eq!(AppSet.name(), "Set");
}

#[test]
fn test_mset_assignments() {
    assert!(AppMSet::assignments(" ").is_none());
    assert_eq!(
        AppMSet::assignments("A=1, ,B, C = 3 ").unwrap(),
        vec![("A".to_string(), "1".to_string()), ("C".to_string(), "3".to_string())]
    );
    assert_eq!(AppMSet.name(), "MSet");
}
