use asterisk_apps::if_::{
    AppElse, AppElseIf, AppEndIf, AppGotoIf, AppGotoIfTime, AppIf, GotoIfChoice,
};
use asterisk_apps::DialplanApp;

#[test]
fn test_goto_if_targets() {
    assert_eq!(AppGotoIf::target("1"), GotoIfChoice::Invalid);
    assert_eq!(
        AppGotoIf::target("1?yes,1:no,1"),
        GotoIfChoice::Jump("yes,1".to_string())
    );
    assert_eq!(AppGotoIf::target("0?yes:no"), GotoIfChoice::Jump("no".to_string()));
    assert_eq!(AppGotoIf::target("0?yes"), GotoIfChoice::Continue);
    assert_eq!(AppGotoIf::target("1?:no"), GotoIfChoice::Continue);
    assert_eq!(AppGotoIf::target(" ?yes:no"), GotoIfChoice::Jump("no".to_string()));
}

#[test]
fn test_if_condition_and_names() {
    assert!(AppIf::is_true(" 1 "));
    assert!(!AppIf::is_true(" 0 "));
    assert!(!AppIf::is_true("  "));
    assert!(AppIf::is_true("00"));
    assert_eq!(AppGotoIf.name(), "GotoIf");
    assert_eq!(AppGotoIfTime.name(), "GotoIfTime");
    assert_eq!(AppIf.name(), "If");
    assert_eq!(AppElseIf.name(), "ElseIf");
    assert_eq!(AppElse.name(), "Else");
    assert_eq!(AppEndIf.name(), "EndIf");
}
