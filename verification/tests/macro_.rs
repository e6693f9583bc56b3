use asterisk_apps::macro_::{AppMacro, AppMacroIf, MacroIfChoice, MacroState, MACRO_MAX_DEPTH};
use asterisk_apps::DialplanApp;

#[test]
fn test_macro_state() {
    let state = MacroState {
        context: "default".to_string(),
        extension: "s".to_string(),
        priority: 1,
        depth: 0,
    };
    assert_eq!(state.depth, 0);
}

#[test]
fn test_macro_call_of() {
    assert!(AppMacro::call_of("  ,a").is_none());
    let (name, args) = AppMacro::call_of(" dial ,a, b").unwrap();
    assert_eq!(name, "dial");
    assert_eq!(args, vec!["a".to_string(), " b".to_string()]);
    let (_, args) = AppMacro::call_of("x").unwrap();
    assert!(args.is_empty());
    assert_eq!(MACRO_MAX_DEPTH, 7);
    assert_eq!(AppMacro.name(), "Macro");
}

#[test]
fn test_macro_if_branch() {
    assert_eq!(AppMacroIf::branch("1"), MacroIfChoice::Invalid);
    assert_eq!(AppMacroIf::branch("1? a,1 : b"), MacroIfChoice::Call("a,1".to_string()));
    assert_eq!(AppMacroIf::branch("0? a : b "), MacroIfChoice::Call("b".to_string()));
    assert_eq!(AppMacroIf::branch(" 0 ?a"), MacroIfChoice::Nothing);
    assert_eq!(AppMacroIf::branch("x?a"), MacroIfChoice::Call("a".to_string()));
}
