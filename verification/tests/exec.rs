use asterisk_apps::exec::{
    find_unparenthesized_colon, parse_app_invocation, AppExec, AppExecIf, AppTryExec,
    ExecIfChoice, TryExecStatus,
};
use asterisk_apps::DialplanApp;

#[test]
fn test_parse_app_invocation_parens() {
    let (name, args) = parse_app_invocation("Playback(hello-world)");
    assert_eq!(name, "Playback");
    assert_eq!(args, "hello-world");
}

#[test]
fn test_parse_app_invocation_comma() {
    let (name, args) = parse_app_invocation("Playback,hello-world");
    assert_eq!(name, "Playback");
    assert_eq!(args, "hello-world");
}

#[test]
fn test_parse_app_invocation_no_args() {
    let (name, args) = parse_app_invocation("Answer");
    assert_eq!(name, "Answer");
    assert_eq!(args, "");
}

#[test]
fn test_parse_app_invocation_empty() {
    let (name, args) = parse_app_invocation("");
    assert_eq!(name, "");
    assert_eq!(args, "");
}

#[test]
fn test_find_unparenthesized_colon() {
    assert_eq!(
        find_unparenthesized_colon("Playback(hello):Hangup()"),
        Some(15)
    );
    assert_eq!(
        find_unparenthesized_colon("Playback(a:b):Hangup()"),
        Some(13)
    );
    assert_eq!(find_unparenthesized_colon("Playback(hello)"), None);
}

#[test]
fn test_try_exec_status_strings() {
    assert_eq!(TryExecStatus::Success.as_str(), "SUCCESS");
    assert_eq!(TryExecStatus::Failed.as_str(), "FAILED");
    assert_eq!(TryExecStatus::NoApp.as_str(), "NOAPP");
}

#[test]
fn test_parse_app_invocation_nested_parens() {
    let (name, args) = parse_app_invocation("  Set ( X=$(Y) )  ");
    assert_eq!(name, "Set");
    assert_eq!(args, " X=$(Y) ");
    let (name, args) = parse_app_invocation("Dial(SIP/x");
    assert_eq!(name, "Dial");
    assert_eq!(args, "SIP/x");
}

#[test]
fn test_exec_if_branches() {
    assert_eq!(AppExecIf::branch("no question"), ExecIfChoice::Invalid);
    assert_eq!(
        AppExecIf::branch("1?Playback(a:b):Hangup()"),
        ExecIfChoice::Run("Playback(a:b)".to_string())
    );
    assert_eq!(
        AppExecIf::branch("0?Playback(a:b): Hangup() "),
        ExecIfChoice::Run("Hangup()".to_string())
    );
    assert_eq!(AppExecIf::branch(" ?Playback(x)"), ExecIfChoice::Nothing);
    assert_eq!(
        AppExecIf::branch("yes?Playback(x)"),
        ExecIfChoice::Run("Playback(x)".to_string())
    );
    assert_eq!(AppExecIf::branch("1?  :Hangup"), ExecIfChoice::Nothing);
}

#[test]
fn test_try_exec_status_for() {
    assert_eq!(AppTryExec::status_for("   "), TryExecStatus::NoApp);
    assert_eq!(AppTryExec::status_for("(x)"), TryExecStatus::NoApp);
    assert_eq!(AppTryExec::status_for("Answer"), TryExecStatus::Success);
    assert_eq!(AppExec.name(), "Exec");
    assert_eq!(AppTryExec.name(), "TryExec");
    assert_eq!(AppExecIf.name(), "ExecIf");
}
