use asterisk_apps::external_ivr::{
    AppExternalIvr, EivrCommand, EivrEvent, ExternalIvrOptions, EXTERNAL_IVR_PORT,
};
use asterisk_apps::DialplanApp;

#[test]
fn test_parse_command_set_prompt() {
    let cmd = EivrCommand::parse("S,1234567890,hello-world").unwrap();
    assert_eq!(cmd, EivrCommand::SetPrompt("hello-world".to_string()));
}

#[test]
fn test_parse_command_hangup() {
    let cmd = EivrCommand::parse("H,1234567890").unwrap();
    assert_eq!(cmd, EivrCommand::Hangup);
}

#[test]
fn test_parse_command_exit() {
    let cmd = EivrCommand::parse("E,1234567890,done").unwrap();
    assert_eq!(cmd, EivrCommand::Exit("done".to_string()));
}

#[test]
fn test_parse_command_send_dtmf() {
    let cmd = EivrCommand::parse("D,1234567890,123#").unwrap();
    assert_eq!(cmd, EivrCommand::SendDtmf("123#".to_string()));
}

#[test]
fn test_parse_command_set_variable() {
    let cmd = EivrCommand::parse("V,1234567890,MYVAR=hello").unwrap();
    assert_eq!(
        cmd,
        EivrCommand::SetVariable("MYVAR".to_string(), "hello".to_string())
    );
}

#[test]
fn test_parse_command_empty() {
    assert!(EivrCommand::parse("").is_none());
}

#[test]
fn test_event_format() {
    let evt = EivrEvent::Dtmf('5');
    assert_eq!(evt.format(1000), "5,1000\n");

    let evt = EivrEvent::Hangup;
    assert_eq!(evt.format(2000), "H,2000\n");
}

#[test]
fn test_options() {
    let opts = ExternalIvrOptions::parse("nid");
    assert!(opts.no_answer);
    assert!(opts.ignore_hangup);
    assert!(opts.run_dead);
}

#[test]
fn test_parse_command_append_and_unknown() {
    let cmd = EivrCommand::parse("  A,1,beep,250  ").unwrap();
    assert_eq!(
        cmd,
        EivrCommand::AppendPrompt { filename: "beep".to_string(), offset: Some(250) }
    );
    let cmd = EivrCommand::parse("A,1,beep,x").unwrap();
    assert_eq!(cmd, EivrCommand::AppendPrompt { filename: "beep".to_string(), offset: None });
    assert_eq!(EivrCommand::parse("X,1").unwrap(), EivrCommand::Exit(String::new()));
    assert_eq!(
        EivrCommand::parse("V,1,NOVALUE").unwrap(),
        EivrCommand::SetVariable("NOVALUE".to_string(), String::new())
    );
    assert!(EivrCommand::parse("Q,1,x").is_none());
    assert_eq!(EivrCommand::parse("P").unwrap(), EivrCommand::Params);
}

#[test]
fn test_event_format_with_payload() {
    assert_eq!(EivrEvent::PlaybackComplete("f".to_string()).format(7), "Z,7,f\n");
    assert_eq!(EivrEvent::Error("bad".to_string()).format(0), "E,0,bad\n");
    assert_eq!(EivrEvent::Disconnect.format(42), "I,42\n");
}

#[test]
fn test_split_command() {
    assert!(AppExternalIvr::split_command("   ").is_none());
    let (cmd, opts) = AppExternalIvr::split_command("ivr://host,nd").unwrap();
    assert_eq!(cmd, "ivr://host");
    assert!(opts.no_answer && opts.run_dead && !opts.ignore_hangup);
    let (cmd, opts) = AppExternalIvr::split_command("/bin/prog,arg").unwrap();
    assert_eq!(cmd, "/bin/prog,arg");
    assert!(!opts.no_answer);
    assert!(AppExternalIvr::is_socket("ivr://host"));
    assert!(!AppExternalIvr::is_socket("/bin/prog"));
    assert_eq!(EXTERNAL_IVR_PORT, 2949);
    assert_eq!(AppExternalIvr.name(), "ExternalIVR");
}
