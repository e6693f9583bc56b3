use asterisk_apps::originate::{
    AppOriginate, OriginateArgs, OriginateOptions, OriginateStatus, OriginateType,
};
use asterisk_apps::time::Duration;
use asterisk_apps::DialplanApp;

#[test]
fn test_parse_exten_args() {
    let args = OriginateArgs::parse("SIP/1234,exten,default,100,1,30").unwrap();
    assert_eq!(args.tech, "SIP");
    assert_eq!(args.tech_data, "1234");
    assert_eq!(args.timeout, Duration::from_secs(30));
    match args.originate_type {
        OriginateType::Extension {
            context,
            extension,
            priority,
        } => {
            assert_eq!(context, "default");
            assert_eq!(extension, "100");
            assert_eq!(priority, 1);
        }
        _ => panic!("expected Extension type"),
    }
}

#[test]
fn test_parse_app_args() {
    let args = OriginateArgs::parse("PJSIP/bob,app,Playback,hello-world").unwrap();
    assert_eq!(args.tech, "PJSIP");
    assert_eq!(args.tech_data, "bob");
    match args.originate_type {
        OriginateType::Application { app_name, app_data } => {
            assert_eq!(app_name, "Playback");
            assert_eq!(app_data, "hello-world");
        }
        _ => panic!("expected Application type"),
    }
}

#[test]
fn test_parse_args_minimal() {
    let args = OriginateArgs::parse("SIP/100,exten,default").unwrap();
    match args.originate_type {
        OriginateType::Extension {
            context,
            extension,
            priority,
        } => {
            assert_eq!(context, "default");
            assert_eq!(extension, "s");
            assert_eq!(priority, 1);
        }
        _ => panic!("expected Extension type"),
    }
    assert_eq!(args.timeout, Duration::from_secs(30));
}

#[test]
fn test_parse_args_invalid() {
    assert!(OriginateArgs::parse("").is_none());
    assert!(OriginateArgs::parse("SIP/100").is_none());
    assert!(OriginateArgs::parse("SIP/100,badtype,x").is_none());
}

#[test]
fn test_parse_app_timeout_options_and_case() {
    let args = OriginateArgs::parse(" Local/x@y , APP , Dial , SIP/a , 45 , a ").unwrap();
    assert_eq!(args.tech, "Local");
    assert_eq!(args.tech_data, "x@y");
    assert_eq!(args.timeout, Duration::from_secs(45));
    assert!(args.options.async_originate);
    let args = OriginateArgs::parse("SIP/1,Exten,ctx,, x ,abc,a").unwrap();
    assert_eq!(
        args.originate_type,
        OriginateType::Extension {
            context: "ctx".to_string(),
            extension: "s".to_string(),
            priority: 1
        }
    );
    assert_eq!(args.timeout, Duration::from_secs(30));
    assert!(args.options.async_originate);
    assert!(OriginateArgs::parse("/1,exten,ctx").is_none());
    assert!(OriginateArgs::parse("SIP1,exten,ctx").is_none());
    assert!(OriginateArgs::parse("SIP/1,app, ").is_none());
    assert!(!OriginateOptions::parse("x").async_originate);
}

#[test]
fn test_originate_status() {
    assert_eq!(OriginateStatus::Congestion.as_str(), "CONGESTION");
    assert_eq!(AppOriginate::status_for("SIP/1,exten,c").as_str(), "SUCCESS");
    assert_eq!(AppOriginate::status_for("bad"), OriginateStatus::Failed);
    assert_eq!(AppOriginate.name(), "Originate");
}
