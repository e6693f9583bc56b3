use asterisk_apps::dumpchan::AppDumpChan;
use asterisk_apps::echo::AppEcho;
use asterisk_apps::hangup::AppHangup;
use asterisk_apps::ices::AppIces;
use asterisk_apps::image::AppSendImage;
use asterisk_apps::nbscat::AppNbscat;
use asterisk_apps::ringing::AppRinging;
use asterisk_apps::{AppDial, DialplanApp, PbxExecResult};

#[test]
fn test_simple_app_names() {
    assert_eq!(AppDumpChan.name(), "DumpChan");
    assert_eq!(AppEcho.name(), "Echo");
    assert_eq!(AppHangup.name(), "Hangup");
    assert_eq!(AppIces.name(), "ICES");
    assert_eq!(AppSendImage.name(), "SendImage");
    assert_eq!(AppNbscat.name(), "NBScat");
    assert_eq!(AppRinging.name(), "Ringing");
    assert_eq!(AppDial.name(), "Dial");
    assert_eq!(AppNbscat::NBSCAT_CMD, "nbscat8k");
    assert_ne!(PbxExecResult::Success, PbxExecResult::Hangup);
}

#[test]
fn test_simple_app_arguments() {
    assert_eq!(AppIces::config_of(" /etc/ices.xml ").as_deref(), Some("/etc/ices.xml"));
    assert!(AppIces::config_of("  ").is_none());
    assert_eq!(AppSendImage::file_of("logo.png").as_deref(), Some("logo.png"));
    assert!(AppSendImage::file_of("").is_none());
}

#[test]
fn test_channel_technology() {
    assert_eq!(asterisk_apps::channel_technology("PJSIP/alice-00000001"), "PJSIP");
    assert_eq!(asterisk_apps::channel_technology("Local"), "Local");
    assert_eq!(asterisk_apps::channel_technology("/x"), "");
}
