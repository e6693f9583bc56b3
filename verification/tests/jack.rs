use asterisk_apps::jack::{AppJack, JackOptions};
use asterisk_apps::DialplanApp;

#[test]
fn test_jack_options_parse() {
    let opts = JackOptions::parse("c=myapp,i=system:capture_1,o=system:playback_1");
    assert_eq!(opts.client_name, "myapp");
    assert_eq!(opts.input_port.as_deref(), Some("system:capture_1"));
    assert_eq!(opts.output_port.as_deref(), Some("system:playback_1"));
}

#[test]
fn test_jack_options_default() {
    let opts = JackOptions::parse("");
    assert_eq!(opts.client_name, "asterisk");
    assert!(!opts.no_auto_connect);
}

#[test]
fn test_jack_options_server_and_flag() {
    let opts = JackOptions::parse(" s=srv , n ,c=a,c=b,x=1");
    assert_eq!(opts.server_name.as_deref(), Some("srv"));
    assert!(opts.no_auto_connect);
    assert_eq!(opts.client_name, "b");
    assert!(opts.input_port.is_none());
    assert_eq!(AppJack.name(), "JACK");
}
