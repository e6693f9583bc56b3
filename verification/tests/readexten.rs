use asterisk_apps::readexten::{AppReadExten, ReadExtenOptions};
use asterisk_apps::DialplanApp;

#[test]
fn test_readexten_options_parse() {
    let opts = ReadExtenOptions::parse("EXTEN,default,dial-prompt,15");
    assert_eq!(opts.variable, "EXTEN");
    assert_eq!(opts.context, "default");
    assert_eq!(opts.prompt, "dial-prompt");
    assert_eq!(opts.timeout_secs, 15);
}

#[test]
fn test_readexten_options_defaults() {
    let opts = ReadExtenOptions::parse("EXTEN");
    assert_eq!(opts.variable, "EXTEN");
    assert!(opts.context.is_empty());
    assert_eq!(opts.timeout_secs, 10);
}

#[test]
fn test_readexten_options_trimmed_and_bad_timeout() {
    let opts = ReadExtenOptions::parse(" V , ctx , p , soon ,extra");
    assert_eq!(opts.variable, "V");
    assert_eq!(opts.context, "ctx");
    assert_eq!(opts.prompt, "p");
    assert_eq!(opts.timeout_secs, 10);
    assert_eq!(AppReadExten.name(), "ReadExten");
}
