use asterisk_apps::followme::{AppFollowMe, FollowMeConfig, FollowMeNumber, FollowMeOptions, FollowMeProfile};
use asterisk_apps::DialplanApp;

#[test]
fn test_followme_options_parse() {
    let opts = FollowMeOptions::parse("adNns");
    assert!(opts.record_name);
    assert!(opts.disable_hold_prompt);
    assert!(opts.no_answer);
    assert!(opts.unreachable_msg);
    assert!(opts.status_msg);
}

#[test]
fn test_followme_profile_default() {
    let profile = FollowMeProfile::default();
    assert_eq!(profile.music_class, "default");
    assert_eq!(profile.take_call, "1");
    assert_eq!(profile.next_indp, "2");
    assert!(profile.enable_callee_prompt);
}

#[test]
fn test_followme_predial_options() {
    let opts = FollowMeOptions::parse("B(sub-caller,s,1)b()lI");
    assert_eq!(opts.predial_caller.as_deref(), Some("sub-caller,s,1"));
    assert!(opts.predial_callee.is_none());
    assert!(opts.disable_optimization);
    assert!(opts.ignore_connected_line);
    let opts = FollowMeOptions::parse("b(x)b");
    assert_eq!(opts.predial_callee.as_deref(), Some("x"));
}

#[test]
fn test_followme_request() {
    assert!(AppFollowMe::request(" ,N").is_none());
    let (id, opts) = AppFollowMe::request(" sales , N ").unwrap();
    assert_eq!(id, "sales");
    assert!(opts.no_answer);
    let (id, opts) = AppFollowMe::request("x").unwrap();
    assert_eq!(id, "x");
    assert!(!opts.no_answer);
    assert_eq!(AppFollowMe.name(), "FollowMe");
}

#[test]
fn test_followme_config() {
    let mut config = FollowMeConfig::new();
    let mut profile = FollowMeProfile::default();
    profile.name = "john".to_string();
    profile.numbers.push(FollowMeNumber {
        number: "SIP/john-cell".to_string(),
        timeout: 20,
        order: 1,
    });
    config.add_profile(profile);
    let p = config.get_profile("john").unwrap();
    assert_eq!(p.name, "john");
    assert_eq!(p.numbers.len(), 1);
}

#[test]
fn test_followme_config_replace() {
    let mut config = FollowMeConfig::default();
    assert!(config.get_profile("john").is_none());
    let mut first = FollowMeProfile::default();
    first.name = "john".to_string();
    config.add_profile(first);
    let mut second = FollowMeProfile::default();
    second.name = "john".to_string();
    second.context = "office".to_string();
    config.add_profile(second);
    let mut other = FollowMeProfile::default();
    other.name = "jane".to_string();
    config.add_profile(other);
    assert_eq!(config.get_profile("john").unwrap().context, "office");
    assert_eq!(config.get_profile("jane").unwrap().name, "jane");
    assert!(config.get_profile("bob").is_none());
}
