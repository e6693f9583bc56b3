use asterisk_apps::festival::{AppFestival, FestivalConfig, FestivalOptions};
use asterisk_apps::DialplanApp;

#[test]
fn test_festival_config_default() {
    let cfg = FestivalConfig::default();
    assert_eq!(cfg.port, 1314);
    assert_eq!(cfg.host, "localhost");
}

#[test]
fn test_festival_options() {
    let opts = FestivalOptions::parse("na");
    assert!(opts.no_answer);
    assert!(opts.any_interrupt);
}

#[test]
fn test_festival_text_of() {
    assert_eq!(AppFestival::text_of("Hello world,#").as_deref(), Some("Hello world"));
    assert!(AppFestival::text_of("").is_none());
    assert!(AppFestival::text_of(",123").is_none());
    let cfg = FestivalConfig::default();
    assert!(!cfg.cache);
    assert_eq!(cfg.cache_dir, "/tmp/festival_cache");
    let opts = FestivalOptions::parse("x");
    assert!(!opts.no_answer && !opts.any_interrupt);
    assert_eq!(AppFestival.name(), "Festival");
}
