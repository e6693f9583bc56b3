use asterisk_apps::forkcdr::{AppForkCdr, CdrForkFlags, ForkCdrOptions};
use asterisk_apps::DialplanApp;

#[test]
fn test_forkcdr_options_empty() {
    let opts = ForkCdrOptions::parse("");
    assert!(!opts.set_answer);
    assert!(!opts.finalize);
    assert!(!opts.reset);
    assert!(!opts.no_copy_vars);
}

#[test]
fn test_forkcdr_options_all() {
    let opts = ForkCdrOptions::parse("aerv");
    assert!(opts.set_answer);
    assert!(opts.finalize);
    assert!(opts.reset);
    assert!(opts.no_copy_vars);
}

#[test]
fn test_forkcdr_options_reset_implies_answer() {
    let opts = ForkCdrOptions::parse("r");
    assert!(opts.set_answer);
    assert!(opts.reset);
}

#[test]
fn test_cdr_fork_flags() {
    let opts = ForkCdrOptions::parse("ev");
    let flags = CdrForkFlags::from(&opts);
    assert!(flags.finalize);
    assert!(!flags.keep_vars); // 'v' means no_copy, so keep_vars = false
}

#[test]
fn test_forkcdr_flags_for() {
    let flags = AppForkCdr::flags_for("a");
    assert!(flags.set_answer && !flags.finalize && !flags.reset && flags.keep_vars);
    assert_eq!(AppForkCdr.name(), "ForkCDR");
}
