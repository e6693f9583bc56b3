use asterisk_apps::directory::{
    AppDirectory, DirectoryArgs, DirectoryEntry, DirectoryOptions, DirectoryResult,
    DirectorySearchMode,
};
use asterisk_apps::DialplanApp;

#[test]
fn test_parse_directory_args_empty() {
    let args = DirectoryArgs::parse("");
    assert_eq!(args.vm_context, "default");
    assert!(args.dial_context.is_none());
}

#[test]
fn test_parse_directory_args_full() {
    let args = DirectoryArgs::parse("sales,from-internal,fb(4)");
    assert_eq!(args.vm_context, "sales");
    assert_eq!(args.dial_context.as_deref(), Some("from-internal"));
    assert_eq!(args.options.search_mode, DirectorySearchMode::Both);
    assert_eq!(args.options.num_chars, 4);
}

#[test]
fn test_parse_directory_options() {
    let opts = DirectoryOptions::parse("fems");
    assert_eq!(opts.search_mode, DirectorySearchMode::FirstName);
    assert!(opts.read_extension);
    assert!(opts.menu_mode);
    assert!(opts.skip_dial);
}

#[test]
fn test_name_to_dtmf() {
    assert_eq!(DirectoryEntry::name_to_dtmf("Smith"), "76484");
    assert_eq!(DirectoryEntry::name_to_dtmf("Jones"), "56637");
    assert_eq!(DirectoryEntry::name_to_dtmf("ABC"), "222");
}

#[test]
fn test_directory_entry_match() {
    let entry = DirectoryEntry::new("100", "John Smith", "default");
    assert_eq!(entry.first_name, "John");
    assert_eq!(entry.last_name, "Smith");

    // "764" matches "Smith" -> 76484
    assert!(entry.matches_dtmf("764", DirectorySearchMode::LastName));
    // "564" matches "John" -> 5646
    assert!(entry.matches_dtmf("564", DirectorySearchMode::FirstName));
    // Both mode should match either
    assert!(entry.matches_dtmf("764", DirectorySearchMode::Both));
    assert!(entry.matches_dtmf("564", DirectorySearchMode::Both));
    // "999" should not match
    assert!(!entry.matches_dtmf("999", DirectorySearchMode::LastName));
}

#[test]
fn test_directory_result_strings() {
    assert_eq!(DirectoryResult::Selected.as_str(), "SELECTED");
    assert_eq!(DirectoryResult::Operator.as_str(), "OPERATOR");
    assert_eq!(DirectoryResult::Timeout.as_str(), "TIMEOUT");
    assert_eq!(DirectoryResult::Failed.as_str(), "FAILED");
}

#[test]
fn test_directory_option_arguments() {
    let opts = DirectoryOptions::parse("l(0)p(250)c(dir.conf)a");
    assert_eq!(opts.search_mode, DirectorySearchMode::LastName);
    assert_eq!(opts.num_chars, 3);
    assert_eq!(opts.pause_ms, 250);
    assert_eq!(opts.config_file.as_deref(), Some("dir.conf"));
    assert!(opts.allow_alias);
    let opts = DirectoryOptions::parse("flc()");
    assert_eq!(opts.search_mode, DirectorySearchMode::Both);
    assert!(opts.config_file.is_none());
    let opts = DirectoryOptions::parse("p(x)n");
    assert_eq!(opts.pause_ms, 0);
    assert!(opts.no_answer_read);
}

#[test]
fn test_directory_entry_single_word_and_symbols() {
    let entry = DirectoryEntry::new("200", "Cher", "vm");
    assert_eq!(entry.first_name, "Cher");
    assert_eq!(entry.last_name, "");
    assert_eq!(DirectoryEntry::name_to_dtmf("O'Neil-2x"), "663459");
    assert!(entry.matches_dtmf("", DirectorySearchMode::LastName));
    assert!(!entry.matches_dtmf("2", DirectorySearchMode::LastName));
    assert_eq!(AppDirectory.name(), "Directory");
}
