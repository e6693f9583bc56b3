use asterisk_apps::saycounted::{
    adjective_suffix, noun_suffix, AppSayCountedAdj, AppSayCountedNoun, Gender,
};
use asterisk_apps::DialplanApp;

#[test]
fn test_noun_suffix_english_singular() {
    assert_eq!(noun_suffix(1, "en"), "");
}

#[test]
fn test_noun_suffix_english_plural() {
    assert_eq!(noun_suffix(0, "en"), "s");
    assert_eq!(noun_suffix(2, "en"), "s");
    assert_eq!(noun_suffix(5, "en"), "s");
    assert_eq!(noun_suffix(100, "en"), "s");
}

#[test]
fn test_noun_suffix_russian() {
    assert_eq!(noun_suffix(1, "ru"), "");      // nominative
    assert_eq!(noun_suffix(2, "ru"), "x1");    // genitive singular
    assert_eq!(noun_suffix(3, "ru"), "x1");
    assert_eq!(noun_suffix(4, "ru"), "x1");
    assert_eq!(noun_suffix(5, "ru"), "x2");    // genitive plural
    assert_eq!(noun_suffix(11, "ru"), "x2");   // teen exception
    assert_eq!(noun_suffix(12, "ru"), "x2");
    assert_eq!(noun_suffix(21, "ru"), "");      // 21 -> nominative
    assert_eq!(noun_suffix(22, "ru"), "x1");
}

#[test]
fn test_adjective_suffix_english() {
    assert_eq!(adjective_suffix(1, Some(Gender::Masculine), "en"), "");
    assert_eq!(adjective_suffix(5, Some(Gender::Feminine), "en"), "");
}

#[test]
fn test_adjective_suffix_russian() {
    assert_eq!(adjective_suffix(1, Some(Gender::Feminine), "ru"), "f");
    assert_eq!(adjective_suffix(5, Some(Gender::Feminine), "ru"), "x");
    assert_eq!(adjective_suffix(21, Some(Gender::Masculine), "ru"), "m");
}

#[test]
fn test_gender_from_char() {
    assert_eq!(Gender::from_char('m'), Some(Gender::Masculine));
    assert_eq!(Gender::from_char('f'), Some(Gender::Feminine));
    assert_eq!(Gender::from_char('n'), Some(Gender::Neuter));
    assert_eq!(Gender::from_char('c'), Some(Gender::Common));
    assert_eq!(Gender::from_char('x'), None);
}

#[test]
fn test_suffix_edges() {
    assert_eq!(noun_suffix(-1, "en"), "");
    assert_eq!(noun_suffix(i32::MIN, "pl_PL"), "x2");
    assert_eq!(noun_suffix(-22, "ua"), "x1");
    assert_eq!(noun_suffix(111, "ru"), "x2");
    assert_eq!(adjective_suffix(11, Some(Gender::Neuter), "ru"), "x");
    assert_eq!(adjective_suffix(31, None, "ru"), "");
    assert_eq!(Gender::Common.suffix(), "c");
    assert_eq!(Gender::from_char('F'), Some(Gender::Feminine));
}

#[test]
fn test_say_counted_files() {
    assert_eq!(AppSayCountedNoun::file_for("2, apple ").as_deref(), Some("apples"));
    assert_eq!(AppSayCountedNoun::file_for("1,apple").as_deref(), Some("apple"));
    assert!(AppSayCountedNoun::file_for("x,apple").is_none());
    assert!(AppSayCountedNoun::file_for("2").is_none());
    assert!(AppSayCountedNoun::file_for("2, ").is_none());
    assert_eq!(AppSayCountedAdj::file_for("1,red,f").as_deref(), Some("red"));
    assert!(AppSayCountedAdj::file_for("1").is_none());
    assert_eq!(AppSayCountedNoun.name(), "SayCountedNoun");
    assert_eq!(AppSayCountedAdj.name(), "SayCountedAdj");
}
