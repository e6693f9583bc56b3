//! SayCountedNoun() and SayCountedAdj(): saying a word in the form a count
//! asks for. This module holds the declension rules and how the arguments
//! are read.
use crate::text::{
    chars_of, lemma_chars_deep_view, parse_i32, parse_i32_spec, push_str, splitn, splitn_spec,
    starts_with, string_of, trim, trim_chars,
};
use crate::DialplanApp;
use vstd::prelude::*;

verus! {

/// Grammatical gender.
#[derive(Debug, Clone, Copy, PartialEq, Eq, Structural)]
pub enum Gender {
    Masculine,
    Feminine,
    Neuter,
    Common,
}

impl Gender {
    /// The gender named by a letter (`m`, `f`, `n`, `c`, in either case).
    pub fn from_char(ch: char) -> (r: Option<Self>)
        ensures
            r == if ch == 'm' || ch == 'M' {
                Some(Gender::Masculine)
            } else if ch == 'f' || ch == 'F' {
                Some(Gender::Feminine)
            } else if ch == 'n' || ch == 'N' {
                Some(Gender::Neuter)
            } else if ch == 'c' || ch == 'C' {
                Some(Gender::Common)
            } else {
                None::<Gender>
            },
    {
        if ch == 'm' || ch == 'M' {
            Some(Gender::Masculine)
        } else if ch == 'f' || ch == 'F' {
            Some(Gender::Feminine)
        } else if ch == 'n' || ch == 'N' {
            Some(Gender::Neuter)
        } else if ch == 'c' || ch == 'C' {
            Some(Gender::Common)
        } else {
            None
        }
    }

    pub open spec fn suffix_text(self) -> Seq<char> {
        match self {
            Gender::Masculine => "m"@,
            Gender::Feminine => "f"@,
            Gender::Neuter => "n"@,
            Gender::Common => "c"@,
        }
    }

    /// The file suffix of the gender.
    pub fn suffix(&self) -> (r: &str)
        ensures
            r@ == self.suffix_text(),
    {
        match self {
            Gender::Masculine => "m",
            Gender::Feminine => "f",
            Gender::Neuter => "n",
            Gender::Common => "c",
        }
    }
}

/// Languages declined the Slavic way (the language code begins with `ru`,
/// `ua` or `pl`).
pub open spec fn slavic(language: Seq<char>) -> bool {
    (language.len() >= 2 && language.take(2) == "ru"@) || (language.len() >= 2 && language.take(2)
        == "ua"@) || (language.len() >= 2 && language.take(2) == "pl"@)
}

/// The absolute value of a count.
pub open spec fn count_abs(count: i32) -> nat {
    if count < 0 {
        (-count) as nat
    } else {
        count as nat
    }
}

/// The noun suffix for a count: Slavic languages take `""` after 1,
/// `x1` after 2 to 4, and `x2` otherwise and for 11 to 19 (by the last
/// digits of the absolute count); others take `""` for one and `s`
/// otherwise.
pub open spec fn noun_suffix_spec(count: i32, language: Seq<char>) -> Seq<char> {
    if slavic(language) {
        let last_two = count_abs(count) % 100;
        let last_one = count_abs(count) % 10;
        if 11 <= last_two <= 19 {
            "x2"@
        } else if last_one == 1 {
            ""@
        } else if 2 <= last_one <= 4 {
            "x1"@
        } else {
            "x2"@
        }
    } else if count == 1 || count == -1 {
        ""@
    } else {
        "s"@
    }
}

/// How a Slavic language declines a noun after a count, by the last digits
/// of the count's absolute value: every count ending in 11 to 19 takes the
/// genitive plural `x2`; otherwise one ending in 1 takes no suffix, one
/// ending in 2, 3 or 4 takes `x1`, and any other takes `x2`. Other languages
/// take no suffix for one (or minus one) and `s` for any other count.
pub proof fn lemma_noun_suffix(count: i32, language: Seq<char>)
    ensures
        slavic(language) && 11 <= count_abs(count) % 100 <= 19 ==> noun_suffix_spec(count, language)
            == "x2"@,
        slavic(language) && !(11 <= count_abs(count) % 100 <= 19) && count_abs(count) % 10 == 1
            ==> noun_suffix_spec(count, language) == ""@,
        slavic(language) && !(11 <= count_abs(count) % 100 <= 19) && 2 <= count_abs(count) % 10
            <= 4 ==> noun_suffix_spec(count, language) == "x1"@,
        slavic(language) && !(11 <= count_abs(count) % 100 <= 19) && (count_abs(count) % 10 == 0
            || count_abs(count) % 10 >= 5) ==> noun_suffix_spec(count, language) == "x2"@,
        !slavic(language) && (count == 1 || count == -1) ==> noun_suffix_spec(count, language)
            == ""@,
        !slavic(language) && count != 1 && count != -1 ==> noun_suffix_spec(count, language)
            == "s"@,
{
}

/// The adjective suffix for a count: in Slavic languages the gender's
/// suffix after 1 (not 11), else `x`; no suffix otherwise.
pub open spec fn adjective_suffix_spec(count: i32, gender: Option<Gender>, language: Seq<char>) -> Seq<char> {
    if slavic(language) {
        let last_two = count_abs(count) % 100;
        let last_one = count_abs(count) % 10;
        if last_one == 1 && last_two != 11 {
            match gender {
                Some(g) => g.suffix_text(),
                None => ""@,
            }
        } else {
            "x"@
        }
    } else {
        ""@
    }
}

/// How a Slavic language declines an adjective after a count: a count whose
/// absolute value ends in 1, but not in 11, takes the gender's suffix (none
/// without a gender); every other count takes `x`. Other languages take no
/// suffix.
pub proof fn lemma_adjective_suffix(count: i32, gender: Option<Gender>, language: Seq<char>)
    ensures
        slavic(language) && count_abs(count) % 10 == 1 && count_abs(count) % 100 != 11
            ==> adjective_suffix_spec(count, gender, language) == match gender {
            Some(g) => g.suffix_text(),
            None => ""@,
        },
        slavic(language) && (count_abs(count) % 10 != 1 || count_abs(count) % 100 == 11)
            ==> adjective_suffix_spec(count, gender, language) == "x"@,
        !slavic(language) ==> adjective_suffix_spec(count, gender, language) == ""@,
{
}

fn is_slavic(language: &str) -> (r: bool)
    ensures
        r == slavic(language@),
{
    let l = chars_of(language);
    let ru = chars_of("ru");
    let ua = chars_of("ua");
    let pl = chars_of("pl");
    proof {
        reveal_strlit("ru");
        reveal_strlit("ua");
        reveal_strlit("pl");
    }
    starts_with(&l, &ru) || starts_with(&l, &ua) || starts_with(&l, &pl)
}

fn abs_count(count: i32) -> (r: u32)
    ensures
        r as nat == count_abs(count),
{
    if count < 0 {
        if count == i32::MIN {
            2147483648u32
        } else {
            (-count) as u32
        }
    } else {
        count as u32
    }
}

/// The noun suffix for `count` in `language`.
pub fn noun_suffix(count: i32, language: &str) -> (r: &'static str)
    ensures
        r@ == noun_suffix_spec(count, language@),
{
    if is_slavic(language) {
        let abs = abs_count(count);
        let last_two = abs % 100;
        let last_one = abs % 10;
        if last_two >= 11 && last_two <= 19 {
            "x2"
        } else if last_one == 1 {
            ""
        } else if last_one >= 2 && last_one <= 4 {
            "x1"
        } else {
            "x2"
        }
    } else if count == 1 || count == -1 {
        ""
    } else {
        "s"
    }
}

/// The adjective suffix for `count` and `gender` in `language`.
pub fn adjective_suffix(count: i32, gender: Option<Gender>, language: &str) -> (r: &'static str)
    ensures
        r@ == adjective_suffix_spec(count, gender, language@),
{
    if is_slavic(language) {
        let abs = abs_count(count);
        let last_two = abs % 100;
        let last_one = abs % 10;
        if last_one == 1 && last_two != 11 {
            match gender {
                Some(Gender::Masculine) => "m",
                Some(Gender::Feminine) => "f",
                Some(Gender::Neuter) => "n",
                Some(Gender::Common) => "c",
                None => "",
            }
        } else {
            "x"
        }
    } else {
        ""
    }
}

/// The `SayCountedNoun()` dialplan application.
#[derive(Debug)]
pub struct AppSayCountedNoun;

impl DialplanApp for AppSayCountedNoun {
    fn name(&self) -> (r: &str)
        ensures
            r@ == "SayCountedNoun"@,
    {
        "SayCountedNoun"
    }

    fn description(&self) -> (r: &str)
        ensures
            r@ == "Say a noun in declined form to count things"@,
    {
        "Say a noun in declined form to count things"
    }
}

/// The `SayCountedAdj()` dialplan application.
#[derive(Debug)]
pub struct AppSayCountedAdj;

impl DialplanApp for AppSayCountedAdj {
    fn name(&self) -> (r: &str)
        ensures
            r@ == "SayCountedAdj"@,
    {
        "SayCountedAdj"
    }

    fn description(&self) -> (r: &str)
        ensures
            r@ == "Say an adjective in declined form to count things"@,
    {
        "Say an adjective in declined form to count things"
    }
}

impl AppSayCountedNoun {
    /// The sound file `SayCountedNoun(number,noun)` plays: the noun with
    /// its English suffix; `None` (the application fails) without a noun or
    /// with a number that is not an `i32`.
    pub fn file_for(args: &str) -> (r: Option<String>)
        ensures
            ({
                let p = splitn_spec(args@, 2, ',');
                match r {
                    None => p.len() < 2 || parse_i32_spec(trim(p[0])) is None || trim(p[1]).len()
                        == 0,
                    Some(f) => p.len() >= 2 && parse_i32_spec(trim(p[0])) is Some && trim(
                        p[1],
                    ).len() > 0 && f@ == trim(p[1]) + noun_suffix_spec(
                        parse_i32_spec(trim(p[0])).unwrap(),
                        "en"@,
                    ),
                }
            }),
    {
        let v = chars_of(args);
        let parts = splitn(&v, 2, ',');
        if parts.len() < 2 {
            return None;
        }
        proof {
            lemma_chars_deep_view(parts@[0]);
            lemma_chars_deep_view(parts@[1]);
        }
        let n = match parse_i32(&trim_chars(&parts[0])) {
            Some(n) => n,
            None => {
                return None;
            },
        };
        let noun = trim_chars(&parts[1]);
        if noun.len() == 0 {
            return None;
        }
        let mut f = string_of(&noun);
        push_str(&mut f, noun_suffix(n, "en"));
        Some(f)
    }
}

/// The gender named by the first character of the trimmed text, if any.
pub open spec fn gender_of(t: Seq<char>) -> Option<Gender> {
    if t.len() == 0 {
        None
    } else if t[0] == 'm' || t[0] == 'M' {
        Some(Gender::Masculine)
    } else if t[0] == 'f' || t[0] == 'F' {
        Some(Gender::Feminine)
    } else if t[0] == 'n' || t[0] == 'N' {
        Some(Gender::Neuter)
    } else if t[0] == 'c' || t[0] == 'C' {
        Some(Gender::Common)
    } else {
        None
    }
}

impl AppSayCountedAdj {
    /// The sound file `SayCountedAdj(number,adjective[,gender])` plays:
    /// the adjective with its English suffix; `None` (the application
    /// fails) without an adjective or with a number that is not an `i32`.
    pub fn file_for(args: &str) -> (r: Option<String>)
        ensures
            ({
                let p = splitn_spec(args@, 3, ',');
                match r {
                    None => p.len() < 2 || parse_i32_spec(trim(p[0])) is None || trim(p[1]).len()
                        == 0,
                    Some(f) => p.len() >= 2 && parse_i32_spec(trim(p[0])) is Some && trim(
                        p[1],
                    ).len() > 0 && f@ == trim(p[1]) + adjective_suffix_spec(
                        parse_i32_spec(trim(p[0])).unwrap(),
                        if p.len() > 2 {
                            gender_of(trim(p[2]))
                        } else {
                            None
                        },
                        "en"@,
                    ),
                }
            }),
    {
        let v = chars_of(args);
        let parts = splitn(&v, 3, ',');
        if parts.len() < 2 {
            return None;
        }
        proof {
            lemma_chars_deep_view(parts@[0]);
            lemma_chars_deep_view(parts@[1]);
        }
        let n = match parse_i32(&trim_chars(&parts[0])) {
            Some(n) => n,
            None => {
                return None;
            },
        };
        let adj = trim_chars(&parts[1]);
        if adj.len() == 0 {
            return None;
        }
        let gender = if parts.len() > 2 {
            proof {
                lemma_chars_deep_view(parts@[2]);
            }
            let g = trim_chars(&parts[2]);
            if g.len() > 0 {
                Gender::from_char(g[0])
            } else {
                None
            }
        } else {
            None
        };
        let mut f = string_of(&adj);
        push_str(&mut f, adjective_suffix(n, gender, "en"));
        Some(f)
    }
}

} // verus!
