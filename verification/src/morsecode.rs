//! Morsecode(): playing text as Morse code. This module holds the code
//! table and the timing settings.
use crate::text::{ascii_upper, is_ascii_alpha};
use crate::DialplanApp;
use vstd::prelude::*;

verus! {

/// The Morse code variants.
#[derive(Debug, Clone, Copy, PartialEq, Eq, Structural)]
pub enum MorseType {
    International,
    American,
}

/// The code of the printable ASCII character with code `n` (32 to 127);
/// characters without a code have the empty text.
pub open spec fn morse_table(n: int) -> Seq<char> {
    if n == 32 {
        " "@
    } else if n == 33 || n == 46 {
        ".-.-.-"@
    } else if n == 34 {
        ".-..-."@
    } else if n == 35 || n == 36 || n == 37 || n == 38 || n == 42 || n == 43 || n == 60 || n == 62 || n == 94 || n == 124 {
        ""@
    } else if n == 39 || n == 96 {
        ".----."@
    } else if n == 40 || n == 41 || n == 91 || n == 93 || n == 123 || n == 125 {
        "-.--.-"@
    } else if n == 44 {
        "--..--"@
    } else if n == 45 {
        "-....-"@
    } else if n == 47 || n == 92 || n == 126 {
        "-..-."@
    } else if n == 48 {
        "-----"@
    } else if n == 49 {
        ".----"@
    } else if n == 50 {
        "..---"@
    } else if n == 51 {
        "...--"@
    } else if n == 52 {
        "....-"@
    } else if n == 53 {
        "....."@
    } else if n == 54 {
        "-...."@
    } else if n == 55 {
        "--..."@
    } else if n == 56 {
        "---.."@
    } else if n == 57 {
        "----."@
    } else if n == 58 {
        "---..."@
    } else if n == 59 {
        "-.-.-."@
    } else if n == 61 {
        "-...-"@
    } else if n == 63 {
        "..--.."@
    } else if n == 64 {
        ".--.-."@
    } else if n == 65 || n == 97 {
        ".-"@
    } else if n == 66 || n == 98 {
        "-..."@
    } else if n == 67 || n == 99 {
        "-.-."@
    } else if n == 68 || n == 100 {
        "-.."@
    } else if n == 69 || n == 101 {
        "."@
    } else if n == 70 || n == 102 {
        "..-."@
    } else if n == 71 || n == 103 {
        "--."@
    } else if n == 72 || n == 104 {
        "...."@
    } else if n == 73 || n == 105 {
        ".."@
    } else if n == 74 || n == 106 {
        ".---"@
    } else if n == 75 || n == 107 {
        "-.-"@
    } else if n == 76 || n == 108 {
        ".-.."@
    } else if n == 77 || n == 109 {
        "--"@
    } else if n == 78 || n == 110 {
        "-."@
    } else if n == 79 || n == 111 {
        "---"@
    } else if n == 80 || n == 112 {
        ".--."@
    } else if n == 81 || n == 113 {
        "--.-"@
    } else if n == 82 || n == 114 {
        ".-."@
    } else if n == 83 || n == 115 {
        "..."@
    } else if n == 84 || n == 116 {
        "-"@
    } else if n == 85 || n == 117 {
        "..-"@
    } else if n == 86 || n == 118 {
        "...-"@
    } else if n == 87 || n == 119 {
        ".--"@
    } else if n == 88 || n == 120 {
        "-..-"@
    } else if n == 89 || n == 121 {
        "-.--"@
    } else if n == 90 || n == 122 {
        "--.."@
    } else if n == 95 {
        "..--.-"@
    } else if n == 127 {
        ". . ."@
    } else {
        ""@
    }
}

/// The code of `ch` in either variant: the table entry for printable
/// ASCII (32 to 127), else the empty text.
pub open spec fn morse_of(ch: char) -> Seq<char> {
    if 32 <= (ch as u32) <= 127 {
        morse_table(ch as u32 as int)
    } else {
        Seq::<char>::empty()
    }
}

/// A character's code ignores case: a letter has the code of its upper-case
/// form, and that code is not empty; a character outside printable ASCII
/// (32 to 127) has the empty code.
pub proof fn lemma_morse_case_blind(ch: char)
    ensures
        !(32 <= (ch as u32) <= 127) ==> morse_of(ch).len() == 0,
        is_ascii_alpha(ch) ==> morse_of(ch) == morse_of(ascii_upper(ch)) && morse_of(ch).len() > 0,
{
    reveal_strlit(".-");
    reveal_strlit("-...");
    reveal_strlit("-.-.");
    reveal_strlit("-..");
    reveal_strlit(".");
    reveal_strlit("..-.");
    reveal_strlit("--.");
    reveal_strlit("....");
    reveal_strlit("..");
    reveal_strlit(".---");
    reveal_strlit("-.-");
    reveal_strlit(".-..");
    reveal_strlit("--");
    reveal_strlit("-.");
    reveal_strlit("---");
    reveal_strlit(".--.");
    reveal_strlit("--.-");
    reveal_strlit(".-.");
    reveal_strlit("...");
    reveal_strlit("-");
    reveal_strlit("..-");
    reveal_strlit("...-");
    reveal_strlit(".--");
    reveal_strlit("-..-");
    reveal_strlit("-.--");
    reveal_strlit("--..");
    if is_ascii_alpha(ch) {
        let u = ascii_upper(ch);
        assert(65 <= (u as u32) <= 90);
        assert((ch as u32) == (u as u32) || (ch as u32) == (u as u32) + 32);
    }
}

fn table_entry(n: u32) -> (r: &'static str)
    ensures
        r@ == morse_table(n as int),
{
    if n == 32 {
        " "
    } else if n == 33 || n == 46 {
        ".-.-.-"
    } else if n == 34 {
        ".-..-."
    } else if n == 35 || n == 36 || n == 37 || n == 38 || n == 42 || n == 43 || n == 60 || n == 62 || n == 94 || n == 124 {
        ""
    } else if n == 39 || n == 96 {
        ".----."
    } else if n == 40 || n == 41 || n == 91 || n == 93 || n == 123 || n == 125 {
        "-.--.-"
    } else if n == 44 {
        "--..--"
    } else if n == 45 {
        "-....-"
    } else if n == 47 || n == 92 || n == 126 {
        "-..-."
    } else if n == 48 {
        "-----"
    } else if n == 49 {
        ".----"
    } else if n == 50 {
        "..---"
    } else if n == 51 {
        "...--"
    } else if n == 52 {
        "....-"
    } else if n == 53 {
        "....."
    } else if n == 54 {
        "-...."
    } else if n == 55 {
        "--..."
    } else if n == 56 {
        "---.."
    } else if n == 57 {
        "----."
    } else if n == 58 {
        "---..."
    } else if n == 59 {
        "-.-.-."
    } else if n == 61 {
        "-...-"
    } else if n == 63 {
        "..--.."
    } else if n == 64 {
        ".--.-."
    } else if n == 65 || n == 97 {
        ".-"
    } else if n == 66 || n == 98 {
        "-..."
    } else if n == 67 || n == 99 {
        "-.-."
    } else if n == 68 || n == 100 {
        "-.."
    } else if n == 69 || n == 101 {
        "."
    } else if n == 70 || n == 102 {
        "..-."
    } else if n == 71 || n == 103 {
        "--."
    } else if n == 72 || n == 104 {
        "...."
    } else if n == 73 || n == 105 {
        ".."
    } else if n == 74 || n == 106 {
        ".---"
    } else if n == 75 || n == 107 {
        "-.-"
    } else if n == 76 || n == 108 {
        ".-.."
    } else if n == 77 || n == 109 {
        "--"
    } else if n == 78 || n == 110 {
        "-."
    } else if n == 79 || n == 111 {
        "---"
    } else if n == 80 || n == 112 {
        ".--."
    } else if n == 81 || n == 113 {
        "--.-"
    } else if n == 82 || n == 114 {
        ".-."
    } else if n == 83 || n == 115 {
        "..."
    } else if n == 84 || n == 116 {
        "-"
    } else if n == 85 || n == 117 {
        "..-"
    } else if n == 86 || n == 118 {
        "...-"
    } else if n == 87 || n == 119 {
        ".--"
    } else if n == 88 || n == 120 {
        "-..-"
    } else if n == 89 || n == 121 {
        "-.--"
    } else if n == 90 || n == 122 {
        "--.."
    } else if n == 95 {
        "..--.-"
    } else if n == 127 {
        ". . ."
    } else {
        ""
    }
}

/// The Morse code of one character.
pub fn char_to_morse(ch: char, morse_type: MorseType) -> (r: &'static str)
    ensures
        r@ == morse_of(ch),
{
    let n: u32 = ch as u32;
    if n < 32 || n > 127 {
        proof {
            reveal_strlit("");
        }
        return "";
    }
    match morse_type {
        MorseType::International => table_entry(n),
        MorseType::American => table_entry(n),
    }
}

/// Timing and tones of the code.
#[derive(Debug, Clone)]
pub struct MorseConfig {
    pub dit_len: u32,
    pub tone_freq: u32,
    pub space_freq: u32,
    pub morse_type: MorseType,
}

impl Default for MorseConfig {
    /// 80 ms dits of an 800 Hz tone with silent spaces, international code.
    fn default() -> (r: Self)
        ensures
            r.dit_len == 80,
            r.tone_freq == 800,
            r.space_freq == 0,
            r.morse_type == MorseType::International,
    {
        MorseConfig { dit_len: 80, tone_freq: 800, space_freq: 0, morse_type: MorseType::International }
    }
}

/// The `Morsecode()` dialplan application.
#[derive(Debug)]
pub struct AppMorsecode;

impl DialplanApp for AppMorsecode {
    fn name(&self) -> (r: &str)
        ensures
            r@ == "Morsecode"@,
    {
        "Morsecode"
    }

    fn description(&self) -> (r: &str)
        ensures
            r@ == "Plays morse code"@,
    {
        "Plays morse code"
    }
}

} // verus!
