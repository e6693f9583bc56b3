//! MiniVM: the building blocks of a small voicemail system. This module
//! holds the accounts, their spool paths, and what the applications read
//! from their arguments.
use crate::text::{
    chars_of, contains_char, lemma_chars_deep_view, path_join, path_join_strings, push_char,
    push_str, splitn, splitn_spec, string_from_str, string_of, trim, trim_chars, trimmed_piece,
    trimmed_piece_of,
};
use crate::DialplanApp;
use vstd::prelude::*;

verus! {

/// A MiniVM account.
#[derive(Debug, Clone)]
pub struct MinivmAccount {
    pub username: String,
    pub domain: String,
    pub fullname: String,
    pub email: String,
    pub language: String,
    pub timezone: String,
    pub spool_dir: String,
    pub attach_voicemail: bool,
    pub max_message_secs: u32,
    pub max_greeting_secs: u32,
}

/// The kinds of greeting an account records.
#[derive(Debug, Clone, Copy, PartialEq, Eq, Structural)]
pub enum GreetingType {
    Unavailable,
    Busy,
    Temporary,
    Name,
}

/// The file name of a greeting.
pub open spec fn greeting_file(t: GreetingType) -> Seq<char> {
    match t {
        GreetingType::Unavailable => "unavail"@,
        GreetingType::Busy => "busy"@,
        GreetingType::Temporary => "temp"@,
        GreetingType::Name => "greet"@,
    }
}

/// The spool directory of `user@domain`.
pub open spec fn spool_dir_of(username: Seq<char>, domain: Seq<char>) -> Seq<char> {
    "/var/spool/asterisk/voicemail/"@ + domain + seq!['/'] + username
}

impl MinivmAccount {
    /// An account with the stock settings: US English, eastern time,
    /// voicemail attached, five-minute messages, one-minute greetings.
    pub fn new(username: &str, domain: &str) -> (r: Self)
        ensures
            r.username@ == username@,
            r.domain@ == domain@,
            r.fullname@.len() == 0,
            r.email@.len() == 0,
            r.language@ == "en_us"@,
            r.timezone@ == "eastern"@,
            r.spool_dir@ == spool_dir_of(username@, domain@),
            r.attach_voicemail,
            r.max_message_secs == 300,
            r.max_greeting_secs == 60,
    {
        let mut spool = string_from_str("/var/spool/asterisk/voicemail/");
        push_str(&mut spool, domain);
        push_char(&mut spool, '/');
        push_str(&mut spool, username);
        MinivmAccount {
            username: string_from_str(username),
            domain: string_from_str(domain),
            fullname: String::new(),
            email: String::new(),
            language: string_from_str("en_us"),
            timezone: string_from_str("eastern"),
            spool_dir: spool,
            attach_voicemail: true,
            max_message_secs: 300,
            max_greeting_secs: 60,
        }
    }

    /// `user@domain`.
    pub fn mailbox_id(&self) -> (r: String)
        ensures
            r@ == self.username@ + seq!['@'] + self.domain@,
    {
        let mut r = self.username.clone();
        push_char(&mut r, '@');
        push_str(&mut r, self.domain.as_str());
        r
    }

    /// The path of a greeting file in the spool directory.
    pub fn greeting_path(&self, greeting_type: GreetingType) -> (r: String)
        ensures
            r@ == path_join(self.spool_dir@, greeting_file(greeting_type)),
    {
        let f = match greeting_type {
            GreetingType::Unavailable => string_from_str("unavail"),
            GreetingType::Busy => string_from_str("busy"),
            GreetingType::Temporary => string_from_str("temp"),
            GreetingType::Name => string_from_str("greet"),
        };
        path_join_strings(&self.spool_dir, &f)
    }
}

/// The arguments of `MinivmRecord(user@domain[,options[,format]])`.
#[derive(Debug, Clone)]
pub struct MinivmRecordArgs {
    pub mailbox: String,
    pub format: String,
    pub max_duration: u32,
    pub terminate_key: String,
    pub beep: bool,
    pub gain: i32,
}

pub open spec fn minivm_parts(s: Seq<char>) -> Seq<Seq<char>> {
    splitn_spec(s, 3, ',')
}

/// The trimmed option piece, or nothing.
pub open spec fn minivm_option_text(s: Seq<char>) -> Seq<char> {
    trimmed_piece(minivm_parts(s), 1)
}

impl MinivmRecordArgs {
    /// Parses the arguments; the mailbox must be `user@domain`.
    pub fn parse(args: &str) -> (r: Result<Self, String>)
        ensures
            ({
                let p = minivm_parts(args@);
                let mailbox = trim(p[0]);
                match r {
                    Err(e) => (mailbox.len() == 0 || !mailbox.contains('@')) && e@
                        == "mailbox must be in user@domain format"@,
                    Ok(a) => {
                        &&& mailbox.len() > 0 && mailbox.contains('@')
                        &&& a.mailbox@ == mailbox
                        &&& a.format@ == (if p.len() > 2 {
                            trim(p[2])
                        } else {
                            "wav"@
                        })
                        &&& a.max_duration == 0
                        &&& a.terminate_key@ == "#"@
                        &&& a.beep == !minivm_option_text(args@).contains('s')
                        &&& a.gain == (if minivm_option_text(args@).contains('g') {
                            5i32
                        } else {
                            0i32
                        })
                    },
                }
            }),
    {
        let v = chars_of(args);
        let parts = splitn(&v, 3, ',');
        proof {
            lemma_chars_deep_view(parts@[0]);
        }
        let mailbox = trim_chars(&parts[0]);
        if mailbox.len() == 0 || !contains_char(&mailbox, '@') {
            return Err(string_from_str("mailbox must be in user@domain format"));
        }
        let format = if parts.len() > 2 {
            proof {
                lemma_chars_deep_view(parts@[2]);
            }
            string_of(&trim_chars(&parts[2]))
        } else {
            string_from_str("wav")
        };
        let opts = trimmed_piece_of(&parts, 1);
        let beep = !contains_char(&opts, 's');
        let gain: i32 = if contains_char(&opts, 'g') {
            5
        } else {
            0
        };
        Ok(
            MinivmRecordArgs {
                mailbox: string_of(&mailbox),
                format,
                max_duration: 0,
                terminate_key: string_from_str("#"),
                beep,
                gain,
            },
        )
    }
}

/// The `MinivmRecord()` dialplan application.
#[derive(Debug)]
pub struct AppMinivmRecord;

impl DialplanApp for AppMinivmRecord {
    fn name(&self) -> (r: &str)
        ensures
            r@ == "MinivmRecord"@,
    {
        "MinivmRecord"
    }

    fn description(&self) -> (r: &str)
        ensures
            r@ == "Receive and record a minivm voicemail message"@,
    {
        "Receive and record a minivm voicemail message"
    }
}

/// The `MinivmGreet()` dialplan application.
#[derive(Debug)]
pub struct AppMinivmGreet;

impl DialplanApp for AppMinivmGreet {
    fn name(&self) -> (r: &str)
        ensures
            r@ == "MinivmGreet"@,
    {
        "MinivmGreet"
    }

    fn description(&self) -> (r: &str)
        ensures
            r@ == "Play a minivm greeting"@,
    {
        "Play a minivm greeting"
    }
}

/// The `MinivmNotify()` dialplan application.
#[derive(Debug)]
pub struct AppMinivmNotify;

impl DialplanApp for AppMinivmNotify {
    fn name(&self) -> (r: &str)
        ensures
            r@ == "MinivmNotify"@,
    {
        "MinivmNotify"
    }

    fn description(&self) -> (r: &str)
        ensures
            r@ == "Notify a minivm user about a new message"@,
    {
        "Notify a minivm user about a new message"
    }
}

/// The `MinivmDelete()` dialplan application.
#[derive(Debug)]
pub struct AppMinivmDelete;

impl DialplanApp for AppMinivmDelete {
    fn name(&self) -> (r: &str)
        ensures
            r@ == "MinivmDelete"@,
    {
        "MinivmDelete"
    }

    fn description(&self) -> (r: &str)
        ensures
            r@ == "Delete a minivm voicemail message"@,
    {
        "Delete a minivm voicemail message"
    }
}

/// The `MinivmAccMess()` dialplan application.
#[derive(Debug)]
pub struct AppMinivmAccMess;

impl DialplanApp for AppMinivmAccMess {
    fn name(&self) -> (r: &str)
        ensures
            r@ == "MinivmAccMess"@,
    {
        "MinivmAccMess"
    }

    fn description(&self) -> (r: &str)
        ensures
            r@ == "Record a minivm account greeting"@,
    {
        "Record a minivm account greeting"
    }
}

/// The greeting `MinivmAccMess(mailbox,options)` records: `b` busy, else
/// `t` temporary, else `n` name, else unavailable.
pub open spec fn acc_mess_greeting(opts: Option<Seq<char>>) -> GreetingType {
    match opts {
        Some(o) => if o.contains('b') {
            GreetingType::Busy
        } else if o.contains('t') {
            GreetingType::Temporary
        } else if o.contains('n') {
            GreetingType::Name
        } else {
            GreetingType::Unavailable
        },
        None => GreetingType::Unavailable,
    }
}

impl AppMinivmAccMess {
    /// The mailbox and the greeting of `mailbox[,options]`; `None` when
    /// the mailbox piece is empty, and the application fails.
    pub fn request(args: &str) -> (r: Option<(String, GreetingType)>)
        ensures
            ({
                let p = splitn_spec(args@, 2, ',');
                match r {
                    None => p[0].len() == 0,
                    Some(x) => p[0].len() > 0 && x.0@ == trim(p[0]) && x.1 == acc_mess_greeting(
                        if p.len() > 1 {
                            Some(p[1])
                        } else {
                            None
                        },
                    ),
                }
            }),
    {
        let v = chars_of(args);
        let parts = splitn(&v, 2, ',');
        proof {
            lemma_chars_deep_view(parts@[0]);
        }
        if parts[0].len() == 0 {
            return None;
        }
        let mailbox = string_of(&trim_chars(&parts[0]));
        let g = if parts.len() > 1 {
            proof {
                lemma_chars_deep_view(parts@[1]);
            }
            let o = &parts[1];
            if contains_char(o, 'b') {
                GreetingType::Busy
            } else if contains_char(o, 't') {
                GreetingType::Temporary
            } else if contains_char(o, 'n') {
                GreetingType::Name
            } else {
                GreetingType::Unavailable
            }
        } else {
            GreetingType::Unavailable
        };
        Some((mailbox, g))
    }
}

impl AppMinivmDelete {
    /// The message file to delete: the argument trimmed; none when it is
    /// blank (the application fails).
    pub fn target(args: &str) -> (r: Option<String>)
        ensures
            match r {
                Some(f) => trim(args@).len() > 0 && f@ == trim(args@),
                None => trim(args@).len() == 0,
            },
    {
        let t = trim_chars(&chars_of(args));
        if t.len() == 0 {
            None
        } else {
            Some(string_of(&t))
        }
    }
}

} // verus!
