//! JACK(): connecting channel audio to a JACK server. This module holds how
//! the `key=value` settings are read.
use crate::text::{
    chars_of, lemma_chars_deep_view, opt_str, split, split_spec, string_from_str,
    string_of, subchars, trim, trim_chars,
};
use crate::DialplanApp;
use vstd::prelude::*;

verus! {

/// The settings of JACK().
#[derive(Debug, Clone, Default)]
pub struct JackOptions {
    pub server_name: Option<String>,
    pub client_name: String,
    pub input_port: Option<String>,
    pub output_port: Option<String>,
    pub no_auto_connect: bool,
}

pub struct JackOptionsView {
    pub server_name: Option<Seq<char>>,
    pub client_name: Seq<char>,
    pub input_port: Option<Seq<char>>,
    pub output_port: Option<Seq<char>>,
    pub no_auto_connect: bool,
}

impl View for JackOptions {
    type V = JackOptionsView;

    open spec fn view(&self) -> JackOptionsView {
        JackOptionsView {
            server_name: opt_str(self.server_name),
            client_name: self.client_name@,
            input_port: opt_str(self.input_port),
            output_port: opt_str(self.output_port),
            no_auto_connect: self.no_auto_connect,
        }
    }
}

/// Whether `p` is `k=` followed by the value.
pub open spec fn keyed(p: Seq<char>, k: char) -> bool {
    p.len() >= 2 && p[0] == k && p[1] == '='
}

/// One trimmed setting: `s=`, `c=`, `i=`, `o=` set a value, `n` turns off
/// automatic connection, anything else is ignored.
pub open spec fn jack_setting(o: JackOptionsView, p: Seq<char>) -> JackOptionsView {
    if keyed(p, 's') {
        JackOptionsView { server_name: Some(p.skip(2)), ..o }
    } else if keyed(p, 'c') {
        JackOptionsView { client_name: p.skip(2), ..o }
    } else if keyed(p, 'i') {
        JackOptionsView { input_port: Some(p.skip(2)), ..o }
    } else if keyed(p, 'o') {
        JackOptionsView { output_port: Some(p.skip(2)), ..o }
    } else if p == seq!['n'] {
        JackOptionsView { no_auto_connect: true, ..o }
    } else {
        o
    }
}

/// The settings of the first `k` pieces, in order.
pub open spec fn jack_settings(parts: Seq<Seq<char>>, k: int) -> JackOptionsView
    decreases k,
{
    if k <= 0 {
        JackOptionsView {
            server_name: None,
            client_name: "asterisk"@,
            input_port: None,
            output_port: None,
            no_auto_connect: false,
        }
    } else {
        jack_setting(jack_settings(parts, k - 1), trim(parts[k - 1]))
    }
}

/// The settings of a comma-separated list.
pub open spec fn jack_options_spec(s: Seq<char>) -> JackOptionsView {
    jack_settings(split_spec(s, ','), split_spec(s, ',').len() as int)
}

fn apply_setting(o: JackOptions, p: &Vec<char>) -> (r: JackOptions)
    ensures
        r@ == jack_setting(o@, p@),
{
    let mut o = o;
    if p.len() >= 2 && p[1] == '=' {
        let val = subchars(p, 2, p.len());
        assert(val@ =~= p@.skip(2));
        let c = p[0];
        if c == 's' {
            o.server_name = Some(string_of(&val));
        } else if c == 'c' {
            o.client_name = string_of(&val);
        } else if c == 'i' {
            o.input_port = Some(string_of(&val));
        } else if c == 'o' {
            o.output_port = Some(string_of(&val));
        }
    } else if p.len() == 1 && p[0] == 'n' {
        assert(p@ =~= seq!['n']);
        o.no_auto_connect = true;
    } else {
        assert(p@ != seq!['n']) by {
            if p@ == seq!['n'] {
                assert(p@.len() == 1);
            }
        }
    }
    o
}

impl JackOptions {
    /// Reads comma-separated `s=server`, `c=client`, `i=port`, `o=port`
    /// and `n`; later settings override earlier ones.
    pub fn parse(args: &str) -> (r: Self)
        ensures
            r@ == jack_options_spec(args@),
    {
        let v = chars_of(args);
        let parts = split(&v, ',');
        proof {
            reveal_strlit("asterisk");
        }
        let mut o = JackOptions {
            server_name: None,
            client_name: string_from_str("asterisk"),
            input_port: None,
            output_port: None,
            no_auto_connect: false,
        };
        let mut k: usize = 0;
        while k < parts.len()
            invariant
                k <= parts.len(),
                parts.deep_view() == split_spec(args@, ','),
                o@ == jack_settings(parts.deep_view(), k as int),
            decreases parts.len() - k,
        {
            proof {
                lemma_chars_deep_view(parts@[k as int]);
            }
            let p = trim_chars(&parts[k]);
            o = apply_setting(o, &p);
            k = k + 1;
        }
        o
    }
}

/// The `JACK()` dialplan application.
#[derive(Debug)]
pub struct AppJack;

impl DialplanApp for AppJack {
    fn name(&self) -> (r: &str)
        ensures
            r@ == "JACK"@,
    {
        "JACK"
    }

    fn description(&self) -> (r: &str)
        ensures
            r@ == "Connect channel audio to JACK audio server"@,
    {
        "Connect channel audio to JACK audio server"
    }
}

} // verus!
