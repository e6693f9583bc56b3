//! FollowMe(): find-me/follow-me. This module holds the profile settings
//! and what the application reads from its arguments.
use crate::opts::{after_paren, lemma_after_paren, opt_chars, opt_string_of, paren_arg, read_paren};
use crate::text::{chars_equal, chars_of, lemma_chars_deep_view, opt_str, splitn, splitn_spec, string_from_str, string_of, trim, trim_chars};
use crate::DialplanApp;
use vstd::prelude::*;

verus! {

/// One number to try, with its ring time and its place in the order.
#[derive(Debug, Clone)]
pub struct FollowMeNumber {
    pub number: String,
    pub timeout: u32,
    pub order: u32,
}

/// A follow-me profile from followme.conf.
#[derive(Debug, Clone)]
pub struct FollowMeProfile {
    pub name: String,
    pub music_class: String,
    pub context: String,
    pub active: bool,
    pub enable_callee_prompt: bool,
    pub take_call: String,
    pub next_indp: String,
    pub call_from_prompt: String,
    pub no_recording_prompt: String,
    pub options_prompt: String,
    pub pls_hold_prompt: String,
    pub status_prompt: String,
    pub sorry_prompt: String,
    pub connected_prompt: String,
    pub numbers: Vec<FollowMeNumber>,
    pub blacklist: Vec<String>,
    pub whitelist: Vec<String>,
}

impl Default for FollowMeProfile {
    /// An active profile with the stock prompts, key 1 to take the call and
    /// key 2 for the next number, and no numbers.
    fn default() -> (r: Self)
        ensures
            r.name@.len() == 0,
            r.music_class@ == "default"@,
            r.context@.len() == 0,
            r.active,
            r.enable_callee_prompt,
            r.take_call@ == "1"@,
            r.next_indp@ == "2"@,
            r.call_from_prompt@ == "followme/call-from"@,
            r.no_recording_prompt@ == "followme/no-recording"@,
            r.options_prompt@ == "followme/options"@,
            r.pls_hold_prompt@ == "followme/pls-hold-while-try"@,
            r.status_prompt@ == "followme/status"@,
            r.sorry_prompt@ == "followme/sorry"@,
            r.connected_prompt@.len() == 0,
            r.numbers@.len() == 0,
            r.blacklist@.len() == 0,
            r.whitelist@.len() == 0,
    {
        FollowMeProfile {
            name: String::new(),
            music_class: string_from_str("default"),
            context: String::new(),
            active: true,
            enable_callee_prompt: true,
            take_call: string_from_str("1"),
            next_indp: string_from_str("2"),
            call_from_prompt: string_from_str("followme/call-from"),
            no_recording_prompt: string_from_str("followme/no-recording"),
            options_prompt: string_from_str("followme/options"),
            pls_hold_prompt: string_from_str("followme/pls-hold-while-try"),
            status_prompt: string_from_str("followme/status"),
            sorry_prompt: string_from_str("followme/sorry"),
            connected_prompt: String::new(),
            numbers: Vec::new(),
            blacklist: Vec::new(),
            whitelist: Vec::new(),
        }
    }
}

/// The position of the profile with the name.
fn find_profile(list: &Vec<FollowMeProfile>, name: &str) -> (r: Option<usize>)
    ensures
        match r {
            Some(i) => i < list@.len() && list@[i as int].name@ == name@,
            None => forall|j: int| 0 <= j < list@.len() ==> list@[j].name@ != name@,
        },
{
    let want = chars_of(name);
    let mut i: usize = 0;
    while i < list.len()
        invariant
            i <= list@.len(),
            want@ == name@,
            forall|j: int| 0 <= j < i ==> list@[j].name@ != name@,
        decreases list@.len() - i,
    {
        let have = chars_of(list[i].name.as_str());
        if chars_equal(&have, &want) {
            return Some(i);
        }
        i = i + 1;
    }
    None
}

/// The Follow-Me profiles, each found by its name.
#[derive(Debug)]
pub struct FollowMeConfig {
    profiles: Vec<FollowMeProfile>,
}

impl FollowMeConfig {
    /// No two profiles share a name.
    #[verifier::type_invariant]
    spec fn names_distinct(self) -> bool {
        forall|i: int, j: int|
            0 <= i < j < self.profiles@.len() ==> self.profiles@[i].name@ != self.profiles@[j].name@
    }

    /// The profiles by name.
    pub closed spec fn profile_map(self) -> Map<Seq<char>, FollowMeProfile> {
        Map::new(
            |n: Seq<char>| exists|i: int| 0 <= i < self.profiles@.len() && (#[trigger] self.profiles@[i]).name@ == n,
            |n: Seq<char>| self.profiles@[choose|i: int| 0 <= i < self.profiles@.len() && (#[trigger] self.profiles@[i]).name@ == n],
        )
    }

    /// No profiles.
    pub fn new() -> (r: Self)
        ensures
            r.profile_map() == Map::<Seq<char>, FollowMeProfile>::empty(),
    {
        let r = FollowMeConfig { profiles: Vec::new() };
        assert(r.profile_map() =~= Map::<Seq<char>, FollowMeProfile>::empty());
        r
    }

    /// Adds the profile under its name, replacing one with that name.
    pub fn add_profile(&mut self, profile: FollowMeProfile)
        ensures
            final(self).profile_map() == old(self).profile_map().insert(profile.name@, profile),
    {
        proof {
            use_type_invariant(&*self);
        }
        let ghost before = self.profiles@;
        let ghost name = profile.name@;
        let ghost pr = profile;
        let mut list: Vec<FollowMeProfile> = Vec::new();
        std::mem::swap(&mut list, &mut self.profiles);
        match find_profile(&list, profile.name.as_str()) {
            Some(i) => {
                list.set(i, profile);
            },
            None => {
                list.push(profile);
            },
        }
        let ghost after = list@;
        proof {
            assert forall|a: int, b: int| 0 <= a < b < after.len() implies after[a].name@ != after[b].name@ by {
                if a < before.len() && b < before.len() {
                    if after[a] != before[a] {
                        assert(before[a].name@ == name);
                    }
                    if after[b] != before[b] {
                        assert(before[b].name@ == name);
                    }
                }
            }
        }
        self.profiles = list;
        proof {
            let m0 = old(self).profile_map();
            let m1 = self.profile_map();
            assert(m1.dom().contains(name)) by {
                if exists|k: int| 0 <= k < before.len() && (#[trigger] before[k]).name@ == name {
                    let k = choose|k: int| 0 <= k < before.len() && (#[trigger] before[k]).name@ == name;
                    assert(after[k].name@ == name);
                } else {
                    assert(after[before.len() as int].name@ == name);
                }
            }
            assert forall|n: Seq<char>| #[trigger] m1.dom().contains(n) <==> m0.insert(name, pr).dom().contains(n) by {
                if n != name {
                    if exists|k: int| 0 <= k < before.len() && (#[trigger] before[k]).name@ == n {
                        let k = choose|k: int| 0 <= k < before.len() && (#[trigger] before[k]).name@ == n;
                        assert(after[k] == before[k]);
                    }
                    if exists|k: int| 0 <= k < after.len() && (#[trigger] after[k]).name@ == n {
                        let k = choose|k: int| 0 <= k < after.len() && (#[trigger] after[k]).name@ == n;
                        assert(k < before.len() && after[k] == before[k]);
                    }
                }
            }
            assert forall|n: Seq<char>| #[trigger] m1.dom().contains(n) implies m1[n] == m0.insert(name, pr)[n] by {
                let k1 = choose|i: int| 0 <= i < after.len() && (#[trigger] after[i]).name@ == n;
                if n == name {
                    assert(after[k1] == pr);
                } else {
                    let k0 = choose|i: int| 0 <= i < before.len() && (#[trigger] before[i]).name@ == n;
                    assert(after[k0] == before[k0]);
                    assert(k1 == k0);
                }
            }
            assert(m1 =~= m0.insert(name, pr));
        }
    }

    /// The profile with the name.
    pub fn get_profile(&self, name: &str) -> (r: Option<&FollowMeProfile>)
        ensures
            match r {
                Some(p) => self.profile_map().dom().contains(name@) && *p == self.profile_map()[name@],
                None => !self.profile_map().dom().contains(name@),
            },
    {
        proof {
            use_type_invariant(self);
        }
        match find_profile(&self.profiles, name) {
            Some(i) => {
                let p = &self.profiles[i];
                proof {
                    let k = choose|k: int| 0 <= k < self.profiles@.len() && (#[trigger] self.profiles@[k]).name@ == name@;
                    assert(k == i);
                }
                Some(p)
            },
            None => None,
        }
    }
}

/// A profile looked up after it was added is the one added, and the other
/// profiles are unchanged.
pub proof fn lemma_profile_read_after_add(c0: FollowMeConfig, c1: FollowMeConfig, p: FollowMeProfile, other: Seq<char>)
    requires
        c1.profile_map() == c0.profile_map().insert(p.name@, p),
    ensures
        c1.profile_map().dom().contains(p.name@),
        c1.profile_map()[p.name@] == p,
        other != p.name@ ==> (c1.profile_map().dom().contains(other) == c0.profile_map().dom().contains(other)
            && (c0.profile_map().dom().contains(other) ==> c1.profile_map()[other] == c0.profile_map()[other])),
{
}

impl Default for FollowMeConfig {
    /// No profiles.
    fn default() -> (r: Self)
        ensures
            r.profile_map() == Map::<Seq<char>, FollowMeProfile>::empty(),
    {
        FollowMeConfig::new()
    }
}

/// The option letters of FollowMe().
#[derive(Debug, Clone, Default)]
pub struct FollowMeOptions {
    pub record_name: bool,
    pub disable_hold_prompt: bool,
    pub ignore_connected_line: bool,
    pub disable_optimization: bool,
    pub no_answer: bool,
    pub unreachable_msg: bool,
    pub status_msg: bool,
    pub predial_caller: Option<String>,
    pub predial_callee: Option<String>,
}

pub struct FollowMeOptionsView {
    pub record_name: bool,
    pub disable_hold_prompt: bool,
    pub ignore_connected_line: bool,
    pub disable_optimization: bool,
    pub no_answer: bool,
    pub unreachable_msg: bool,
    pub status_msg: bool,
    pub predial_caller: Option<Seq<char>>,
    pub predial_callee: Option<Seq<char>>,
}

impl View for FollowMeOptions {
    type V = FollowMeOptionsView;

    open spec fn view(&self) -> FollowMeOptionsView {
        FollowMeOptionsView {
            record_name: self.record_name,
            disable_hold_prompt: self.disable_hold_prompt,
            ignore_connected_line: self.ignore_connected_line,
            disable_optimization: self.disable_optimization,
            no_answer: self.no_answer,
            unreachable_msg: self.unreachable_msg,
            status_msg: self.status_msg,
            predial_caller: opt_str(self.predial_caller),
            predial_callee: opt_str(self.predial_callee),
        }
    }
}

pub open spec fn no_followme_options() -> FollowMeOptionsView {
    FollowMeOptionsView {
        record_name: false,
        disable_hold_prompt: false,
        ignore_connected_line: false,
        disable_optimization: false,
        no_answer: false,
        unreachable_msg: false,
        status_msg: false,
        predial_caller: None,
        predial_callee: None,
    }
}

/// `arg` when there is one, else `cur`.
pub open spec fn replace_if(cur: Option<Seq<char>>, arg: Option<Seq<char>>) -> Option<Seq<char>> {
    match arg {
        Some(a) => Some(a),
        None => cur,
    }
}

/// One option letter; `B(...)` and `b(...)` name predial subroutines.
pub open spec fn followme_letter(o: FollowMeOptionsView, c: char, arg: Option<Seq<char>>) -> FollowMeOptionsView {
    if c == 'a' {
        FollowMeOptionsView { record_name: true, ..o }
    } else if c == 'd' {
        FollowMeOptionsView { disable_hold_prompt: true, ..o }
    } else if c == 'I' {
        FollowMeOptionsView { ignore_connected_line: true, ..o }
    } else if c == 'l' {
        FollowMeOptionsView { disable_optimization: true, ..o }
    } else if c == 'N' {
        FollowMeOptionsView { no_answer: true, ..o }
    } else if c == 'n' {
        FollowMeOptionsView { unreachable_msg: true, ..o }
    } else if c == 's' {
        FollowMeOptionsView { status_msg: true, ..o }
    } else if c == 'B' {
        FollowMeOptionsView { predial_caller: replace_if(o.predial_caller, arg), ..o }
    } else if c == 'b' {
        FollowMeOptionsView { predial_callee: replace_if(o.predial_callee, arg), ..o }
    } else {
        o
    }
}

pub open spec fn followme_from(s: Seq<char>, i: int, o: FollowMeOptionsView) -> FollowMeOptionsView
    decreases s.len() - i,
{
    if i < 0 || i >= s.len() {
        o
    } else if s[i] == 'B' || s[i] == 'b' {
        proof {
            lemma_after_paren(s, i + 1);
        }
        followme_from(s, after_paren(s, i + 1), followme_letter(o, s[i], paren_arg(s, i + 1)))
    } else {
        followme_from(s, i + 1, followme_letter(o, s[i], None))
    }
}

/// The options an option string asks for.
pub open spec fn followme_options_spec(s: Seq<char>) -> FollowMeOptionsView {
    followme_from(s, 0, no_followme_options())
}

fn followme_apply(o: FollowMeOptions, c: char, arg: Option<Vec<char>>) -> (r: FollowMeOptions)
    ensures
        r@ == followme_letter(o@, c, opt_chars(arg)),
{
    let mut o = o;
    if c == 'a' {
        o.record_name = true;
    } else if c == 'd' {
        o.disable_hold_prompt = true;
    } else if c == 'I' {
        o.ignore_connected_line = true;
    } else if c == 'l' {
        o.disable_optimization = true;
    } else if c == 'N' {
        o.no_answer = true;
    } else if c == 'n' {
        o.unreachable_msg = true;
    } else if c == 's' {
        o.status_msg = true;
    } else if c == 'B' {
        if arg.is_some() {
            o.predial_caller = opt_string_of(&arg);
        }
    } else if c == 'b' {
        if arg.is_some() {
            o.predial_callee = opt_string_of(&arg);
        }
    }
    o
}

impl FollowMeOptions {
    /// Reads the option letters; unknown letters are ignored.
    pub fn parse(opts: &str) -> (r: Self)
        ensures
            r@ == followme_options_spec(opts@),
    {
        let v = chars_of(opts);
        let mut o = FollowMeOptions {
            record_name: false,
            disable_hold_prompt: false,
            ignore_connected_line: false,
            disable_optimization: false,
            no_answer: false,
            unreachable_msg: false,
            status_msg: false,
            predial_caller: None,
            predial_callee: None,
        };
        let mut i: usize = 0;
        while i < v.len()
            invariant
                i <= v.len(),
                v@ == opts@,
                followme_options_spec(opts@) == followme_from(v@, i as int, o@),
            decreases v.len() - i,
        {
            let c = v[i];
            if c == 'B' || c == 'b' {
                let (arg, next) = read_paren(&v, i + 1);
                o = followme_apply(o, c, arg);
                i = next;
            } else {
                o = followme_apply(o, c, None);
                i = i + 1;
            }
        }
        o
    }
}

/// The `FollowMe()` dialplan application.
#[derive(Debug)]
pub struct AppFollowMe;

impl DialplanApp for AppFollowMe {
    fn name(&self) -> (r: &str)
        ensures
            r@ == "FollowMe"@,
    {
        "FollowMe"
    }

    fn description(&self) -> (r: &str)
        ensures
            r@ == "Find-Me/Follow-Me application"@,
    {
        "Find-Me/Follow-Me application"
    }
}

impl AppFollowMe {
    /// The profile name and the options of `followmeid[,options]`; `None`
    /// when the name is blank, and the application fails.
    pub fn request(args: &str) -> (r: Option<(String, FollowMeOptions)>)
        ensures
            ({
                let p = splitn_spec(args@, 2, ',');
                match r {
                    None => trim(p[0]).len() == 0,
                    Some(x) => trim(p[0]).len() > 0 && x.0@ == trim(p[0]) && x.1@ == (if p.len()
                        > 1 {
                        followme_options_spec(trim(p[1]))
                    } else {
                        no_followme_options()
                    }),
                }
            }),
    {
        let v = chars_of(args);
        let parts = splitn(&v, 2, ',');
        proof {
            lemma_chars_deep_view(parts@[0]);
        }
        let id = trim_chars(&parts[0]);
        if id.len() == 0 {
            return None;
        }
        let options = if parts.len() > 1 {
            proof {
                lemma_chars_deep_view(parts@[1]);
            }
            let o = string_of(&trim_chars(&parts[1]));
            FollowMeOptions::parse(o.as_str())
        } else {
            FollowMeOptions::parse("")
        };
        assert(followme_options_spec(""@) == no_followme_options()) by {
            reveal_strlit("");
        }
        Some((string_of(&id), options))
    }
}

} // verus!
