//! Pickup() and PickupChan(): answering a call that rings elsewhere. This
//! module holds how the pickup targets and the options are read.
use crate::text::{
    chars_eq_ignore_ascii_case, chars_of, contains_char, eq_ignore_ascii_case, find_char,
    index_of, lemma_chars_deep_view, lemma_index_of_props, split, split_spec, splitn, splitn_spec,
    str_views, string_from_str, string_of, subchars, trim, trim_chars, trimmed_nonblank, trimmed_nonblank_of,
};
use crate::DialplanApp;
use vstd::prelude::*;

verus! {

/// The context that marks a pickup by channel mark.
pub const PICKUP_MARK_CONTEXT: &'static str = "PICKUPMARK";

/// How a call is found to pick up.
#[derive(Debug, Clone, PartialEq, Eq)]
pub enum PickupMethod {
    Extension { extension: String, context: String },
    Mark(String),
    Group,
}

pub enum PickupView {
    Extension { extension: Seq<char>, context: Seq<char> },
    Mark(Seq<char>),
    Group,
}

impl View for PickupMethod {
    type V = PickupView;

    open spec fn view(&self) -> PickupView {
        match self {
            PickupMethod::Extension { extension, context } => PickupView::Extension {
                extension: extension@,
                context: context@,
            },
            PickupMethod::Mark(m) => PickupView::Mark(m@),
            PickupMethod::Group => PickupView::Group,
        }
    }
}

pub open spec fn pickup_views(v: Seq<PickupMethod>) -> Seq<PickupView> {
    v.map_values(|m: PickupMethod| m@)
}

/// The option letters of PickupChan().
#[derive(Debug, Clone, Default, PartialEq, Eq, Structural)]
pub struct PickupChanOptions {
    /// `p`: channel names are prefixes.
    pub partial_match: bool,
}

impl PickupChanOptions {
    /// Reads the option letters; unknown letters are ignored.
    pub fn parse(opts: &str) -> (r: Self)
        ensures
            r.partial_match == opts@.contains('p'),
    {
        let v = chars_of(opts);
        PickupChanOptions { partial_match: contains_char(&v, 'p') }
    }
}

/// One trimmed, non-blank target: `exten@context` (the default context
/// when blank), `mark@PICKUPMARK` (in any case), or a bare extension.
pub open spec fn pickup_target(t: Seq<char>, default_context: Seq<char>) -> PickupView {
    let at = index_of(t, '@');
    if at >= 0 {
        let ctx = t.skip(at + 1);
        if eq_ignore_ascii_case(ctx, "PICKUPMARK"@) {
            PickupView::Mark(t.take(at))
        } else {
            PickupView::Extension {
                extension: t.take(at),
                context: if ctx.len() == 0 {
                    default_context
                } else {
                    ctx
                },
            }
        }
    } else {
        PickupView::Extension { extension: t, context: default_context }
    }
}

/// The targets of the first `k` non-blank pieces.
pub open spec fn pickup_targets_of(ts: Seq<Seq<char>>, default_context: Seq<char>) -> Seq<PickupView> {
    ts.map_values(|t: Seq<char>| pickup_target(t, default_context))
}

/// The targets of `ext[@ctx][&ext2[@ctx2]...]`; a blank text picks up
/// from the group.
pub open spec fn pickup_targets_spec(args: Seq<char>, default_context: Seq<char>) -> Seq<PickupView> {
    if trim(args).len() == 0 {
        seq![PickupView::Group]
    } else {
        pickup_targets_of(trimmed_nonblank(split_spec(args, '&')), default_context)
    }
}

fn target_of(t: &Vec<char>, default_context: &str) -> (r: PickupMethod)
    ensures
        r@ == pickup_target(t@, default_context@),
{
    proof {
        lemma_index_of_props(t@, '@');
    }
    match find_char(t, '@') {
        Some(at) => {
            let ext = subchars(t, 0, at);
            let ctx = subchars(t, at + 1, t.len());
            assert(ext@ =~= t@.take(at as int));
            assert(ctx@ =~= t@.skip(at + 1));
            let mark = chars_of("PICKUPMARK");
            if chars_eq_ignore_ascii_case(&ctx, &mark) {
                PickupMethod::Mark(string_of(&ext))
            } else {
                let context = if ctx.len() == 0 {
                    string_from_str(default_context)
                } else {
                    string_of(&ctx)
                };
                PickupMethod::Extension { extension: string_of(&ext), context }
            }
        },
        None => PickupMethod::Extension {
            extension: string_of(t),
            context: string_from_str(default_context),
        },
    }
}

/// The pickup targets named by the arguments.
pub fn parse_pickup_targets(args: &str, default_context: &str) -> (r: Vec<PickupMethod>)
    ensures
        pickup_views(r@) == pickup_targets_spec(args@, default_context@),
{
    let v = chars_of(args);
    if trim_chars(&v).len() == 0 {
        let r = vec![PickupMethod::Group];
        assert(pickup_views(r@) =~= seq![PickupView::Group]);
        return r;
    }
    let pieces = split(&v, '&');
    let names = trimmed_nonblank_of(&pieces);
    let ghost ts = trimmed_nonblank(split_spec(args@, '&'));
    let mut r: Vec<PickupMethod> = Vec::new();
    let mut k: usize = 0;
    while k < names.len()
        invariant
            k <= names.len(),
            str_views(names@) == ts,
            pickup_views(r@) == pickup_targets_of(ts.take(k as int), default_context@),
        decreases names.len() - k,
    {
        let t = chars_of(names[k].as_str());
        assert(t@ == ts[k as int]);
        let m = target_of(&t, default_context);
        let ghost before = r@;
        r.push(m);
        assert(pickup_views(r@) =~= pickup_targets_of(ts.take(k + 1), default_context@)) by {
            assert(ts.take(k + 1) =~= ts.take(k as int).push(ts[k as int]));
            assert(pickup_views(r@) =~= pickup_views(before).push(m@));
        }
        k = k + 1;
    }
    assert(ts.take(names.len() as int) =~= ts);
    r
}

/// The `Pickup()` dialplan application.
#[derive(Debug)]
pub struct AppPickup;

impl DialplanApp for AppPickup {
    fn name(&self) -> (r: &str)
        ensures
            r@ == "Pickup"@,
    {
        "Pickup"
    }

    fn description(&self) -> (r: &str)
        ensures
            r@ == "Directed extension call pickup"@,
    {
        "Directed extension call pickup"
    }
}

/// The `PickupChan()` dialplan application.
#[derive(Debug)]
pub struct AppPickupChan;

impl DialplanApp for AppPickupChan {
    fn name(&self) -> (r: &str)
        ensures
            r@ == "PickupChan"@,
    {
        "PickupChan"
    }

    fn description(&self) -> (r: &str)
        ensures
            r@ == "Pickup a ringing channel"@,
    {
        "Pickup a ringing channel"
    }
}

impl AppPickupChan {
    /// The channel names and options of `channel[&channel...][,options]`;
    /// `None` when the channel text is blank (the application then goes
    /// on without picking up).
    pub fn request(args: &str) -> (r: Option<(Vec<String>, PickupChanOptions)>)
        ensures
            ({
                let p = splitn_spec(args@, 2, ',');
                match r {
                    None => trim(p[0]).len() == 0,
                    Some(x) => trim(p[0]).len() > 0 && str_views(x.0@) == trimmed_nonblank(
                        split_spec(trim(p[0]), '&'),
                    ) && x.1.partial_match == (p.len() > 1 && trim(p[1]).contains('p')),
                }
            }),
    {
        let v = chars_of(args);
        let parts = splitn(&v, 2, ',');
        proof {
            lemma_chars_deep_view(parts@[0]);
        }
        let list = trim_chars(&parts[0]);
        if list.len() == 0 {
            return None;
        }
        let names = trimmed_nonblank_of(&split(&list, '&'));
        let partial = if parts.len() > 1 {
            proof {
                lemma_chars_deep_view(parts@[1]);
            }
            contains_char(&trim_chars(&parts[1]), 'p')
        } else {
            false
        };
        Some((names, PickupChanOptions { partial_match: partial }))
    }
}

} // verus!
