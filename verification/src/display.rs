//! The text lines of the session popup.
use vstd::prelude::*;
use crate::text::{decimal, push_char, push_decimal};

verus! {

/// How long a session has run, from its duration in milliseconds: whole
/// seconds below a minute (`"42s"`), minutes and seconds below an hour
/// (`"5m23s"`), hours and minutes above (`"2h5m"`).
pub open spec fn duration_text(duration_ms: u64) -> Seq<char> {
    let secs = (duration_ms / 1000) as nat;
    if secs >= 3600 {
        decimal(secs / 3600).push('h') + decimal((secs % 3600) / 60).push('m')
    } else if secs >= 60 {
        decimal(secs / 60).push('m') + decimal(secs % 60).push('s')
    } else {
        decimal(secs).push('s')
    }
}

/// The first popup line of a session: `model | project | usage%`.
pub open spec fn headline_text(model_name: Seq<char>, project_dir: Seq<char>, used_percent: u32) -> Seq<char> {
    model_name + " | "@ + project_dir + " | "@ + decimal(used_percent as nat).push('%')
}

/// The popup caption after the cost: `duration | Peak peak% | Agents: n`.
pub open spec fn caption_tail_text(duration_ms: u64, peak_percent: u32, agents: u32) -> Seq<char> {
    duration_text(duration_ms) + " | Peak "@ + decimal(peak_percent as nat).push('%')
        + " | Agents: "@ + decimal(agents as nat)
}

/// Renders a session's duration (see [`duration_text`]).
pub fn duration_display(duration_ms: u64) -> (s: String)
    ensures
        s@ == duration_text(duration_ms),
{
    let secs = duration_ms / 1000;
    let mut s = String::new();
    if secs >= 3600 {
        push_decimal(&mut s, secs / 3600);
        push_char(&mut s, 'h');
        push_decimal(&mut s, (secs % 3600) / 60);
        push_char(&mut s, 'm');
    } else if secs >= 60 {
        push_decimal(&mut s, secs / 60);
        push_char(&mut s, 'm');
        push_decimal(&mut s, secs % 60);
        push_char(&mut s, 's');
    } else {
        push_decimal(&mut s, secs);
        push_char(&mut s, 's');
    }
    assert(s@ =~= duration_text(duration_ms));
    s
}

/// Renders the first popup line of a session (see [`headline_text`]).
pub fn session_headline(model_name: &str, project_dir: &str, used_percent: u32) -> (s: String)
    ensures
        s@ == headline_text(model_name@, project_dir@, used_percent),
{
    let mut s = String::new();
    s.append(model_name);
    s.append(" | ");
    s.append(project_dir);
    s.append(" | ");
    push_decimal(&mut s, used_percent as u64);
    push_char(&mut s, '%');
    assert(s@ =~= headline_text(model_name@, project_dir@, used_percent));
    s
}

/// Renders the popup caption after the cost (see [`caption_tail_text`]).
pub fn caption_tail(duration_ms: u64, peak_percent: u32, agents: u32) -> (s: String)
    ensures
        s@ == caption_tail_text(duration_ms, peak_percent, agents),
{
    let mut s = duration_display(duration_ms);
    s.append(" | Peak ");
    push_decimal(&mut s, peak_percent as u64);
    push_char(&mut s, '%');
    s.append(" | Agents: ");
    push_decimal(&mut s, agents as u64);
    assert(s@ =~= caption_tail_text(duration_ms, peak_percent, agents));
    s
}

} // verus!
