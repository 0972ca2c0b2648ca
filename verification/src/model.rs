//! Classification of a model's display name ("Opus 4.6", "Sonnet", ...).
use vstd::prelude::*;
use crate::text::{first_word, first_word_bounds, str_eq};

verus! {

/// The model family named by the first word of a display name, as a rank:
/// Opus 0, Sonnet 1, Haiku 2, anything else 3.
pub open spec fn model_rank(display_name: Seq<char>) -> nat {
    let w = first_word(display_name);
    if w == "Opus"@ {
        0
    } else if w == "Sonnet"@ {
        1
    } else if w == "Haiku"@ {
        2
    } else {
        3
    }
}

/// The name of the model family of rank `r`.
pub open spec fn rank_name(r: nat) -> Seq<char> {
    if r == 0 {
        "Opus"@
    } else if r == 1 {
        "Sonnet"@
    } else if r == 2 {
        "Haiku"@
    } else {
        "Unknown"@
    }
}

/// The model family of a display name: `"Opus"`, `"Sonnet"`, `"Haiku"`, or
/// `"Unknown"`.
pub open spec fn model_type_name(display_name: Seq<char>) -> Seq<char> {
    rank_name(model_rank(display_name))
}

/// The rank of the model family that `display_name` starts with.
pub fn model_rank_of(display_name: &str) -> (r: u8)
    ensures
        r as nat == model_rank(display_name@),
        r <= 3,
{
    let (a, b) = first_word_bounds(display_name);
    let w = display_name.substring_char(a, b);
    if str_eq(w, "Opus") {
        0
    } else if str_eq(w, "Sonnet") {
        1
    } else if str_eq(w, "Haiku") {
        2
    } else {
        3
    }
}

/// Returns the model family of a display name such as `"Opus 4.6"` or
/// `"Sonnet"`: its first white-space separated word when that is `Opus`,
/// `Sonnet` or `Haiku`, and `"Unknown"` otherwise.
pub fn model_type(display_name: &str) -> (r: &'static str)
    ensures
        r@ == model_type_name(display_name@),
{
    let rank = model_rank_of(display_name);
    if rank == 0 {
        "Opus"
    } else if rank == 1 {
        "Sonnet"
    } else if rank == 2 {
        "Haiku"
    } else {
        "Unknown"
    }
}

} // verus!
