//! Settings, as the host hands them over: in its cache, under keys of their own.

use vstd::prelude::*;

use crate::text::cat::cat;
use crate::text::table::Table;

verus! {

/// The value of a variable, or `default` where the host has none.
pub open spec fn env_value(
    cache: Map<Seq<char>, String>,
    var: Seq<char>,
    default: Seq<char>,
) -> Seq<char> {
    let key = "__env:"@ + var;
    if cache.contains_key(key) {
        cache[key]@
    } else {
        default
    }
}

/// Looks a variable up in the host's cache, where it stands under `__env:`
/// and its name.
pub fn env_or(cache: &Table<String>, var: &str, default: &str) -> (r: String)
    ensures
        r@ == env_value(cache@, var@, default@),
{
    let key = cat("__env:", var);
    match cache.get(key.as_str()) {
        Some(v) => v.clone(),
        None => default.to_owned(),
    }
}

/// A variable that the host has is read from under `__env:`, whatever the
/// default is, and the default counts where the host has none.
pub proof fn variables_stand_under_their_key(
    cache: Map<Seq<char>, String>,
    var: Seq<char>,
    value: String,
    default: Seq<char>,
)
    ensures
        env_value(cache.insert("__env:"@ + var, value), var, default) == value@,
        !cache.contains_key("__env:"@ + var) ==> env_value(cache, var, default) == default,
{
}

} // verus!
