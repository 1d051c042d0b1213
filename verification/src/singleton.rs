//! The name under which a running instance registers itself.
//!
//! The host runtime enforces that at most one instance grabs the input hooks
//! at a time, by holding an OS mutex under a well-known global name. The name
//! is built here so that its shape is pinned down: the `Global\` namespace
//! prefix, the instance name, and a terminating NUL for the OS call.

use vstd::prelude::*;
use vstd::string::StringExecFns;

verus! {

/// The full OS mutex name for the given instance name: the `Global\` prefix,
/// then the name itself, then a single terminating NUL character.
pub fn get_mutex_full_name(name: &str) -> (full: String)
    ensures
        full@ == "Global\\"@ + name@ + "\u{0}"@,
{
    let mut full = String::from_str("Global\\");
    full.append(name);
    full.append("\u{0}");
    full
}

} // verus!
