//! The host's greeting: the one request that answers with assembled text.

use vstd::prelude::*;

verus! {

/// Greets the named caller with the host's fixed banner.
pub fn greet(name: &str) -> (r: String)
    ensures
        r@ == "Hello, "@ + name@ + "! You've been greeted from Rust!"@,
{
    let mut r = String::from_str("Hello, ");
    r.append(name);
    r.append("! You've been greeted from Rust!");
    r
}

} // verus!
