//! A small HTTP relay core: it prepares outbound proxy requests from a
//! declarative description and decides the fallback sequence a connectivity
//! probe walks through when a local server is not reachable at its given
//! address. The network itself is driven by the host process; everything
//! here is the decision logic, stated and proved.

use vstd::prelude::*;

pub mod forward;
pub mod headers;
pub mod method;
pub mod probe;
pub mod text;

verus! {

/// Builds the greeting returned by the host's demo command.
pub fn greet(name: &str) -> (r: String)
    ensures
        r@ == "Hello, "@ + name@ + "! You've been greeted from Rust!"@,
{
    let mut s = String::from_str("Hello, ");
    s.append(name);
    s.append("! You've been greeted from Rust!");
    s
}

} // verus!
