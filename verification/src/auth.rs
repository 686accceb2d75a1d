//! Who may pass: the decision of the basic authentication in front of the
//! store.

use vstd::prelude::*;

verus! {

/// Whether a request passes. Where no name and password are expected, every
/// request passes. Where they are, a request that presents none is turned
/// away, and one that presents a pair is turned away only where both its
/// name and its password differ from the expected ones.
pub open spec fn admits(
    expected: Option<(Seq<char>, Seq<char>)>,
    presented: Option<(Seq<char>, Seq<char>)>,
) -> bool {
    match expected {
        None => true,
        Some(e) => match presented {
            None => false,
            Some(p) => !(p.0 != e.0 && p.1 != e.1),
        },
    }
}

/// The views of a name and a password.
pub open spec fn pair_view(pair: Option<(String, String)>) -> Option<(Seq<char>, Seq<char>)> {
    match pair {
        None => None,
        Some(p) => Some((p.0@, p.1@)),
    }
}

pub fn admitted(expected: Option<(String, String)>, presented: Option<(String, String)>) -> (ok:
    bool)
    ensures
        ok == admits(pair_view(expected), pair_view(presented)),
{
    match expected {
        None => true,
        Some(e) => match presented {
            None => false,
            Some(p) => p.0 == e.0 || p.1 == e.1,
        },
    }
}

} // verus!
