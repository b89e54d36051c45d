//! The state the command line front end keeps between menu actions.

use vstd::prelude::*;

use crate::session::Meroshare;

verus! {

/// The front end's state: the session with the service.
pub struct Handler {
    pub meroshare: Meroshare,
}

impl Handler {
    /// A front end with a fresh session: no token kept, no capital known.
    pub fn new() -> (h: Handler)
        ensures
            h.meroshare.wf(),
            h.meroshare.tokens() == Map::<Seq<char>, Seq<char>>::empty(),
            h.meroshare.capitals() == Seq::<(Seq<char>, u32)>::empty(),
    {
        Handler { meroshare: Meroshare::new() }
    }
}

} // verus!
