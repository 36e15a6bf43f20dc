use vstd::prelude::*;

verus! {

/// The schemes under which a password can be recorded.
#[derive(Clone, Copy, Debug, PartialEq, Eq, Structural)]
pub enum Hash {
    SSHA,
}

impl Hash {
    /// The scheme that a tag names, if the tag names one.
    pub open spec fn named(tag: Seq<char>) -> Option<Hash> {
        if tag == "SSHA"@ {
            Some(Hash::SSHA)
        } else {
            None
        }
    }

    /// Reads a scheme from its tag. A tag that names no supported scheme
    /// gives `None`.
    pub fn from_str(hash: &str) -> (scheme: Option<Hash>)
        ensures
            scheme == Hash::named(hash@),
    {
        if hash.eq("SSHA") {
            Some(Hash::SSHA)
        } else {
            None
        }
    }
}

} // verus!
