//! The entries a user picks from.

use vstd::prelude::*;

use crate::naming::{display_name, last_component};

verus! {

/// One entry of the candidate store: the text of a path, and the name shown for it,
/// which is the path's last component.
#[derive(Debug, PartialEq, Eq)]
pub struct Candidate {
    path: String,
    name: String,
}

/// A candidate as a value: its path and its name, as code points.
pub struct CandidateView {
    pub path: Seq<char>,
    pub name: Seq<char>,
}

impl View for Candidate {
    type V = CandidateView;

    closed spec fn view(&self) -> CandidateView {
        CandidateView { path: self.path@, name: self.name@ }
    }
}

impl Candidate {
    #[verifier::type_invariant]
    spec fn inv(self) -> bool {
        self.name@ == display_name(self.path@)
    }

    /// The candidate for a path, named after the path's last component.
    pub fn new(path: String) -> (c: Candidate)
        ensures
            c@.path == path@,
            c@.name == display_name(path@),
    {
        let name = last_component(path.as_str());
        Candidate { path, name }
    }

    /// The text of the path.
    pub fn path(&self) -> (path: &str)
        ensures
            path@ == self@.path,
    {
        self.path.as_str()
    }

    /// The name shown for the path: its last component.
    pub fn name(&self) -> (name: &str)
        ensures
            name@ == self@.name,
            name@ == display_name(self@.path),
    {
        proof {
            use_type_invariant(self);
        }
        self.name.as_str()
    }
}

impl Clone for Candidate {
    fn clone(&self) -> (c: Candidate)
        ensures
            c == *self,
    {
        proof {
            use_type_invariant(self);
        }
        Candidate { path: self.path.clone(), name: self.name.clone() }
    }
}

} // verus!
