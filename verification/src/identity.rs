//! One git identity and its mathematical model.

use vstd::prelude::*;
use vstd::std_specs::cmp::PartialEqSpecImpl;

verus! {

/// The model of a git identity: the email address and the name, each as the
/// sequence of its characters.
pub struct Identity {
    pub email: Seq<char>,
    pub name: Seq<char>,
}

/// An email address and a name, as git records the author of a commit.
#[derive(Debug)]
pub struct GitId {
    pub email: String,
    pub name: String,
}

impl View for GitId {
    type V = Identity;

    open spec fn view(&self) -> Identity {
        Identity { email: self.email@, name: self.name@ }
    }
}

impl PartialEq for GitId {
    /// Two identities are equal when both fields are.
    fn eq(&self, other: &GitId) -> (same: bool) {
        self.email == other.email && self.name == other.name
    }
}

impl PartialEqSpecImpl for GitId {
    open spec fn obeys_eq_spec() -> bool {
        true
    }

    open spec fn eq_spec(&self, other: &GitId) -> bool {
        self@ == other@
    }
}

impl Eq for GitId {

}

impl Clone for GitId {
    fn clone(&self) -> (copy: GitId)
        ensures
            copy@ == self@,
    {
        GitId { email: self.email.clone(), name: self.name.clone() }
    }
}

impl GitId {
    /// Builds an identity from an email address and a name.
    pub fn new(email: &str, name: &str) -> (id: GitId)
        ensures
            id@ == (Identity { email: email@, name: name@ }),
    {
        GitId { email: email.to_owned(), name: name.to_owned() }
    }
}

} // verus!
