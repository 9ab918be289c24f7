//! The identity of a session: an opaque key, compared for equality and shown
//! in relayed lines, never parsed.

use vstd::prelude::*;
use vstd::std_specs::cmp::PartialEqSpecImpl;

verus! {

/// Names one session. It is made from the readable form of the connection's
/// remote endpoint; two identities are the same when their labels are.
#[derive(Debug)]
pub struct Identity {
    label: String,
}

impl View for Identity {
    type V = Seq<char>;

    closed spec fn view(&self) -> Seq<char> {
        self.label@
    }
}

impl Identity {
    /// The identity whose readable form is `label`.
    pub fn new(label: String) -> (id: Identity)
        ensures
            id@ == label@,
    {
        Identity { label }
    }

    /// The readable form, as it is shown in front of a relayed line.
    pub fn label(&self) -> (label: &str)
        ensures
            label@ == self@,
    {
        self.label.as_str()
    }
}

impl Clone for Identity {
    fn clone(&self) -> (copy: Identity)
        ensures
            copy == *self,
    {
        Identity { label: self.label.clone() }
    }
}

impl PartialEq for Identity {
    fn eq(&self, other: &Identity) -> (same: bool) {
        self.label == other.label
    }
}

impl Eq for Identity {

}

impl PartialEqSpecImpl for Identity {
    open spec fn obeys_eq_spec() -> bool {
        true
    }

    open spec fn eq_spec(&self, other: &Identity) -> bool {
        self@ == other@
    }
}

} // verus!
