//! Ledger principals, compared by their strkey text.

use vstd::prelude::*;

verus! {

/// A ledger principal (account or contract), identified by its strkey text.
///
/// Two addresses denote the same principal exactly when their texts agree.
#[derive(Debug)]
pub struct Address {
    strkey: String,
}

impl View for Address {
    type V = Seq<char>;

    closed spec fn view(&self) -> Seq<char> {
        self.strkey@
    }
}

impl Address {
    /// Builds the address whose strkey is `strkey`.
    pub fn new(strkey: &str) -> (r: Address)
        ensures
            r@ == strkey@,
    {
        Address { strkey: strkey.to_owned() }
    }

    /// The strkey text of this address.
    pub fn as_str(&self) -> (r: &str)
        ensures
            r@ == self@,
    {
        self.strkey.as_str()
    }
}

impl Clone for Address {
    fn clone(&self) -> (r: Self)
        ensures
            r == *self,
    {
        Address { strkey: self.strkey.clone() }
    }
}

impl PartialEq for Address {
    fn eq(&self, other: &Address) -> (r: bool) {
        self.strkey == other.strkey
    }
}

impl vstd::std_specs::cmp::PartialEqSpecImpl for Address {
    open spec fn obeys_eq_spec() -> bool {
        true
    }

    open spec fn eq_spec(&self, other: &Address) -> bool {
        self@ == other@
    }
}

impl Eq for Address {}

} // verus!
