//! Permission records exchanged with the host.
use vstd::prelude::*;

verus! {

/// Whether one permission is granted, and whether the user can be asked again.
#[derive(Debug)]
pub struct PermissionState {
    name: String,
    granted: bool,
    can_ask_again: bool,
}

impl PermissionState {
    pub closed spec fn name_spec(&self) -> Seq<char> {
        self.name@
    }

    pub closed spec fn granted_spec(&self) -> bool {
        self.granted
    }

    pub closed spec fn can_ask_again_spec(&self) -> bool {
        self.can_ask_again
    }

    pub fn new(name: String, granted: bool, can_ask_again: bool) -> (r: PermissionState)
        ensures
            r.name_spec() == name@,
            r.granted_spec() == granted,
            r.can_ask_again_spec() == can_ask_again,
    {
        PermissionState { name, granted, can_ask_again }
    }

    pub fn name(&self) -> (r: &String)
        ensures
            r@ == self.name_spec(),
    {
        &self.name
    }

    pub fn granted(&self) -> (r: bool)
        ensures
            r == self.granted_spec(),
    {
        self.granted
    }

    pub fn can_ask_again(&self) -> (r: bool)
        ensures
            r == self.can_ask_again_spec(),
    {
        self.can_ask_again
    }
}

/// A permission that the plugin declares.
#[derive(Debug)]
pub struct PermissionDeclaration {
    pub name: String,
    pub description: String,
    pub required: bool,
}

/// A permission that was refused.
#[derive(Debug)]
pub struct PermissionError {
    pub permission: String,
    pub message: String,
}

} // verus!
