//! Account and group names for privilege dropping.

use vstd::prelude::*;
use crate::text::{decimal, decimal_string};

verus! {

/// A system user, by account name.
#[derive(Clone, Debug)]
pub struct User(pub String);

/// A system group, by group name.
#[derive(Clone, Debug)]
pub struct Group(pub String);

impl<'a> From<&'a str> for User {
    fn from(s: &'a str) -> (r: User)
        ensures
            r.0@ == s@,
    {
        User(s.to_owned())
    }
}

impl<'a> vstd::std_specs::convert::FromSpecImpl<&'a str> for User {
    open spec fn obeys_from_spec() -> bool {
        false
    }

    open spec fn from_spec(s: &'a str) -> User {
        arbitrary()
    }
}

/// A numeric user id stands for the account named by its decimal rendering.
impl From<u32> for User {
    fn from(id: u32) -> (r: User)
        ensures
            r.0@ == decimal(id as nat),
    {
        User(decimal_string(id))
    }
}

impl vstd::std_specs::convert::FromSpecImpl<u32> for User {
    open spec fn obeys_from_spec() -> bool {
        false
    }

    open spec fn from_spec(id: u32) -> User {
        arbitrary()
    }
}

impl<'a> From<&'a str> for Group {
    fn from(s: &'a str) -> (r: Group)
        ensures
            r.0@ == s@,
    {
        Group(s.to_owned())
    }
}

impl<'a> vstd::std_specs::convert::FromSpecImpl<&'a str> for Group {
    open spec fn obeys_from_spec() -> bool {
        false
    }

    open spec fn from_spec(s: &'a str) -> Group {
        arbitrary()
    }
}

/// A numeric group id stands for the group named by its decimal rendering.
impl From<u32> for Group {
    fn from(id: u32) -> (r: Group)
        ensures
            r.0@ == decimal(id as nat),
    {
        Group(decimal_string(id))
    }
}

impl vstd::std_specs::convert::FromSpecImpl<u32> for Group {
    open spec fn obeys_from_spec() -> bool {
        false
    }

    open spec fn from_spec(id: u32) -> Group {
        arbitrary()
    }
}

} // verus!
