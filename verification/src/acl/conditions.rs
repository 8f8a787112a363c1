//! Condition types and reasons of ACL assertions.

use crate::text::str_equal;
use vstd::prelude::*;
use vstd::std_specs::convert::TryFromSpecImpl;
use vstd::string::StringExecFns;

verus! {

/// These constants define the Condition types for when the GitOps Toolkit components perform ACL assertions.
#[non_exhaustive]
#[derive(Clone, Copy, PartialEq, Eq, Hash, Debug, Structural)]
pub enum Condition {
    /// AccessDeniedCondition indicates that access to a resource has been denied by an ACL assertion.
    AccessDenied,
}

impl Condition {
    /// The name that the condition type is written with.
    pub open spec fn name(self) -> Seq<char> {
        match self {
            Condition::AccessDenied => "AccessDenied"@,
        }
    }

    /// The condition type that is written `name`, if there is one.
    pub open spec fn named(name: Seq<char>) -> Option<Condition> {
        if name == "AccessDenied"@ {
            Some(Condition::AccessDenied)
        } else {
            None
        }
    }

    /// The name that the condition type is written with.
    pub fn as_str(&self) -> (r: &'static str)
        ensures
            r@ == self.name(),
    {
        match self {
            Condition::AccessDenied => "AccessDenied",
        }
    }

    /// The name that the condition type is written with, as a `String`.
    pub fn to_string(&self) -> (r: String)
        ensures
            r@ == self.name(),
    {
        String::from_str(self.as_str())
    }

    /// Each condition type is the one that its name names.
    pub proof fn lemma_named_by_its_name(self)
        ensures
            Condition::named(self.name()) == Some(self),
    {
        reveal_strlit("AccessDenied");
        assert("AccessDenied"@.len() == 12);
    }
}

impl TryFrom<&str> for Condition {
    type Error = ();

    fn try_from(value: &str) -> (r: Result<Self, ()>) {
        if str_equal(value, "AccessDenied") {
            Ok(Condition::AccessDenied)
        } else {
            Err(())
        }
    }
}

impl TryFromSpecImpl<&str> for Condition {
    open spec fn obeys_try_from_spec() -> bool {
        true
    }

    open spec fn try_from_spec(value: &str) -> Result<Self, ()> {
        match Condition::named(value@) {
            Some(found) => Ok(found),
            None => Err(()),
        }
    }
}

/// These constants define the Condition reasons for when the GitOps Toolkit components perform ACL assertions.
#[non_exhaustive]
#[derive(Clone, Copy, PartialEq, Eq, Hash, Debug, Structural)]
pub enum Reason {
    /// AccessDeniedReason indicates that access to a resource has been denied by an ACL assertion.
    AccessDenied,
}

impl Reason {
    /// The name that the reason is written with.
    pub open spec fn name(self) -> Seq<char> {
        match self {
            Reason::AccessDenied => "AccessDenied"@,
        }
    }

    /// The reason that is written `name`, if there is one.
    pub open spec fn named(name: Seq<char>) -> Option<Reason> {
        if name == "AccessDenied"@ {
            Some(Reason::AccessDenied)
        } else {
            None
        }
    }

    /// The name that the reason is written with.
    pub fn as_str(&self) -> (r: &'static str)
        ensures
            r@ == self.name(),
    {
        match self {
            Reason::AccessDenied => "AccessDenied",
        }
    }

    /// The name that the reason is written with, as a `String`.
    pub fn to_string(&self) -> (r: String)
        ensures
            r@ == self.name(),
    {
        String::from_str(self.as_str())
    }

    /// Each reason is the one that its name names.
    pub proof fn lemma_named_by_its_name(self)
        ensures
            Reason::named(self.name()) == Some(self),
    {
        reveal_strlit("AccessDenied");
        assert("AccessDenied"@.len() == 12);
    }
}

impl TryFrom<&str> for Reason {
    type Error = ();

    fn try_from(value: &str) -> (r: Result<Self, ()>) {
        if str_equal(value, "AccessDenied") {
            Ok(Reason::AccessDenied)
        } else {
            Err(())
        }
    }
}

impl TryFromSpecImpl<&str> for Reason {
    open spec fn obeys_try_from_spec() -> bool {
        true
    }

    open spec fn try_from_spec(value: &str) -> Result<Self, ()> {
        match Reason::named(value@) {
            Some(found) => Ok(found),
            None => Err(()),
        }
    }
}

} // verus!
