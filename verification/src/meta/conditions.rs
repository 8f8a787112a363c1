//! Condition types and reasons shared by the GitOps Toolkit components.

use crate::text::str_equal;
use vstd::prelude::*;
use vstd::std_specs::convert::TryFromSpecImpl;
use vstd::string::StringExecFns;

verus! {

/// These constants define generic Condition types to be used by GitOps Toolkit components.
///
/// The ReadyCondition SHOULD be implemented by all components' Kubernetes resources to indicate they have been fully
/// reconciled by their respective reconciler. This MAY suffice for simple resources, e.g. a resource that just declares
/// state once and is not expected to receive any updates afterwards.
///
/// For Kubernetes resources that are expected to receive spec updates over time, take a longer time to reconcile, or
/// deal with more complex logic in which for example a finite error state can be observed, it is RECOMMENDED to
/// implement the StalledCondition and ReconcilingCondition.
///
/// By doing this, observers making use of kstatus to determine the current state of the resource will have a better
/// experience while they are e.g. waiting for a change to be reconciled, and will be able to stop waiting for a change
/// if a StalledCondition is observed, without having to rely on a timeout.
///
/// For more information on kstatus, see:
/// https://github.com/kubernetes-sigs/cli-utils/blob/v0.25.0/pkg/kstatus/README.md
#[non_exhaustive]
#[derive(Clone, Copy, PartialEq, Eq, Hash, Debug, Structural)]
pub enum Condition {
    /// ReadyCondition indicates the resource is ready and fully reconciled.
    /// If the Condition is False, the resource SHOULD be considered to be in the process of reconciling and not a
    /// representation of actual state.
    Ready,
    /// StalledCondition indicates the reconciliation of the resource has stalled, e.g. because the controller has
    /// encountered an error during the reconcile process or it has made insufficient progress (timeout).
    /// The Condition adheres to an "abnormal-true" polarity pattern, and MUST only be present on the resource if the
    /// Condition is True.
    /// For more information about polarity patterns, see:
    /// https://github.com/kubernetes/community/blob/master/contributors/devel/sig-architecture/api-conventions.md#typical-status-properties
    Stalled,
    /// ReconcilingCondition indicates the controller is currently working on reconciling the latest changes. This MAY be
    /// True for multiple reconciliation attempts, e.g. when an transient error occurred.
    /// The Condition adheres to an "abnormal-true" polarity pattern, and MUST only be present on the resource if the
    /// Condition is True.
    /// For more information about polarity patterns, see:
    /// https://github.com/kubernetes/community/blob/master/contributors/devel/sig-architecture/api-conventions.md#typical-status-properties
    Reconciling,
}

impl Condition {
    /// The name that the condition type is written with.
    pub open spec fn name(self) -> Seq<char> {
        match self {
            Condition::Ready => "Ready"@,
            Condition::Stalled => "Stalled"@,
            Condition::Reconciling => "Reconciling"@,
        }
    }

    /// The condition type that is written `name`, if there is one.
    pub open spec fn named(name: Seq<char>) -> Option<Condition> {
        if name == "Ready"@ {
            Some(Condition::Ready)
        } else if name == "Stalled"@ {
            Some(Condition::Stalled)
        } else if name == "Reconciling"@ {
            Some(Condition::Reconciling)
        } else {
            None
        }
    }

    /// The name that the condition type is written with.
    pub fn as_str(&self) -> (r: &'static str)
        ensures
            r@ == self.name(),
    {
        match self {
            Condition::Ready => "Ready",
            Condition::Stalled => "Stalled",
            Condition::Reconciling => "Reconciling",
        }
    }

    /// The name that the condition type is written with, as a `String`.
    pub fn to_string(&self) -> (r: String)
        ensures
            r@ == self.name(),
    {
        String::from_str(self.as_str())
    }

    /// Each condition type is the one that its name names.
    pub proof fn lemma_named_by_its_name(self)
        ensures
            Condition::named(self.name()) == Some(self),
    {
        reveal_strlit("Ready");
        reveal_strlit("Stalled");
        reveal_strlit("Reconciling");
        assert("Ready"@.len() == 5);
        assert("Stalled"@.len() == 7);
        assert("Reconciling"@.len() == 11);
    }
}

impl TryFrom<&str> for Condition {
    type Error = ();

    fn try_from(value: &str) -> (r: Result<Self, ()>) {
        if str_equal(value, "Ready") {
            Ok(Condition::Ready)
        } else if str_equal(value, "Stalled") {
            Ok(Condition::Stalled)
        } else if str_equal(value, "Reconciling") {
            Ok(Condition::Reconciling)
        } else {
            Err(())
        }
    }
}

impl TryFromSpecImpl<&str> for Condition {
    open spec fn obeys_try_from_spec() -> bool {
        true
    }

    open spec fn try_from_spec(value: &str) -> Result<Self, ()> {
        match Condition::named(value@) {
            Some(found) => Ok(found),
            None => Err(()),
        }
    }
}

/// These constants define generic Condition reasons to be used by GitOps Toolkit components.
///
/// Making use of a generic Reason is RECOMMENDED whenever it can be applied to a Condition in which it provides
/// sufficient context together with the type to summarize the meaning of the Condition cause.
///
/// Where any of the generic Condition reasons does not suffice, GitOps Toolkit components can introduce new reasons to
/// their API specification, or use an arbitrary PascalCase string when setting the Condition.
/// Declaration of domain common Condition reasons in the API specification is RECOMMENDED, as it eases observations
/// for user and computer.
///
/// For more information on Condition reason conventions, see:
/// https://github.com/kubernetes/community/blob/master/contributors/devel/sig-architecture/api-conventions.md#typical-status-properties
#[non_exhaustive]
#[derive(Clone, Copy, PartialEq, Eq, Hash, Debug, Structural)]
pub enum Reason {
    /// SucceededReason indicates a condition or event observed a success, for example when declared desired state
    /// matches actual state, or a performed action succeeded.
    ///
    /// More information about the reason of success MAY be available as additional metadata in an attached message.
    Succeeded,
    /// FailedReason indicates a condition or event observed a failure, for example when declared state does not match
    /// actual state, or a performed action failed.
    ///
    /// More information about the reason of failure MAY be available as additional metadata in an attached message.
    Failed,
    /// ProgressingReason indicates a condition or event observed progression, for example when the reconciliation of a
    /// resource or an action has started.
    ///
    /// When this reason is given, other conditions and types MAY no longer be considered as an up-to-date observation.
    /// Producers of the specific condition type or event SHOULD provide more information about the expectations and
    /// precise meaning in their API specification.
    ///
    /// More information about the reason or the current state of the progression MAY be available as additional metadata
    /// in an attached message.
    Progressing,
    /// SuspendedReason indicates a condition or event has observed a suspension, for
    /// example because a resource has been suspended, or a dependency is.
    Suspended,
}

impl Reason {
    /// The name that the reason is written with.
    pub open spec fn name(self) -> Seq<char> {
        match self {
            Reason::Succeeded => "Succeeded"@,
            Reason::Failed => "Failed"@,
            Reason::Progressing => "Progressing"@,
            Reason::Suspended => "Suspended"@,
        }
    }

    /// The reason that is written `name`, if there is one.
    pub open spec fn named(name: Seq<char>) -> Option<Reason> {
        if name == "Succeeded"@ {
            Some(Reason::Succeeded)
        } else if name == "Failed"@ {
            Some(Reason::Failed)
        } else if name == "Progressing"@ {
            Some(Reason::Progressing)
        } else if name == "Suspended"@ {
            Some(Reason::Suspended)
        } else {
            None
        }
    }

    /// The name that the reason is written with.
    pub fn as_str(&self) -> (r: &'static str)
        ensures
            r@ == self.name(),
    {
        match self {
            Reason::Succeeded => "Succeeded",
            Reason::Failed => "Failed",
            Reason::Progressing => "Progressing",
            Reason::Suspended => "Suspended",
        }
    }

    /// The name that the reason is written with, as a `String`.
    pub fn to_string(&self) -> (r: String)
        ensures
            r@ == self.name(),
    {
        String::from_str(self.as_str())
    }

    /// Each reason is the one that its name names.
    pub proof fn lemma_named_by_its_name(self)
        ensures
            Reason::named(self.name()) == Some(self),
    {
        reveal_strlit("Succeeded");
        reveal_strlit("Failed");
        reveal_strlit("Progressing");
        reveal_strlit("Suspended");
        assert("Succeeded"@.len() == 9);
        assert("Failed"@.len() == 6);
        assert("Progressing"@.len() == 11);
        assert("Suspended"@.len() == 9);
        assert("Succeeded"@[2] != "Suspended"@[2]);
    }
}

impl TryFrom<&str> for Reason {
    type Error = ();

    fn try_from(value: &str) -> (r: Result<Self, ()>) {
        if str_equal(value, "Succeeded") {
            Ok(Reason::Succeeded)
        } else if str_equal(value, "Failed") {
            Ok(Reason::Failed)
        } else if str_equal(value, "Progressing") {
            Ok(Reason::Progressing)
        } else if str_equal(value, "Suspended") {
            Ok(Reason::Suspended)
        } else {
            Err(())
        }
    }
}

impl TryFromSpecImpl<&str> for Reason {
    open spec fn obeys_try_from_spec() -> bool {
        true
    }

    open spec fn try_from_spec(value: &str) -> Result<Self, ()> {
        match Reason::named(value@) {
            Some(found) => Ok(found),
            None => Err(()),
        }
    }
}

} // verus!
