use fluxcd::acl;
use fluxcd::meta::conditions::{Condition, Reason};

#[test]
fn condition_serde() {
    assert_eq!(Condition::Ready.as_str(), "Ready");
    assert_eq!(Condition::try_from("Ready"), Ok(Condition::Ready));
    assert_eq!(Condition::Stalled.as_str(), "Stalled");
    assert_eq!(Condition::try_from("Stalled"), Ok(Condition::Stalled));
    assert_eq!(Condition::Reconciling.as_str(), "Reconciling");
    assert_eq!(Condition::try_from("Reconciling"), Ok(Condition::Reconciling));
}

#[test]
fn condition_names_are_exact() {
    assert_eq!(Condition::try_from("ready"), Err(()));
    assert_eq!(Condition::try_from("Ready "), Err(()));
    assert_eq!(Condition::try_from(""), Err(()));
    assert_eq!(Condition::try_from("Succeeded"), Err(()));
    assert_eq!(Condition::Ready.to_string(), "Ready");
}

#[test]
fn reason_names() {
    for (reason, name) in [
        (Reason::Succeeded, "Succeeded"),
        (Reason::Failed, "Failed"),
        (Reason::Progressing, "Progressing"),
        (Reason::Suspended, "Suspended"),
    ] {
        assert_eq!(reason.as_str(), name);
        assert_eq!(reason.to_string(), name);
        assert_eq!(Reason::try_from(name), Ok(reason));
    }
    assert_eq!(Reason::try_from("Ready"), Err(()));
}

#[test]
fn acl_condition_and_reason_names() {
    assert_eq!(acl::conditions::Condition::AccessDenied.as_str(), "AccessDenied");
    assert_eq!(
        acl::conditions::Condition::try_from("AccessDenied"),
        Ok(acl::conditions::Condition::AccessDenied)
    );
    assert_eq!(acl::conditions::Condition::try_from("Ready"), Err(()));
    assert_eq!(acl::conditions::Reason::AccessDenied.to_string(), "AccessDenied");
    assert_eq!(
        acl::conditions::Reason::try_from("AccessDenied"),
        Ok(acl::conditions::Reason::AccessDenied)
    );
    assert_eq!(acl::conditions::Reason::try_from("accessdenied"), Err(()));
}
