use fluxcd::meta::annotations::{
    get_reconcile_annotation_value, Annotations, ReconcileRequestStatus,
    StatusWithHandledReconcileRequest, StatusWithHandledReconcileRequestSetter,
    RECONCILE_REQUEST_ANNOTATION,
};
use std::time::SystemTime;
use time::{format_description::well_known::Rfc3339, OffsetDateTime};

struct WhateverStatus {
    reconsiler_request_status: ReconcileRequestStatus,
}

struct Whatever {
    annotations: Annotations,
    status: WhateverStatus,
}

impl StatusWithHandledReconcileRequest for WhateverStatus {
    fn get_last_handled_reconcile_request(&self) -> Option<&str> {
        self.reconsiler_request_status.get_last_handled_reconcile_request()
    }
}

impl StatusWithHandledReconcileRequestSetter for WhateverStatus {
    fn set_last_handled_reconcile_request(&mut self, token: Option<String>) {
        let mut status = ReconcileRequestStatus::default();
        status.set_last_handled_reconcile_request(token);
        self.reconsiler_request_status = status;
    }
}

fn now_string() -> String {
    let now = SystemTime::now();
    let odt = OffsetDateTime::from(now);
    odt.format(&Rfc3339).expect("valid date")
}

#[test]
fn test_get_annotation_value() {
    let mut obj = Whatever {
        annotations: (Annotations::new()),
        status: (WhateverStatus {
            reconsiler_request_status: ReconcileRequestStatus::default(),
        }),
    };

    let val = get_reconcile_annotation_value(&obj.annotations);
    assert_eq!(
        val, None,
        "expected ReconcileAnnotationValue to return zero value and false when no annotations"
    );

    let val = val.cloned();
    obj.status.set_last_handled_reconcile_request(val);

    obj.annotations.insert(RECONCILE_REQUEST_ANNOTATION.into(), now_string());

    let val = get_reconcile_annotation_value(&obj.annotations);
    assert_ne!(
        val, None,
        "expected ReconcileAnnotationValue to return true when an annotation is set"
    );

    assert_ne!(
        val.map(|s| &**s),
        obj.status.get_last_handled_reconcile_request(),
        "expected to detect change in annotation value"
    );

    let val = val.cloned();
    obj.status.set_last_handled_reconcile_request(val);
    obj.annotations.insert(RECONCILE_REQUEST_ANNOTATION.into(), now_string());

    let val = get_reconcile_annotation_value(&obj.annotations);
    assert_ne!(
        val, None,
        "expected ReconcileAnnotationValue to return true when an annotation is set"
    );

    assert_ne!(
        val.map(|s| &**s),
        obj.status.get_last_handled_reconcile_request(),
        "expected to detect change in annotation value"
    );
}

#[test]
fn annotations_keep_one_value_for_each_key() {
    let mut annotations = Annotations::new();
    assert_eq!(annotations.get("a"), None);
    annotations.insert("a".into(), "1".into());
    annotations.insert("b".into(), "2".into());
    assert_eq!(annotations.get("a"), Some(&"1".to_string()));
    assert_eq!(annotations.get("b"), Some(&"2".to_string()));
    annotations.insert("a".into(), "3".into());
    assert_eq!(annotations.get("a"), Some(&"3".to_string()));
    assert_eq!(annotations.get("b"), Some(&"2".to_string()));
    assert_eq!(annotations.get("c"), None);
    assert_eq!(annotations.get(""), None);
}

#[test]
fn reconcile_annotation_is_found_by_its_key() {
    let mut annotations = Annotations::new();
    annotations.insert("reconcile.fluxcd.io/requestedat".into(), "wrong".into());
    assert_eq!(get_reconcile_annotation_value(&annotations), None);
    annotations.insert("reconcile.fluxcd.io/requestedAt".into(), "token".into());
    assert_eq!(get_reconcile_annotation_value(&annotations), Some(&"token".to_string()));
    assert_eq!(RECONCILE_REQUEST_ANNOTATION, "reconcile.fluxcd.io/requestedAt");
}

#[test]
fn reconcile_request_status_holds_the_last_token() {
    let mut status = ReconcileRequestStatus::default();
    assert_eq!(status.get_last_handled_reconcile_request(), None);
    status.set_last_handled_reconcile_request(Some("first".to_string()));
    assert_eq!(status.get_last_handled_reconcile_request(), Some("first"));
    StatusWithHandledReconcileRequestSetter::set_last_handled_reconcile_request(
        &mut status,
        Some("second".to_string()),
    );
    assert_eq!(
        StatusWithHandledReconcileRequest::get_last_handled_reconcile_request(&status),
        Some("second")
    );
    status.set_last_handled_reconcile_request(None);
    assert_eq!(status.get_last_handled_reconcile_request(), None);
    assert_eq!(status, ReconcileRequestStatus::default());
}
