use fluxcd::api::source_github_keys::const_false;
use fluxcd::cap::report::ReportWrapper;
use fluxcd::controllers::source_github_keys::GitHubUserSshKeysController;
use fluxcd::cops::metrics::{Condition, ObjectReference, Recorder};

fn object(kind: &str, name: &str, namespace: &str) -> ObjectReference {
    ObjectReference {
        kind: Some(kind.to_string()),
        name: Some(name.to_string()),
        namespace: Some(namespace.to_string()),
    }
}

fn condition(type_: &str, status: &str) -> Condition {
    Condition { type_: type_.to_string(), status: status.to_string() }
}

fn values(recorder: &mut Recorder, obj: &ObjectReference, type_: &str) -> [i64; 4] {
    [
        recorder.condition_value(obj, type_, "True"),
        recorder.condition_value(obj, type_, "False"),
        recorder.condition_value(obj, type_, "Unknown"),
        recorder.condition_value(obj, type_, "Deleted"),
    ]
}

#[test]
fn record_condition_sets_one_gauge_of_four() {
    let mut recorder = Recorder::new().unwrap();
    let obj = object("GitRepository", "podinfo", "flux-system");
    assert_eq!(values(&mut recorder, &obj, "Ready"), [0, 0, 0, 0]);

    recorder.record_condition(&obj, &condition("Ready", "True"), false);
    assert_eq!(values(&mut recorder, &obj, "Ready"), [1, 0, 0, 0]);

    recorder.record_condition(&obj, &condition("Ready", "False"), false);
    assert_eq!(values(&mut recorder, &obj, "Ready"), [0, 1, 0, 0]);

    recorder.record_condition(&obj, &condition("Ready", "Unknown"), false);
    assert_eq!(values(&mut recorder, &obj, "Ready"), [0, 0, 1, 0]);

    recorder.record_condition(&obj, &condition("Ready", "true"), false);
    assert_eq!(values(&mut recorder, &obj, "Ready"), [0, 0, 0, 0]);

    // other types and other objects are untouched
    recorder.record_condition(&obj, &condition("Ready", "True"), false);
    assert_eq!(values(&mut recorder, &obj, "Stalled"), [0, 0, 0, 0]);
    let other = object("GitRepository", "podinfo", "default");
    assert_eq!(values(&mut recorder, &other, "Ready"), [0, 0, 0, 0]);
}

#[test]
fn record_condition_is_idempotent() {
    let mut recorder = Recorder::new().unwrap();
    let obj = object("Kustomization", "apps", "flux-system");
    recorder.record_condition(&obj, &condition("Ready", "False"), false);
    let once = values(&mut recorder, &obj, "Ready");
    recorder.record_condition(&obj, &condition("Ready", "False"), false);
    let twice = values(&mut recorder, &obj, "Ready");
    assert_eq!(once, [0, 1, 0, 0]);
    assert_eq!(once, twice);
}

#[test]
fn record_condition_of_deleted_object_sets_deleted() {
    let mut recorder = Recorder::new().unwrap();
    let obj = object("Kustomization", "apps", "flux-system");
    for status in ["True", "False", "Unknown", "", "Deleted"] {
        recorder.record_condition(&obj, &condition("Ready", "True"), false);
        recorder.record_condition(&obj, &condition("Ready", status), true);
        assert_eq!(values(&mut recorder, &obj, "Ready"), [0, 0, 0, 1], "{status}");
    }
}

#[test]
fn record_suspend_sets_the_gauge() {
    let mut recorder = Recorder::new().unwrap();
    let obj = object("HelmRelease", "podinfo", "default");
    assert_eq!(recorder.suspend_value(&obj), 0);
    recorder.record_suspend(&obj, true);
    assert_eq!(recorder.suspend_value(&obj), 1);
    recorder.record_suspend(&obj, true);
    assert_eq!(recorder.suspend_value(&obj), 1);
    recorder.record_suspend(&obj, false);
    assert_eq!(recorder.suspend_value(&obj), 0);
    assert_eq!(values(&mut recorder, &obj, "Ready"), [0, 0, 0, 0]);
}

#[test]
fn missing_labels_are_recorded_as_empty() {
    let mut recorder = Recorder::new().unwrap();
    let nameless = ObjectReference { kind: Some("Bucket".into()), name: None, namespace: None };
    recorder.record_suspend(&nameless, true);
    recorder.record_condition(&nameless, &condition("Ready", "True"), false);
    let empty = object("Bucket", "", "");
    assert_eq!(recorder.suspend_value(&empty), 1);
    assert_eq!(values(&mut recorder, &empty, "Ready"), [1, 0, 0, 0]);
    assert_eq!(recorder.suspend_value(&object("Bucket", "x", "")), 0);

    let nothing = ObjectReference { kind: None, name: None, namespace: None };
    let timer = recorder.record_duration(&nothing).ok().unwrap();
    recorder.stop_duration(timer).ok().unwrap();
    assert_eq!(recorder.duration_count(&object("", "", "")).ok().unwrap(), 1);
}

#[test]
fn record_duration_observes_once_when_stopped() {
    let mut recorder = Recorder::new().unwrap();
    let obj = object("GitRepository", "podinfo", "flux-system");
    assert_eq!(recorder.duration_count(&obj).ok().unwrap(), 0);

    let other = object("GitRepository", "podinfo", "default");
    let other_timer = recorder.record_duration(&other).ok().unwrap();
    recorder.record_suspend(&obj, true);

    let timer = recorder.record_duration(&obj).ok().unwrap();
    assert_eq!(recorder.duration_count(&obj).ok().unwrap(), 0);
    recorder.stop_duration(timer).ok().unwrap();
    assert_eq!(recorder.duration_count(&obj).ok().unwrap(), 1);
    assert_eq!(recorder.duration_count(&other).ok().unwrap(), 0);
    assert_eq!(recorder.suspend_value(&obj), 1);

    let timer = recorder.record_duration(&obj).ok().unwrap();
    recorder.stop_duration(timer).ok().unwrap();
    assert_eq!(recorder.duration_count(&obj).ok().unwrap(), 2);

    recorder.stop_duration(other_timer).ok().unwrap();
    assert_eq!(recorder.duration_count(&other).ok().unwrap(), 1);
    assert_eq!(recorder.duration_count(&obj).ok().unwrap(), 2);

    let sum = recorder.collect()[2]
        .get_metric()
        .iter()
        .map(|metric| metric.get_histogram().get_sample_sum())
        .fold(0f64, |sum, part| sum + part);
    assert!(sum >= 0f64);
    assert!(sum < 60f64);
}

#[test]
fn timer_that_is_not_stopped_records_nothing() {
    let mut recorder = Recorder::new().unwrap();
    let obj = object("GitRepository", "podinfo", "flux-system");
    {
        let _timer = recorder.record_duration(&obj).ok().unwrap();
    }
    assert_eq!(recorder.duration_count(&obj).ok().unwrap(), 0);
}

#[test]
fn controller_has_a_recorder_of_its_own() {
    let mut controller = GitHubUserSshKeysController::new().ok().unwrap();
    let obj = object("GitHubUserSshKeys", "octocat", "flux-system");
    controller.metrics_mut().record_suspend(&obj, true);
    assert_eq!(controller.metrics_mut().suspend_value(&obj), 1);
    assert_eq!(controller.metrics_mut().duration_count(&obj).ok().unwrap(), 0);
    assert_eq!(controller.metrics().desc().len(), 3);

    let mut other = GitHubUserSshKeysController::new().ok().unwrap();
    assert_eq!(other.metrics_mut().suspend_value(&obj), 0);
    assert!(!const_false());
}

#[test]
fn report_wrapper_hands_the_report_back() {
    let wrapper = ReportWrapper::new(eyre::Report::msg("reconcile failed"));
    assert_eq!(wrapper.as_inner().to_string(), "reconcile failed");
    assert_eq!(wrapper.into_inner().to_string(), "reconcile failed");
}

#[test]
fn recorder_exports_its_three_series() {
    let mut recorder = Recorder::new().unwrap();
    let names: Vec<String> = recorder.desc().iter().map(|d| d.fq_name.clone()).collect();
    assert_eq!(
        names,
        vec![
            "gotk_reconcile_condition".to_string(),
            "gotk_reconcile_status".to_string(),
            "gotk_reconcile_duration_seconds".to_string(),
        ]
    );
    let labels: Vec<Vec<String>> =
        recorder.desc().iter().map(|d| d.variable_labels.clone()).collect();
    assert_eq!(labels[0], vec!["kind", "name", "namespace", "type", "status"]);
    assert_eq!(labels[1], vec!["kind", "name", "namespace"]);
    assert_eq!(labels[2], vec!["kind", "name", "namespace"]);

    let obj = object("GitRepository", "podinfo", "flux-system");
    recorder.record_condition(&obj, &condition("Ready", "True"), false);
    recorder.record_suspend(&obj, true);
    let timer = recorder.record_duration(&obj).ok().unwrap();
    recorder.stop_duration(timer).ok().unwrap();

    let families = recorder.collect();
    assert_eq!(families.len(), 3);
    assert_eq!(families[0].get_name(), "gotk_reconcile_condition");
    assert_eq!(families[0].get_metric().len(), 4);
    assert_eq!(families[1].get_name(), "gotk_reconcile_status");
    assert_eq!(families[1].get_metric().len(), 1);
    assert_eq!(families[1].get_metric()[0].get_gauge().get_value(), 1f64);
    assert_eq!(families[2].get_name(), "gotk_reconcile_duration_seconds");
    assert_eq!(families[2].get_metric().len(), 1);
    assert_eq!(families[2].get_metric()[0].get_histogram().get_sample_count(), 1);
}

#[test]
fn duration_buckets_rise_by_ten_from_ten_nanoseconds() {
    let mut recorder = Recorder::new().unwrap();
    let obj = object("GitRepository", "podinfo", "flux-system");
    let timer = recorder.record_duration(&obj).ok().unwrap();
    recorder.stop_duration(timer).ok().unwrap();
    let families = recorder.collect();
    let histogram = families[2].get_metric()[0].get_histogram();
    let bounds: Vec<f64> = histogram.get_bucket().iter().map(|b| b.get_upper_bound()).collect();
    assert_eq!(bounds, prometheus::exponential_buckets(10e-9, 10f64, 10).unwrap());
    assert_eq!(bounds.len(), 10);
    assert_eq!(bounds[0], 1e-8);
}

#[test]
fn recorder_is_always_made() {
    for _ in 0..3 {
        assert!(Recorder::new().is_ok());
        assert!(GitHubUserSshKeysController::new().is_ok());
    }
}

#[test]
fn record_duration_gives_the_object_a_histogram() {
    let mut recorder = Recorder::new().unwrap();
    let families = recorder.collect();
    assert_eq!(families[2].get_metric().len(), 0);

    let obj = object("GitRepository", "podinfo", "flux-system");
    let timer = recorder.record_duration(&obj).ok().unwrap();
    let families = recorder.collect();
    assert_eq!(families[2].get_metric().len(), 1);
    let labels: Vec<(String, String)> = families[2].get_metric()[0]
        .get_label()
        .iter()
        .map(|pair| (pair.get_name().to_string(), pair.get_value().to_string()))
        .collect();
    assert_eq!(
        labels,
        vec![
            ("kind".to_string(), "GitRepository".to_string()),
            ("name".to_string(), "podinfo".to_string()),
            ("namespace".to_string(), "flux-system".to_string()),
        ]
    );
    drop(timer);

    // counting gives an object its histogram too, and another start adds none
    let other = object("GitRepository", "podinfo", "default");
    assert_eq!(recorder.duration_count(&other).ok().unwrap(), 0);
    assert_eq!(recorder.collect()[2].get_metric().len(), 2);
    drop(recorder.record_duration(&obj).ok().unwrap());
    assert_eq!(recorder.collect()[2].get_metric().len(), 2);
    assert_eq!(recorder.duration_count(&obj).ok().unwrap(), 0);
}
