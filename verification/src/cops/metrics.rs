//! The metrics of resource reconciliation: the condition of each resource,
//! whether it is suspended, and how long its reconciliations take.

use crate::text::str_equal;
use vstd::prelude::*;
use vstd::utf8::encode_utf8;

verus! {

/// The namespace of the metrics.
pub const METRICS_NAMESPACE: &'static str = "gotk";

/// The subsystem of the metrics.
pub const METRICS_SUBSYSTEM: &'static str = "reconcile";

/// The upper bound of the lowest duration bucket, in nanoseconds.
pub const BUCKET_START_NANOS: u64 = 10;

/// The factor from each duration bucket to the next.
pub const BUCKET_FACTOR: u32 = 10;

/// The number of duration buckets.
pub const BUCKET_COUNT: usize = 10;

/// What identifies the object that a metric is about. A part that is
/// missing counts as the empty text.
#[derive(Debug)]
pub struct ObjectReference {
    pub kind: Option<String>,
    pub name: Option<String>,
    pub namespace: Option<String>,
}

/// A condition that a resource reports: its type and its status, which is
/// `True`, `False` or `Unknown`.
#[derive(Debug)]
pub struct Condition {
    pub type_: String,
    pub status: String,
}

/// One of the series of the recorder.
#[derive(Clone, Copy, Debug, PartialEq, Eq, Structural)]
pub enum Series {
    Condition,
    Suspend,
    Duration,
}

/// A series of the recorder could not be made.
#[derive(Debug)]
pub struct RecorderError {
    pub series: Series,
    pub cause: prometheus::Error,
}

#[verifier::external_type_specification]
#[verifier::external_body]
pub struct ExPrometheusError(prometheus::Error);

#[verifier::external_type_specification]
#[verifier::external_body]
pub struct ExInstant(std::time::Instant);

#[verifier::external_type_specification]
#[verifier::external_body]
pub struct ExDesc(prometheus::core::Desc);

#[verifier::external_type_specification]
#[verifier::external_body]
pub struct ExMetricFamily(prometheus::proto::MetricFamily);

/// A `prometheus::GaugeVec`: gauges that differ in the values of their
/// labels.
#[verifier::external_body]
pub struct GaugeSeries {
    inner: prometheus::GaugeVec,
}

/// A `prometheus::HistogramVec`: histograms that differ in the values of
/// their labels.
#[verifier::external_body]
pub struct HistogramSeries {
    inner: prometheus::HistogramVec,
}

/// The state that the FNV-1a hash starts from.
pub const FNV_OFFSET: u64 = 0xcbf2_9ce4_8422_2325;

/// The prime that the FNV-1a hash multiplies by.
pub const FNV_PRIME: u64 = 0x0000_0100_0000_01b3;

/// The state of the FNV-1a hash after `bytes`, from the state `state`: for
/// each byte the state is combined with the byte by exclusive or and then
/// multiplied by the prime, in 64 bits.
pub open spec fn hash_bytes(state: u64, bytes: Seq<u8>) -> u64
    decreases bytes.len(),
{
    if bytes.len() == 0 {
        state
    } else {
        let mixed = hash_bytes(state, bytes.drop_last()) ^ (bytes.last() as u64);
        ((mixed as int * FNV_PRIME as int) % 0x1_0000_0000_0000_0000) as u64
    }
}

/// The state of the FNV-1a hash after the UTF-8 bytes of each of `values`,
/// one value after the other, from the state `state`.
pub open spec fn hash_values(state: u64, values: Seq<Seq<char>>) -> u64
    decreases values.len(),
{
    if values.len() == 0 {
        state
    } else {
        hash_bytes(hash_values(state, values.drop_last()), encode_utf8(values.last()))
    }
}

/// The key under which a `prometheus` vector files the metric with the
/// label values `values`: the FNV-1a hash of their bytes, one value after
/// the other. Different label values can share a key.
pub open spec fn label_hash(values: Seq<Seq<char>>) -> u64 {
    hash_values(FNV_OFFSET, values)
}

/// The buckets that a series of histograms was made with.
pub struct Buckets {
    /// The upper bound of the lowest bucket, in nanoseconds.
    pub start_nanos: u64,
    /// The factor from the bound of each bucket to that of the next.
    pub factor: u32,
    /// The number of buckets.
    pub count: usize,
}

/// The gauges of a series by their keys, each with its value as a whole
/// number.
pub uninterp spec fn gauge_values(series: GaugeSeries) -> Map<u64, int>;

/// The names of the labels that a series of gauges was made with.
pub uninterp spec fn gauge_labels(series: GaugeSeries) -> Seq<Seq<char>>;

/// The histograms of a series by their keys, each with the number of
/// observations that were made in it.
pub uninterp spec fn histogram_counts(series: HistogramSeries) -> Map<u64, nat>;

/// The names of the labels that a series of histograms was made with.
pub uninterp spec fn histogram_labels(series: HistogramSeries) -> Seq<Seq<char>>;

/// The buckets that a series of histograms was made with.
pub uninterp spec fn histogram_buckets(series: HistogramSeries) -> Buckets;

/// A series without any gauge.
pub open spec fn no_gauges() -> Map<u64, int> {
    Map::empty()
}

/// A series without any histogram.
pub open spec fn no_histograms() -> Map<u64, nat> {
    Map::empty()
}

/// `base` to the power `exponent`.
pub open spec fn power(base: nat, exponent: nat) -> nat
    decreases exponent,
{
    if exponent == 0 {
        1
    } else {
        base * power(base, (exponent - 1) as nat)
    }
}

/// Whether the bounds of buckets stay far below what a floating point
/// number holds: the bound that follows the last is at most `10^100`
/// nanoseconds. The bounds are then finite, and each is above the one
/// before.
pub open spec fn stays_finite(buckets: Buckets) -> bool {
    buckets.start_nanos * power(buckets.factor as nat, buckets.count as nat)
        <= 10_000_000_000_000_000_000_000_000_000_000_000_000_000_000_000_000_000_000_000_000_000_000_000_000_000_000_000_000_000_000_000_000_000_000
}

/// Whether a series can make a histogram for as many label values as it
/// has labels: none of its labels is named `le`, and the bounds of its
/// buckets rise.
pub open spec fn makes_histograms(label_names: Seq<Seq<char>>, buckets: Buckets) -> bool {
    &&& forall|i: int| 0 <= i < label_names.len() ==> #[trigger] label_names[i] != "le"@
    &&& rising(buckets.start_nanos, buckets.factor, buckets.count)
    &&& stays_finite(buckets)
}

/// Whether a series of histograms hands out the histogram for `values`:
/// they are as many as its labels, and it holds the histogram already or
/// can make it.
pub open spec fn hands_out(series: HistogramSeries, values: Seq<Seq<char>>) -> bool {
    &&& values.len() == histogram_labels(series).len()
    &&& histogram_counts(series).contains_key(label_hash(values)) || makes_histograms(
        histogram_labels(series),
        histogram_buckets(series),
    )
}

/// Whether a name can start with `c`: with an ASCII letter or `_`, the
/// name of a metric with `:` too.
pub open spec fn starts_name(c: char, metric: bool) -> bool {
    ('a' <= c && c <= 'z') || ('A' <= c && c <= 'Z') || c == '_' || (metric && c == ':')
}

/// Whether `name` is a name that `prometheus` takes for a metric, or for
/// a label: it is not empty, and after its start it holds what a name can
/// start with and ASCII digits.
pub open spec fn is_name(name: Seq<char>, metric: bool) -> bool {
    &&& name.len() > 0
    &&& starts_name(name[0], metric)
    &&& forall|i: int|
        1 <= i < name.len() ==> starts_name(#[trigger] name[i], metric) || ('0' <= name[i]
            && name[i] <= '9')
}

/// The full name of a metric: its namespace, subsystem and name joined by
/// `_`, without those of the first two that are empty; empty where the
/// name is.
pub open spec fn full_name(namespace: Seq<char>, subsystem: Seq<char>, name: Seq<char>) -> Seq<
    char,
> {
    if name.len() == 0 {
        Seq::empty()
    } else if namespace.len() > 0 && subsystem.len() > 0 {
        namespace + "_"@ + subsystem + "_"@ + name
    } else if namespace.len() > 0 {
        namespace + "_"@ + name
    } else if subsystem.len() > 0 {
        subsystem + "_"@ + name
    } else {
        name
    }
}

/// Whether `prometheus` makes buckets that rise by a factor: at least one
/// of them, from a bound above zero, by a factor above one.
pub open spec fn rising(start_nanos: u64, factor: u32, count: usize) -> bool {
    start_nanos > 0 && factor > 1 && count > 0
}

/// Whether `prometheus` takes the description of a series: a help text
/// that is not empty, a full name that is the name of a metric, and
/// labels with different names.
pub open spec fn describable(
    name: Seq<char>,
    help: Seq<char>,
    subsystem: Seq<char>,
    namespace: Seq<char>,
    label_names: Seq<Seq<char>>,
) -> bool {
    &&& help.len() > 0
    &&& is_name(full_name(namespace, subsystem, name), true)
    &&& forall|i: int| 0 <= i < label_names.len() ==> is_name(#[trigger] label_names[i], false)
    &&& forall|i: int, j: int|
        0 <= i < j < label_names.len() ==> #[trigger] label_names[i] != #[trigger] label_names[j]
}

/// The texts of label values.
pub open spec fn texts(values: Seq<&str>) -> Seq<Seq<char>> {
    Seq::new(values.len(), |i: int| values[i]@)
}

/// `GaugeVec::new` with `Opts::new(name, help)`, the subsystem and the
/// namespace: it succeeds where the description is one that `prometheus`
/// takes, and only there. The series then has the labels of these names
/// and no gauge yet.
#[verifier::external_body]
fn gauge_series_new(
    name: &str,
    help: &str,
    subsystem: &str,
    namespace: &str,
    label_names: &Vec<&str>,
) -> (r: Result<GaugeSeries, prometheus::Error>)
    ensures
        r is Ok <==> describable(name@, help@, subsystem@, namespace@, texts(label_names@)),
        r matches Ok(series) ==> gauge_labels(series) == texts(label_names@),
        r matches Ok(series) ==> gauge_values(series) == no_gauges(),
{
    let opts = prometheus::Opts::new(name, help).subsystem(subsystem).namespace(namespace);
    prometheus::GaugeVec::new(opts, label_names).map(|inner| GaugeSeries { inner })
}

/// `GaugeVec::with_label_values` and `Gauge::set`: the gauge that is filed
/// under the key of `values` is made if there is none, and set to one or
/// to zero. The call panics where `values` are not as many as the labels
/// of the series.
#[verifier::external_body]
fn gauge_set(series: &mut GaugeSeries, values: &Vec<&str>, on: bool)
    requires
        values@.len() == gauge_labels(*old(series)).len(),
    ensures
        gauge_labels(*final(series)) == gauge_labels(*old(series)),
        gauge_values(*final(series)) == gauge_values(*old(series)).insert(
            label_hash(texts(values@)),
            if on {
                1int
            } else {
                0int
            },
        ),
{
    series.inner.with_label_values(values).set(u8::from(on).into());
}

/// `GaugeVec::with_label_values` and `Gauge::get`: the gauge that is filed
/// under the key of `values` is made with the value zero if there is
/// none, and its value is handed back as a whole number. The call panics
/// where `values` are not as many as the labels of the series.
#[verifier::external_body]
fn gauge_get(series: &mut GaugeSeries, values: &Vec<&str>) -> (r: i64)
    requires
        values@.len() == gauge_labels(*old(series)).len(),
    ensures
        gauge_labels(*final(series)) == gauge_labels(*old(series)),
        gauge_values(*final(series)) == if gauge_values(*old(series)).contains_key(
            label_hash(texts(values@)),
        ) {
            gauge_values(*old(series))
        } else {
            gauge_values(*old(series)).insert(label_hash(texts(values@)), 0int)
        },
        r == gauge_values(*final(series))[label_hash(texts(values@))],
{
    series.inner.with_label_values(values).get() as i64
}

/// `HistogramVec::new` with `HistogramOpts::new(name, help)`, the
/// subsystem, the namespace and the buckets of
/// `prometheus::exponential_buckets`, whose lowest bound is `start_nanos`
/// nanoseconds in seconds. It succeeds where the buckets are at least
/// one, from a bound above zero by a factor above one, and the
/// description is one that `prometheus` takes, and only there. The series
/// then has the labels of these names, these buckets and no histogram
/// yet.
#[verifier::external_body]
fn histogram_series_new(
    name: &str,
    help: &str,
    subsystem: &str,
    namespace: &str,
    start_nanos: u64,
    factor: u32,
    count: usize,
    label_names: &Vec<&str>,
) -> (r: Result<HistogramSeries, prometheus::Error>)
    ensures
        r is Ok ==> rising(start_nanos, factor, count),
        r is Ok ==> describable(name@, help@, subsystem@, namespace@, texts(label_names@)),
        rising(start_nanos, factor, count) && describable(name@, help@, subsystem@, namespace@, texts(label_names@)) ==> r is Ok,
        r matches Ok(series) ==> histogram_labels(series) == texts(label_names@),
        r matches Ok(series) ==> histogram_buckets(series) == (Buckets { start_nanos, factor, count }),
        r matches Ok(series) ==> histogram_counts(series) == no_histograms(),
{
    let start = std::time::Duration::from_nanos(start_nanos).as_secs_f64();
    let buckets = prometheus::exponential_buckets(start, factor.into(), count)?;
    let opts = prometheus::HistogramOpts::new(name, help).subsystem(subsystem).namespace(
        namespace,
    ).buckets(buckets);
    prometheus::HistogramVec::new(opts, label_names).map(|inner| HistogramSeries { inner })
}

/// `HistogramVec::get_metric_with_label_values`: the histogram that is
/// filed under the key of `values` is made, without any observation, if
/// there is none. Where the call fails, the series is left as it was. It
/// succeeds where the series hands the histogram out.
#[verifier::external_body]
fn histogram_touch(series: &mut HistogramSeries, values: &Vec<&str>) -> (r: Result<
    (),
    prometheus::Error,
>)
    ensures
        histogram_labels(*final(series)) == histogram_labels(*old(series)),
        histogram_buckets(*final(series)) == histogram_buckets(*old(series)),
        r is Ok ==> histogram_counts(*final(series)) == touched_count(histogram_counts(*old(series)), label_hash(texts(values@))),
        r is Err ==> histogram_counts(*final(series)) == histogram_counts(*old(series)),
        hands_out(*old(series), texts(values@)) ==> r is Ok,
{
    series.inner.get_metric_with_label_values(values).map(|_| ())
}

/// `HistogramVec::get_metric_with_label_values` and `Histogram::observe`
/// with the seconds since `started`: one observation is made in the
/// histogram that is filed under the key of `values`, which is made if
/// there is none. Where the call fails, the series is left as it was. It
/// succeeds where the series hands the histogram out.
#[verifier::external_body]
fn histogram_observe_since(
    series: &mut HistogramSeries,
    values: &Vec<&str>,
    started: &std::time::Instant,
) -> (r: Result<(), prometheus::Error>)
    ensures
        histogram_labels(*final(series)) == histogram_labels(*old(series)),
        histogram_buckets(*final(series)) == histogram_buckets(*old(series)),
        r is Ok ==> histogram_counts(*final(series)) == observed_count(histogram_counts(*old(series)), label_hash(texts(values@))),
        r is Err ==> histogram_counts(*final(series)) == histogram_counts(*old(series)),
        hands_out(*old(series), texts(values@)) ==> r is Ok,
{
    series.inner.get_metric_with_label_values(values).map(
        |histogram| histogram.observe(started.elapsed().as_secs_f64()),
    )
}

/// `HistogramVec::get_metric_with_label_values` and
/// `Histogram::get_sample_count`: how many observations were made in the
/// histogram of `values`, as far as `prometheus` counts them, in 63 bits.
/// The histogram is made, without any observation, if there is none.
/// Where the call fails, the series is left as it was. It succeeds where
/// the series hands the histogram out.
#[verifier::external_body]
fn histogram_sample_count(series: &mut HistogramSeries, values: &Vec<&str>) -> (r: Result<
    u64,
    prometheus::Error,
>)
    ensures
        histogram_labels(*final(series)) == histogram_labels(*old(series)),
        histogram_buckets(*final(series)) == histogram_buckets(*old(series)),
        r is Ok ==> histogram_counts(*final(series)) == touched_count(histogram_counts(*old(series)), label_hash(texts(values@))),
        r is Err ==> histogram_counts(*final(series)) == histogram_counts(*old(series)),
        hands_out(*old(series), texts(values@)) ==> r is Ok,
        r matches Ok(n) ==> counted(histogram_counts(*old(series)), label_hash(texts(values@)), n),
{
    series.inner.get_metric_with_label_values(values).map(|histogram| histogram.get_sample_count())
}

/// `Instant::now` of std: the time of the call.
#[verifier::external_body]
fn instant_now() -> (r: std::time::Instant) {
    std::time::Instant::now()
}

/// `Collector::desc` of a `GaugeVec`: the one descriptor that its gauges
/// share.
#[verifier::external_body]
fn gauge_desc(series: &GaugeSeries) -> (r: Vec<&prometheus::core::Desc>)
    ensures
        r@.len() == 1,
{
    prometheus::core::Collector::desc(&series.inner)
}

/// `Collector::collect` of a `GaugeVec`: the one family of its gauges.
#[verifier::external_body]
fn gauge_collect(series: &GaugeSeries) -> (r: Vec<prometheus::proto::MetricFamily>)
    ensures
        r@.len() == 1,
{
    prometheus::core::Collector::collect(&series.inner)
}

/// `Collector::desc` of a `HistogramVec`: the one descriptor that its
/// histograms share.
#[verifier::external_body]
fn histogram_desc(series: &HistogramSeries) -> (r: Vec<&prometheus::core::Desc>)
    ensures
        r@.len() == 1,
{
    prometheus::core::Collector::desc(&series.inner)
}

/// `Collector::collect` of a `HistogramVec`: the one family of its
/// histograms.
#[verifier::external_body]
fn histogram_collect(series: &HistogramSeries) -> (r: Vec<prometheus::proto::MetricFamily>)
    ensures
        r@.len() == 1,
{
    prometheus::core::Collector::collect(&series.inner)
}

/// The number of observations in the histogram with the key `key`: zero
/// where there is none.
pub open spec fn count_at(counts: Map<u64, nat>, key: u64) -> nat {
    if counts.contains_key(key) {
        counts[key]
    } else {
        0
    }
}

/// The histograms after the one with the key `key` was asked for: it is
/// there, without any observation if it was not there before.
pub open spec fn touched_count(counts: Map<u64, nat>, key: u64) -> Map<u64, nat> {
    if counts.contains_key(key) {
        counts
    } else {
        counts.insert(key, 0)
    }
}

/// The histograms after one observation was made in the one with the key
/// `key`.
pub open spec fn observed_count(counts: Map<u64, nat>, key: u64) -> Map<u64, nat> {
    counts.insert(key, count_at(counts, key) + 1)
}

/// Whether `n` is what `prometheus` counts for the histogram with the key
/// `key`: the number of its observations, where 63 bits hold it.
pub open spec fn counted(counts: Map<u64, nat>, key: u64, n: u64) -> bool {
    count_at(counts, key) < 0x8000_0000_0000_0000 ==> n == count_at(counts, key)
}

/// The label value for a part of an object reference: the empty text
/// where the part is missing.
pub open spec fn label_of(part: Option<String>) -> Seq<char> {
    match part {
        Some(text) => text@,
        None => Seq::empty(),
    }
}

/// The label values that identify an object: its kind, name and namespace.
pub open spec fn object_labels(obj: ObjectReference) -> Seq<Seq<char>> {
    seq![label_of(obj.kind), label_of(obj.name), label_of(obj.namespace)]
}

/// The label values of the gauge for one status of one condition type of
/// an object.
pub open spec fn condition_labels(
    obj: ObjectReference,
    condition_type: Seq<char>,
    status: Seq<char>,
) -> Seq<Seq<char>> {
    object_labels(obj).push(condition_type).push(status)
}

/// One for a gauge that is on, zero for one that is off.
pub open spec fn flag(on: bool) -> int {
    if on {
        1
    } else {
        0
    }
}

/// The condition gauges after a condition of an object was recorded: the
/// four gauges of its type, one for each of `True`, `False`, `Unknown`
/// and `Deleted`, are written in this order. The one that names the
/// status is set to one, the others to zero; for a deleted object that one
/// is `Deleted`.
pub open spec fn recorded_condition(
    before: Map<u64, int>,
    obj: ObjectReference,
    condition: Condition,
    deleted: bool,
) -> Map<u64, int> {
    let status = condition.status@;
    before.insert(
        label_hash(condition_labels(obj, condition.type_@, "True"@)),
        flag(!deleted && status == "True"@),
    ).insert(
        label_hash(condition_labels(obj, condition.type_@, "False"@)),
        flag(!deleted && status == "False"@),
    ).insert(
        label_hash(condition_labels(obj, condition.type_@, "Unknown"@)),
        flag(!deleted && status == "Unknown"@),
    ).insert(label_hash(condition_labels(obj, condition.type_@, "Deleted"@)), flag(deleted))
}

/// The suspend gauges after it was recorded whether an object is
/// suspended.
pub open spec fn recorded_suspend(before: Map<u64, int>, obj: ObjectReference, suspend: bool) -> Map<
    u64,
    int,
> {
    before.insert(label_hash(object_labels(obj)), flag(suspend))
}

/// The label value for a part of an object reference.
fn label(part: &Option<String>) -> (r: &str)
    ensures
        r@ == label_of(*part),
{
    match part {
        Some(text) => text.as_str(),
        None => {
            proof {
                reveal_strlit("");
            }
            ""
        },
    }
}

/// The label values that identify an object.
fn labels_of<'a>(obj: &'a ObjectReference) -> (r: Vec<&'a str>)
    ensures
        r@.len() == 3,
        texts(r@) == object_labels(*obj),
{
    let mut values: Vec<&str> = Vec::new();
    values.push(label(&obj.kind));
    values.push(label(&obj.name));
    values.push(label(&obj.namespace));
    assert(texts(values@) =~= object_labels(*obj));
    values
}

/// The label values of the gauge for one status of one condition type of
/// an object.
fn condition_labels_of<'a>(obj: &'a ObjectReference, condition_type: &'a str, status: &'a str) -> (r:
    Vec<&'a str>)
    ensures
        r@.len() == 5,
        texts(r@) == condition_labels(*obj, condition_type@, status@),
{
    let mut values = labels_of(obj);
    let ghost object = values@;
    values.push(condition_type);
    values.push(status);
    proof {
        assert(texts(object).len() == 3);
        assert(texts(object)[0] == object[0]@);
        assert(texts(object)[1] == object[1]@);
        assert(texts(object)[2] == object[2]@);
        assert(texts(values@) =~= condition_labels(*obj, condition_type@, status@));
    }
    values
}

/// The series that record the reconciliation of resources.
pub struct Recorder {
    condition: GaugeSeries,
    suspend: GaugeSeries,
    duration: HistogramSeries,
}

/// A timer of the reconciliation of an object: the kind, name and
/// namespace that its duration is recorded under, and the time it was
/// started at. A timer that is never stopped records nothing.
pub struct DurationTimer {
    kind: String,
    name: String,
    namespace: String,
    started: std::time::Instant,
}

impl View for DurationTimer {
    type V = Seq<Seq<char>>;

    /// The label values that the duration is recorded under.
    closed spec fn view(&self) -> Seq<Seq<char>> {
        seq![self.kind@, self.name@, self.namespace@]
    }
}

/// The buckets of the duration histograms: ten, from ten nanoseconds by
/// the factor ten.
pub open spec fn duration_buckets() -> Buckets {
    Buckets { start_nanos: BUCKET_START_NANOS, factor: BUCKET_FACTOR, count: BUCKET_COUNT }
}

impl Recorder {
    /// The condition gauges by their keys.
    pub closed spec fn conditions(self) -> Map<u64, int> {
        gauge_values(self.condition)
    }

    /// The suspend gauges by their keys.
    pub closed spec fn suspends(self) -> Map<u64, int> {
        gauge_values(self.suspend)
    }

    /// The duration histograms by their keys, each with the number of
    /// durations that were observed in it.
    pub closed spec fn durations(self) -> Map<u64, nat> {
        histogram_counts(self.duration)
    }

    /// The names of the labels of the condition gauges.
    pub closed spec fn condition_series_labels(self) -> Seq<Seq<char>> {
        gauge_labels(self.condition)
    }

    /// The names of the labels of the suspend gauges.
    pub closed spec fn suspend_series_labels(self) -> Seq<Seq<char>> {
        gauge_labels(self.suspend)
    }

    /// The names of the labels of the duration histograms.
    pub closed spec fn duration_series_labels(self) -> Seq<Seq<char>> {
        histogram_labels(self.duration)
    }

    /// The buckets of the duration histograms.
    pub closed spec fn duration_series_buckets(self) -> Buckets {
        histogram_buckets(self.duration)
    }

    /// The series are labelled and bucketed as the recorder makes them:
    /// the condition gauges by kind, name, namespace, type and status, the
    /// suspend gauges and the duration histograms by kind, name and
    /// namespace, the histograms with ten buckets from ten nanoseconds
    /// by the factor ten. It holds of every recorder that `new` has made.
    pub open spec fn wf(self) -> bool {
        &&& self.condition_series_labels() == condition_label_names()
        &&& self.suspend_series_labels() == object_label_names()
        &&& self.duration_series_labels() == object_label_names()
        &&& self.duration_series_buckets() == duration_buckets()
    }

    /// A recorder whose series hold nothing yet. The names, the help texts
    /// and the buckets of its series are such that `prometheus` takes
    /// them, so it is always made.
    pub fn new() -> (r: Result<Recorder, RecorderError>)
        ensures
            r matches Ok(recorder) && recorder.wf() && recorder.conditions() == no_gauges()
                && recorder.suspends() == no_gauges() && recorder.durations() == no_histograms(),
    {
        proof {
            lemma_recorder_makes_histograms();
        }
        let mut condition_labels: Vec<&str> = Vec::new();
        condition_labels.push("kind");
        condition_labels.push("name");
        condition_labels.push("namespace");
        condition_labels.push("type");
        condition_labels.push("status");
        proof {
            lemma_series_are_describable();
            assert(texts(condition_labels@) =~= condition_label_names());
        }
        let condition = match gauge_series_new(
            "condition",
            "The current condition status of a GitOps Toolkit resource reconciliation.",
            METRICS_SUBSYSTEM,
            METRICS_NAMESPACE,
            &condition_labels,
        ) {
            Ok(series) => series,
            Err(cause) => {
                return Err(RecorderError { series: Series::Condition, cause });
            },
        };

        let mut object_labels: Vec<&str> = Vec::new();
        object_labels.push("kind");
        object_labels.push("name");
        object_labels.push("namespace");
        proof {
            assert(texts(object_labels@) =~= object_label_names());
        }
        let suspend = match gauge_series_new(
            "status",
            "The current suspend status of a GitOps Toolkit resource.",
            METRICS_SUBSYSTEM,
            METRICS_NAMESPACE,
            &object_labels,
        ) {
            Ok(series) => series,
            Err(cause) => {
                return Err(RecorderError { series: Series::Suspend, cause });
            },
        };

        let duration = match histogram_series_new(
            "duration_seconds",
            "The duration in seconds of a GitOps Toolkit resource reconciliation.",
            METRICS_SUBSYSTEM,
            METRICS_NAMESPACE,
            BUCKET_START_NANOS,
            BUCKET_FACTOR,
            BUCKET_COUNT,
            &object_labels,
        ) {
            Ok(series) => series,
            Err(cause) => {
                return Err(RecorderError { series: Series::Duration, cause });
            },
        };

        Ok(Recorder { condition, suspend, duration })
    }

    /// The descriptors of the series: of the conditions, of the suspend
    /// marks and of the durations, in this order.
    pub fn desc(&self) -> (r: Vec<&prometheus::core::Desc>)
        ensures
            r@.len() == 3,
    {
        let mut result = gauge_desc(&self.condition);
        let mut suspend = gauge_desc(&self.suspend);
        let mut duration = histogram_desc(&self.duration);
        result.append(&mut suspend);
        result.append(&mut duration);
        result
    }

    /// The metrics of the series as they are exported: the family of the
    /// conditions, of the suspend marks and of the durations, in this
    /// order.
    pub fn collect(&self) -> (r: Vec<prometheus::proto::MetricFamily>)
        ensures
            r@.len() == 3,
    {
        let mut result = gauge_collect(&self.condition);
        let mut suspend = gauge_collect(&self.suspend);
        let mut duration = histogram_collect(&self.duration);
        result.append(&mut suspend);
        result.append(&mut duration);
        result
    }

    /// Records the status of a condition of an object: of the four gauges
    /// of the condition type, the one for the status is set to one and the
    /// others to zero. For a deleted object that one is `Deleted`,
    /// whatever the status.
    pub fn record_condition(&mut self, obj: &ObjectReference, condition: &Condition, deleted: bool)
        requires
            old(self).wf(),
        ensures
            final(self).wf(),
            final(self).conditions() == recorded_condition(
                old(self).conditions(),
                *obj,
                *condition,
                deleted,
            ),
            final(self).suspends() == old(self).suspends(),
            final(self).durations() == old(self).durations(),
    {
        proof {
            lemma_label_counts();
        }
        let ty = condition.type_.as_str();
        let status = condition.status.as_str();
        let is_true = !deleted && str_equal(status, "True");
        let is_false = !deleted && str_equal(status, "False");
        let is_unknown = !deleted && str_equal(status, "Unknown");
        gauge_set(&mut self.condition, &condition_labels_of(obj, ty, "True"), is_true);
        gauge_set(&mut self.condition, &condition_labels_of(obj, ty, "False"), is_false);
        gauge_set(&mut self.condition, &condition_labels_of(obj, ty, "Unknown"), is_unknown);
        gauge_set(&mut self.condition, &condition_labels_of(obj, ty, "Deleted"), deleted);
    }

    /// Records whether an object is suspended.
    pub fn record_suspend(&mut self, obj: &ObjectReference, suspend: bool)
        requires
            old(self).wf(),
        ensures
            final(self).wf(),
            final(self).suspends() == recorded_suspend(old(self).suspends(), *obj, suspend),
            final(self).conditions() == old(self).conditions(),
            final(self).durations() == old(self).durations(),
    {
        proof {
            lemma_label_counts();
        }
        gauge_set(&mut self.suspend, &labels_of(obj), suspend);
    }

    /// Starts a timer for a reconciliation of an object. The object then
    /// has a duration histogram, made without any observation if it had
    /// none, under the key of its kind, name and namespace, a part that is
    /// missing counting as the empty text. Starting observes nothing:
    /// the duration is observed when the timer is handed to
    /// `stop_duration`. A recorder that `new` has made always hands out a
    /// timer; where `prometheus` has no histogram for the object, nothing
    /// is changed.
    pub fn record_duration(&mut self, obj: &ObjectReference) -> (r: Result<
        DurationTimer,
        RecorderError,
    >)
        ensures
            old(self).wf() ==> r is Ok,
            r matches Ok(timer) ==> timer@ == object_labels(*obj) && final(self).durations()
                == touched_count(old(self).durations(), label_hash(object_labels(*obj))),
            r matches Err(e) ==> e.series == Series::Duration && final(self).durations() == old(
                self,
            ).durations(),
            final(self).conditions() == old(self).conditions(),
            final(self).suspends() == old(self).suspends(),
            final(self).wf() == old(self).wf(),
    {
        proof {
            lemma_recorder_makes_histograms();
            lemma_label_counts();
        }
        match histogram_touch(&mut self.duration, &labels_of(obj)) {
            Ok(()) => {
                let timer = DurationTimer {
                    kind: label(&obj.kind).to_owned(),
                    name: label(&obj.name).to_owned(),
                    namespace: label(&obj.namespace).to_owned(),
                    started: instant_now(),
                };
                Ok(timer)
            },
            Err(cause) => Err(RecorderError { series: Series::Duration, cause }),
        }
    }

    /// Stops a timer: the time since it was started is observed, once, in
    /// the duration histogram of the object that it was started for. The
    /// histograms of other objects and the gauges stay as they are. A
    /// recorder that `new` has made always takes the observation; where
    /// `prometheus` has no histogram for the object, nothing is changed.
    pub fn stop_duration(&mut self, timer: DurationTimer) -> (r: Result<(), RecorderError>)
        ensures
            old(self).wf() ==> r is Ok,
            r is Ok ==> final(self).durations() == observed_count(
                old(self).durations(),
                label_hash(timer@),
            ),
            r matches Err(e) ==> e.series == Series::Duration && final(self).durations() == old(
                self,
            ).durations(),
            final(self).conditions() == old(self).conditions(),
            final(self).suspends() == old(self).suspends(),
            final(self).wf() == old(self).wf(),
    {
        proof {
            lemma_recorder_makes_histograms();
            lemma_label_counts();
        }
        let mut values: Vec<&str> = Vec::new();
        values.push(timer.kind.as_str());
        values.push(timer.name.as_str());
        values.push(timer.namespace.as_str());
        assert(texts(values@) =~= timer@);
        match histogram_observe_since(&mut self.duration, &values, &timer.started) {
            Ok(()) => Ok(()),
            Err(cause) => Err(RecorderError { series: Series::Duration, cause }),
        }
    }

    /// The value of the gauge for one status of one condition type of an
    /// object; zero where none was recorded.
    pub fn condition_value(
        &mut self,
        obj: &ObjectReference,
        condition_type: &str,
        status: &str,
    ) -> (r: i64)
        requires
            old(self).wf(),
        ensures
            final(self).wf(),
            r == value_at(
                old(self).conditions(),
                label_hash(condition_labels(*obj, condition_type@, status@)),
            ),
            final(self).conditions() == touched(
                old(self).conditions(),
                label_hash(condition_labels(*obj, condition_type@, status@)),
            ),
            final(self).suspends() == old(self).suspends(),
            final(self).durations() == old(self).durations(),
    {
        proof {
            lemma_label_counts();
        }
        gauge_get(&mut self.condition, &condition_labels_of(obj, condition_type, status))
    }

    /// The value of the suspend gauge of an object; zero where none was
    /// recorded.
    pub fn suspend_value(&mut self, obj: &ObjectReference) -> (r: i64)
        requires
            old(self).wf(),
        ensures
            final(self).wf(),
            r == value_at(old(self).suspends(), label_hash(object_labels(*obj))),
            final(self).suspends() == touched(
                old(self).suspends(),
                label_hash(object_labels(*obj)),
            ),
            final(self).conditions() == old(self).conditions(),
            final(self).durations() == old(self).durations(),
    {
        proof {
            lemma_label_counts();
        }
        gauge_get(&mut self.suspend, &labels_of(obj))
    }

    /// How many durations were observed for an object, as far as
    /// `prometheus` counts them, in 63 bits. To count them, the object is
    /// given a duration histogram, without any observation, if it had
    /// none. A recorder that `new` has made always gives the count; where
    /// `prometheus` has no histogram for the object, nothing is changed.
    pub fn duration_count(&mut self, obj: &ObjectReference) -> (r: Result<u64, RecorderError>)
        ensures
            old(self).wf() ==> r is Ok,
            r matches Ok(n) ==> counted(
                old(self).durations(),
                label_hash(object_labels(*obj)),
                n,
            ) && final(self).durations() == touched_count(
                old(self).durations(),
                label_hash(object_labels(*obj)),
            ),
            r matches Err(e) ==> e.series == Series::Duration && final(self).durations() == old(
                self,
            ).durations(),
            final(self).conditions() == old(self).conditions(),
            final(self).suspends() == old(self).suspends(),
            final(self).wf() == old(self).wf(),
    {
        proof {
            lemma_recorder_makes_histograms();
            lemma_label_counts();
        }
        match histogram_sample_count(&mut self.duration, &labels_of(obj)) {
            Ok(count) => Ok(count),
            Err(cause) => Err(RecorderError { series: Series::Duration, cause }),
        }
    }
}

/// The labels of the series are five and three.
proof fn lemma_label_counts()
    ensures
        condition_label_names().len() == 5,
        object_label_names().len() == 3,
{
}

/// The duration histograms of the recorder can be made: none of their
/// labels is named `le`, and the bounds of their buckets rise and stay
/// finite.
proof fn lemma_recorder_makes_histograms()
    ensures
        makes_histograms(object_label_names(), duration_buckets()),
{
    reveal_strlit("kind");
    reveal_strlit("name");
    reveal_strlit("namespace");
    reveal_strlit("le");
    let names = object_label_names();
    assert(names[0] == "kind"@ && names[1] == "name"@ && names[2] == "namespace"@);
    assert("kind"@.len() == 4 && "name"@.len() == 4 && "namespace"@.len() == 9 && "le"@.len() == 2);
    assert forall|i: int| 0 <= i < names.len() implies #[trigger] names[i] != "le"@ by {
        assert(names[i].len() != 2);
    }
    let buckets = duration_buckets();
    assert(buckets.start_nanos == 10 && buckets.factor == 10 && buckets.count == 10);
    assert(power(10, 10) == 10_000_000_000) by {
        reveal_with_fuel(power, 11);
    }
    assert(rising(buckets.start_nanos, buckets.factor, buckets.count));
    assert(stays_finite(buckets));
}

/// A timer that is started and then stopped adds one observation to the
/// duration histogram of its object. Starting adds none, and the
/// histograms under other keys hold after the stop what they held before
/// the start.
pub proof fn lemma_timed_once(before: Map<u64, nat>, key: u64, other: u64)
    requires
        other != key,
    ensures
        count_at(touched_count(before, key), key) == count_at(before, key),
        count_at(observed_count(touched_count(before, key), key), key) == count_at(before, key) + 1,
        count_at(observed_count(touched_count(before, key), key), other) == count_at(before, other),
        count_at(touched_count(before, key), other) == count_at(before, other),
{
}

/// The names of the labels of the condition gauges.
pub open spec fn condition_label_names() -> Seq<Seq<char>> {
    seq!["kind"@, "name"@, "namespace"@, "type"@, "status"@]
}

/// The names of the labels of the suspend gauges and of the duration
/// histograms.
pub open spec fn object_label_names() -> Seq<Seq<char>> {
    seq!["kind"@, "name"@, "namespace"@]
}

/// Whether all of `text` are lower case ASCII letters or `_`.
spec fn is_plain(text: Seq<char>) -> bool {
    forall|i: int| 0 <= i < text.len() ==> ('a' <= #[trigger] text[i] && text[i] <= 'z') || text[i]
        == '_'
}

/// Plain texts in a row are plain.
proof fn lemma_plain_concat(a: Seq<char>, b: Seq<char>)
    requires
        is_plain(a),
        is_plain(b),
    ensures
        is_plain(a + b),
{
    assert forall|i: int| 0 <= i < (a + b).len() implies ('a' <= #[trigger] (a + b)[i] && (a
        + b)[i] <= 'z') || (a + b)[i] == '_' by {
        if i < a.len() {
            assert((a + b)[i] == a[i]);
        } else {
            assert((a + b)[i] == b[i - a.len()]);
        }
    }
}

/// A plain text that is not empty is a name, of a metric and of a label.
proof fn lemma_plain_is_name(text: Seq<char>, metric: bool)
    requires
        is_plain(text),
        text.len() > 0,
    ensures
        is_name(text, metric),
{
}

/// The full name of a series of the recorder is the name of a metric.
proof fn lemma_full_name_is_name(name: Seq<char>)
    requires
        is_plain(name),
        name.len() > 0,
    ensures
        is_name(full_name(METRICS_NAMESPACE@, METRICS_SUBSYSTEM@, name), true),
{
    reveal_strlit("gotk");
    reveal_strlit("reconcile");
    reveal_strlit("_");
    let namespace = METRICS_NAMESPACE@;
    let subsystem = METRICS_SUBSYSTEM@;
    assert(is_plain(namespace));
    assert(is_plain(subsystem));
    assert(is_plain("_"@));
    lemma_plain_concat(namespace, "_"@);
    lemma_plain_concat(namespace + "_"@, subsystem);
    lemma_plain_concat(namespace + "_"@ + subsystem, "_"@);
    lemma_plain_concat(namespace + "_"@ + subsystem + "_"@, name);
    lemma_plain_is_name(full_name(namespace, subsystem, name), true);
}

/// The descriptions of the three series of the recorder are such that
/// `prometheus` takes them.
proof fn lemma_series_are_describable()
    ensures
        describable(
            "condition"@,
            "The current condition status of a GitOps Toolkit resource reconciliation."@,
            METRICS_SUBSYSTEM@,
            METRICS_NAMESPACE@,
            condition_label_names(),
        ),
        describable(
            "status"@,
            "The current suspend status of a GitOps Toolkit resource."@,
            METRICS_SUBSYSTEM@,
            METRICS_NAMESPACE@,
            object_label_names(),
        ),
        describable(
            "duration_seconds"@,
            "The duration in seconds of a GitOps Toolkit resource reconciliation."@,
            METRICS_SUBSYSTEM@,
            METRICS_NAMESPACE@,
            object_label_names(),
        ),
{
    reveal_strlit("condition");
    reveal_strlit("status");
    reveal_strlit("duration_seconds");
    reveal_strlit("The current condition status of a GitOps Toolkit resource reconciliation.");
    reveal_strlit("The current suspend status of a GitOps Toolkit resource.");
    reveal_strlit("The duration in seconds of a GitOps Toolkit resource reconciliation.");
    reveal_strlit("kind");
    reveal_strlit("name");
    reveal_strlit("namespace");
    reveal_strlit("type");
    assert(is_plain("condition"@));
    assert(is_plain("status"@));
    assert(is_plain("duration_seconds"@));
    assert(is_plain("kind"@));
    assert(is_plain("name"@));
    assert(is_plain("namespace"@));
    assert(is_plain("type"@));
    lemma_full_name_is_name("condition"@);
    lemma_full_name_is_name("status"@);
    lemma_full_name_is_name("duration_seconds"@);
    lemma_plain_is_name("kind"@, false);
    lemma_plain_is_name("name"@, false);
    lemma_plain_is_name("namespace"@, false);
    lemma_plain_is_name("type"@, false);
    lemma_plain_is_name("status"@, false);
    assert("kind"@[0] != "name"@[0] && "kind"@[0] != "type"@[0] && "name"@[0] != "type"@[0]);
    let five = condition_label_names();
    assert(five[0] == "kind"@ && five[1] == "name"@ && five[2] == "namespace"@ && five[3]
        == "type"@ && five[4] == "status"@);
    let three = object_label_names();
    assert(three[0] == "kind"@ && three[1] == "name"@ && three[2] == "namespace"@);
}

/// The value of the gauge with the key `key`: zero where there is none.
pub open spec fn value_at(gauges: Map<u64, int>, key: u64) -> int {
    if gauges.contains_key(key) {
        gauges[key]
    } else {
        0
    }
}

/// The gauges after the one with the key `key` was looked at: it is there,
/// with the value zero if it was not there before.
pub open spec fn touched(gauges: Map<u64, int>, key: u64) -> Map<u64, int> {
    if gauges.contains_key(key) {
        gauges
    } else {
        gauges.insert(key, 0)
    }
}

/// Recording a condition a second time, with the same object, condition
/// and deletion mark, changes nothing.
pub proof fn lemma_record_condition_idempotent(
    before: Map<u64, int>,
    obj: ObjectReference,
    condition: Condition,
    deleted: bool,
)
    ensures
        recorded_condition(recorded_condition(before, obj, condition, deleted), obj, condition, deleted)
            == recorded_condition(before, obj, condition, deleted),
{
    let once = recorded_condition(before, obj, condition, deleted);
    assert(recorded_condition(once, obj, condition, deleted) =~= once);
}

/// For a deleted object the gauge `Deleted` is one, whatever the status of
/// the condition, and each of the gauges `True`, `False` and `Unknown` is
/// zero unless it shares its key with `Deleted`.
pub proof fn lemma_deleted_condition(
    before: Map<u64, int>,
    obj: ObjectReference,
    condition: Condition,
)
    ensures
        ({
            let after = recorded_condition(before, obj, condition, true);
            let deleted = label_hash(condition_labels(obj, condition.type_@, "Deleted"@));
            let on = label_hash(condition_labels(obj, condition.type_@, "True"@));
            let off = label_hash(condition_labels(obj, condition.type_@, "False"@));
            let unknown = label_hash(condition_labels(obj, condition.type_@, "Unknown"@));
            &&& value_at(after, deleted) == 1
            &&& on != deleted ==> value_at(after, on) == 0
            &&& off != deleted ==> value_at(after, off) == 0
            &&& unknown != deleted ==> value_at(after, unknown) == 0
        }),
{
}

/// Recording whether an object is suspended a second time, with the same
/// object and mark, changes nothing.
pub proof fn lemma_record_suspend_idempotent(
    before: Map<u64, int>,
    obj: ObjectReference,
    suspend: bool,
)
    ensures
        recorded_suspend(recorded_suspend(before, obj, suspend), obj, suspend) == recorded_suspend(
            before,
            obj,
            suspend,
        ),
{
    let once = recorded_suspend(before, obj, suspend);
    assert(recorded_suspend(once, obj, suspend) =~= once);
}

} // verus!
