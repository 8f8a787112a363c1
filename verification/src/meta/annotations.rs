//! The annotation that asks for a reconciliation, and the status field that
//! remembers the last request that was handled.

use crate::text::str_equal;
use vstd::prelude::*;

verus! {

/// ReconcileRequestAnnotation is the annotation used for triggering a reconciliation
/// outside of a defined schedule. The value is interpreted as a token, and any change
/// in value SHOULD trigger a reconciliation.
pub const RECONCILE_REQUEST_ANNOTATION: &'static str = "reconcile.fluxcd.io/requestedAt";

/// The annotations of an object: values by key, each key with one value.
#[derive(Debug)]
pub struct Annotations {
    entries: Vec<(String, String)>,
}

/// The map that a list of entries stands for: of two entries with one key
/// the later one counts.
pub open spec fn entries_map(entries: Seq<(String, String)>) -> Map<Seq<char>, Seq<char>>
    decreases entries.len(),
{
    if entries.len() == 0 {
        Map::empty()
    } else {
        entries_map(entries.drop_last()).insert(entries.last().0@, entries.last().1@)
    }
}

/// An entry after which none has its key gives the key its value.
proof fn lemma_last_entry_counts(entries: Seq<(String, String)>, i: int)
    requires
        0 <= i < entries.len(),
        forall|j: int| i < j < entries.len() ==> (#[trigger] entries[j]).0@ != entries[i].0@,
    ensures
        entries_map(entries).contains_key(entries[i].0@),
        entries_map(entries)[entries[i].0@] == entries[i].1@,
    decreases entries.len(),
{
    if i < entries.len() - 1 {
        let front = entries.drop_last();
        assert(front[i] == entries[i]);
        assert forall|j: int| i < j < front.len() implies (#[trigger] front[j]).0@
            != front[i].0@ by {
            assert(front[j] == entries[j]);
        }
        lemma_last_entry_counts(front, i);
        assert(entries.last() == entries[entries.len() - 1]);
    }
}

/// A key that no entry has is not in the map.
proof fn lemma_absent_key(entries: Seq<(String, String)>, key: Seq<char>)
    requires
        forall|j: int| 0 <= j < entries.len() ==> (#[trigger] entries[j]).0@ != key,
    ensures
        !entries_map(entries).contains_key(key),
    decreases entries.len(),
{
    if entries.len() > 0 {
        let front = entries.drop_last();
        assert forall|j: int| 0 <= j < front.len() implies (#[trigger] front[j]).0@ != key by {
            assert(front[j] == entries[j]);
        }
        lemma_absent_key(front, key);
        assert(entries.last() == entries[entries.len() - 1]);
    }
}

/// Giving the last entry of a key another value gives the key that value
/// and leaves the other keys as they are.
proof fn lemma_replaced_entry(entries: Seq<(String, String)>, i: int, entry: (String, String))
    requires
        0 <= i < entries.len(),
        entry.0@ == entries[i].0@,
        forall|j: int| i < j < entries.len() ==> (#[trigger] entries[j]).0@ != entries[i].0@,
    ensures
        entries_map(entries.update(i, entry)) == entries_map(entries).insert(entry.0@, entry.1@),
    decreases entries.len(),
{
    let changed = entries.update(i, entry);
    if i == entries.len() - 1 {
        assert(changed.drop_last() =~= entries.drop_last());
        assert(entries_map(changed) =~= entries_map(entries).insert(entry.0@, entry.1@));
    } else {
        let front = entries.drop_last();
        assert(front[i] == entries[i]);
        assert forall|j: int| i < j < front.len() implies (#[trigger] front[j]).0@
            != front[i].0@ by {
            assert(front[j] == entries[j]);
        }
        lemma_replaced_entry(front, i, entry);
        assert(changed.drop_last() =~= front.update(i, entry));
        assert(changed.last() == entries.last());
        assert(entries.last() == entries[entries.len() - 1]);
        assert(entries_map(changed) =~= entries_map(entries).insert(entry.0@, entry.1@));
    }
}

impl View for Annotations {
    type V = Map<Seq<char>, Seq<char>>;

    closed spec fn view(&self) -> Map<Seq<char>, Seq<char>> {
        entries_map(self.entries@)
    }
}

impl Annotations {
    /// No annotations.
    pub fn new() -> (r: Annotations)
        ensures
            r@ == Map::<Seq<char>, Seq<char>>::empty(),
    {
        Annotations { entries: Vec::new() }
    }

    /// The place of the last entry with the key `key`.
    fn position(&self, key: &str) -> (r: Option<usize>)
        ensures
            match r {
                Some(i) => i < self.entries.len() && self.entries[i as int].0@ == key@
                    && forall|j: int|
                    i < j < self.entries.len() ==> (#[trigger] self.entries[j]).0@ != key@,
                None => forall|j: int|
                    0 <= j < self.entries.len() ==> (#[trigger] self.entries[j]).0@ != key@,
            },
    {
        let mut i: usize = self.entries.len();
        while i > 0
            invariant
                i <= self.entries.len(),
                forall|j: int|
                    i <= j < self.entries.len() ==> (#[trigger] self.entries[j]).0@ != key@,
            decreases i,
        {
            i = i - 1;
            if str_equal(self.entries[i].0.as_str(), key) {
                return Some(i);
            }
        }
        None
    }

    /// The value of the annotation `key`, if the object has it.
    pub fn get(&self, key: &str) -> (r: Option<&String>)
        ensures
            match r {
                Some(value) => self@.contains_key(key@) && self@[key@] == value@,
                None => !self@.contains_key(key@),
            },
    {
        match self.position(key) {
            Some(i) => {
                proof {
                    lemma_last_entry_counts(self.entries@, i as int);
                }
                Some(&self.entries[i].1)
            },
            None => {
                proof {
                    lemma_absent_key(self.entries@, key@);
                }
                None
            },
        }
    }

    /// Gives the annotation `key` the value `value`.
    pub fn insert(&mut self, key: String, value: String)
        ensures
            final(self)@ == old(self)@.insert(key@, value@),
    {
        match self.position(key.as_str()) {
            Some(i) => {
                proof {
                    lemma_replaced_entry(self.entries@, i as int, (key, value));
                }
                self.entries.set(i, (key, value));
            },
            None => {
                proof {
                    assert(self.entries@.push((key, value)).drop_last() =~= self.entries@);
                }
                self.entries.push((key, value));
            },
        }
    }
}

/// ReconcileAnnotationValue returns a value for the reconciliation request annotation, which can be used to detect
/// changes, if the annotation is set.
pub fn get_reconcile_annotation_value(annotations: &Annotations) -> (r: Option<&String>)
    ensures
        match r {
            Some(value) => annotations@.contains_key(RECONCILE_REQUEST_ANNOTATION@)
                && annotations@[RECONCILE_REQUEST_ANNOTATION@] == value@,
            None => !annotations@.contains_key(RECONCILE_REQUEST_ANNOTATION@),
        },
{
    annotations.get(RECONCILE_REQUEST_ANNOTATION)
}

/// ReconcileRequestStatus is a struct to embed in a status type, so that all types using the mechanism have the same
/// field.
#[derive(PartialEq, Hash, Debug, Clone)]
pub struct ReconcileRequestStatus {
    /// LastHandledReconcileAt holds the value of the most recent
    /// reconcile request value, so a change of the annotation value
    /// can be detected.
    last_handled_reconcile_at: Option<String>,
}

impl View for ReconcileRequestStatus {
    type V = Option<Seq<char>>;

    /// The most recent reconcile request value.
    closed spec fn view(&self) -> Option<Seq<char>> {
        match self.last_handled_reconcile_at {
            Some(token) => Some(token@),
            None => None,
        }
    }
}

impl Default for ReconcileRequestStatus {
    fn default() -> (r: Self)
        ensures
            r@ is None,
    {
        ReconcileRequestStatus { last_handled_reconcile_at: None }
    }
}

impl ReconcileRequestStatus {
    /// GetLastHandledReconcileRequest returns the most recent reconcile request value from the ReconcileRequestStatus.
    pub fn get_last_handled_reconcile_request(&self) -> (r: Option<&str>)
        ensures
            match r {
                Some(token) => self@ == Some(token@),
                None => self@ is None,
            },
    {
        match &self.last_handled_reconcile_at {
            Some(token) => Some(token.as_str()),
            None => None,
        }
    }

    /// SetLastHandledReconcileRequest sets the most recent reconcile request value in the ReconcileRequestStatus.
    pub fn set_last_handled_reconcile_request(&mut self, token: Option<String>)
        ensures
            final(self)@ == match token {
                Some(t) => Some(t@),
                None => None,
            },
    {
        self.last_handled_reconcile_at = token;
    }
}

/// StatusWithHandledReconcileRequest describes a status type which holds the value of the most recent
/// ReconcileAnnotationValue.
pub trait StatusWithHandledReconcileRequest {
    /// The most recent reconcile request value that the status holds.
    /// A status type says what it is; unless it does, nothing is known of
    /// it.
    open spec fn last_handled(&self) -> Option<Seq<char>> {
        arbitrary()
    }

    fn get_last_handled_reconcile_request(&self) -> (r: Option<&str>)
        ensures
            match r {
                Some(token) => self.last_handled() == Some(token@),
                None => self.last_handled() is None,
            },
    ;
}

/// StatusWithHandledReconcileRequestSetter describes a status with a setter for the most ReconcileAnnotationValue.
pub trait StatusWithHandledReconcileRequestSetter: StatusWithHandledReconcileRequest {
    fn set_last_handled_reconcile_request(&mut self, token: Option<String>)
        ensures
            final(self).last_handled() == match token {
                Some(t) => Some(t@),
                None => None,
            },
    ;
}

impl StatusWithHandledReconcileRequest for ReconcileRequestStatus {
    closed spec fn last_handled(&self) -> Option<Seq<char>> {
        self@
    }

    fn get_last_handled_reconcile_request(&self) -> (r: Option<&str>) {
        ReconcileRequestStatus::get_last_handled_reconcile_request(self)
    }
}

impl StatusWithHandledReconcileRequestSetter for ReconcileRequestStatus {
    fn set_last_handled_reconcile_request(&mut self, token: Option<String>) {
        ReconcileRequestStatus::set_last_handled_reconcile_request(self, token)
    }
}

} // verus!
