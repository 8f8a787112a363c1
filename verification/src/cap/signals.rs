//! The signals that end the process, and the shutdown that the first of
//! them starts for every controller.

use vstd::prelude::*;
use vstd::std_specs::convert::{FromSpecImpl, TryFromSpecImpl};
use vstd::string::StringExecFns;

verus! {

/// The number of the interrupt signal.
pub const SIGINT: i32 = 2;

/// The number of the quit signal.
pub const SIGQUIT: i32 = 3;

/// The number of the termination signal.
pub const SIGTERM: i32 = 15;

/// A signal that asks the process to end.
#[derive(Clone, Copy, PartialEq, Eq, Structural)]
pub enum Signal {
    SigTerm,
    SigInt,
    SigQuit,
}

impl Signal {
    /// The number of the signal.
    pub open spec fn spec_number(self) -> i32 {
        match self {
            Signal::SigTerm => SIGTERM,
            Signal::SigInt => SIGINT,
            Signal::SigQuit => SIGQUIT,
        }
    }

    /// The signal with the number `number`, if it is one that ends the
    /// process.
    pub open spec fn numbered(number: i32) -> Option<Signal> {
        if number == SIGTERM {
            Some(Signal::SigTerm)
        } else if number == SIGINT {
            Some(Signal::SigInt)
        } else if number == SIGQUIT {
            Some(Signal::SigQuit)
        } else {
            None
        }
    }

    /// The name of the signal.
    pub open spec fn spec_name(self) -> Seq<char> {
        match self {
            Signal::SigTerm => "SIGTERM"@,
            Signal::SigInt => "SIGINT"@,
            Signal::SigQuit => "SIGQUIT"@,
        }
    }

    /// The number of the signal.
    pub fn number(&self) -> (r: i32)
        ensures
            r == self.spec_number(),
            Signal::numbered(r) == Some(*self),
    {
        match self {
            Signal::SigTerm => SIGTERM,
            Signal::SigInt => SIGINT,
            Signal::SigQuit => SIGQUIT,
        }
    }

    /// The name of the signal.
    pub fn name(&self) -> (r: &'static str)
        ensures
            r@ == self.spec_name(),
    {
        match self {
            Signal::SigTerm => "SIGTERM",
            Signal::SigInt => "SIGINT",
            Signal::SigQuit => "SIGQUIT",
        }
    }

    /// The name of the signal, as a `String`.
    pub fn to_string(&self) -> (r: String)
        ensures
            r@ == self.spec_name(),
    {
        String::from_str(self.name())
    }

    /// The numbers of the signals that end the process.
    pub fn all() -> (r: Vec<i32>)
        ensures
            r@ == seq![SIGTERM, SIGINT, SIGQUIT],
            forall|number: i32| Signal::numbered(number) is Some <==> r@.contains(number),
    {
        let mut numbers: Vec<i32> = Vec::new();
        numbers.push(SIGTERM);
        numbers.push(SIGINT);
        numbers.push(SIGQUIT);
        proof {
            let s = seq![SIGTERM, SIGINT, SIGQUIT];
            assert(numbers@ =~= s);
            assert(s[0] == SIGTERM && s[1] == SIGINT && s[2] == SIGQUIT);
        }
        numbers
    }
}

impl TryFrom<i32> for Signal {
    type Error = ();

    fn try_from(value: i32) -> (r: Result<Self, ()>) {
        if value == SIGTERM {
            Ok(Signal::SigTerm)
        } else if value == SIGINT {
            Ok(Signal::SigInt)
        } else if value == SIGQUIT {
            Ok(Signal::SigQuit)
        } else {
            Err(())
        }
    }
}

impl TryFromSpecImpl<i32> for Signal {
    open spec fn obeys_try_from_spec() -> bool {
        true
    }

    open spec fn try_from_spec(value: i32) -> Result<Self, ()> {
        match Signal::numbered(value) {
            Some(signal) => Ok(signal),
            None => Err(()),
        }
    }
}

#[verifier::external_type_specification]
#[verifier::external_body]
pub struct ExIoError(std::io::Error);

/// The signals of the process could not be subscribed to.
#[derive(Debug)]
pub enum SignalWatchError {
    Io(std::io::Error),
}

impl From<std::io::Error> for SignalWatchError {
    fn from(error: std::io::Error) -> (r: SignalWatchError) {
        SignalWatchError::Io(error)
    }
}

impl FromSpecImpl<std::io::Error> for SignalWatchError {
    open spec fn obeys_from_spec() -> bool {
        true
    }

    open spec fn from_spec(error: std::io::Error) -> SignalWatchError {
        SignalWatchError::Io(error)
    }
}

/// The state of the shutdown after the signal with the number `number`
/// was received: the first signal that ends the process resolves it, and
/// it stays resolved by that signal.
pub open spec fn after_signal(state: Option<Signal>, number: i32) -> Option<Signal> {
    match state {
        Some(signal) => Some(signal),
        None => Signal::numbered(number),
    }
}

/// The state of the shutdown after the signals with the numbers `numbers`
/// were received in their order.
pub open spec fn after_signals(state: Option<Signal>, numbers: Seq<i32>) -> Option<Signal>
    decreases numbers.len(),
{
    if numbers.len() == 0 {
        state
    } else {
        after_signal(after_signals(state, numbers.drop_last()), numbers.last())
    }
}

/// One who waits for the shutdown.
#[derive(Clone, Copy, Debug, PartialEq, Eq, Structural)]
pub struct Subscription {
    /// How many subscribed before.
    pub order: usize,
}

/// The shutdown of the process: pending until the first signal that ends
/// the process is received, resolved from then on. All who wait for it see
/// the same state.
pub struct ShutdownSignal {
    resolved: Option<Signal>,
    subscribers: usize,
}

/// A `ShutdownSignal` as plain values.
pub struct ShutdownView {
    /// The signal that resolved the shutdown, if it is resolved.
    pub signal: Option<Signal>,
    /// How many have subscribed, as far as a `usize` counts them.
    pub subscribers: nat,
}

impl View for ShutdownSignal {
    type V = ShutdownView;

    closed spec fn view(&self) -> ShutdownView {
        ShutdownView { signal: self.resolved, subscribers: self.subscribers as nat }
    }
}

impl ShutdownSignal {
    /// A pending shutdown, with nobody who waits for it.
    pub fn new() -> (r: ShutdownSignal)
        ensures
            r@ == (ShutdownView { signal: None, subscribers: 0 }),
    {
        ShutdownSignal { resolved: None, subscribers: 0 }
    }

    /// Takes note of a signal of the process. It tells whether this signal
    /// resolved the shutdown: it did if the shutdown was pending and the
    /// signal is one that ends the process. Other signals are passed over.
    pub fn deliver(&mut self, number: i32) -> (r: bool)
        ensures
            final(self)@.signal == after_signal(old(self)@.signal, number),
            final(self)@.subscribers == old(self)@.subscribers,
            r == (old(self)@.signal is None && final(self)@.signal is Some),
    {
        if self.resolved.is_some() {
            return false;
        }
        match Signal::try_from(number) {
            Ok(signal) => {
                self.resolved = Some(signal);
                true
            },
            Err(_) => false,
        }
    }

    /// Whether the shutdown is resolved.
    pub fn is_resolved(&self) -> (r: bool)
        ensures
            r == self@.signal is Some,
    {
        self.resolved.is_some()
    }

    /// The signal that resolved the shutdown.
    pub fn signal(&self) -> (r: Option<Signal>)
        ensures
            r == self@.signal,
    {
        self.resolved
    }

    /// Adds one who waits for the shutdown, and tells how many subscribed
    /// before. This leaves the state of the shutdown as it is.
    pub fn subscribe(&mut self) -> (r: Subscription)
        ensures
            final(self)@.signal == old(self)@.signal,
            r.order == old(self)@.subscribers,
            final(self)@.subscribers == if old(self)@.subscribers < usize::MAX {
                old(self)@.subscribers + 1
            } else {
                old(self)@.subscribers
            },
    {
        let order = self.subscribers;
        if self.subscribers < usize::MAX {
            self.subscribers = self.subscribers + 1;
        }
        Subscription { order }
    }

    /// What one who waits sees: whether the shutdown is resolved. It is
    /// the same for all, whenever they subscribed.
    pub fn observe(&self, subscription: &Subscription) -> (r: bool)
        ensures
            r == self@.signal is Some,
    {
        self.resolved.is_some()
    }
}

/// A resolved shutdown stays resolved, by the same signal, whatever
/// signals follow: it resolves at most once.
pub proof fn lemma_resolves_at_most_once(signal: Signal, numbers: Seq<i32>)
    ensures
        after_signals(Some(signal), numbers) == Some(signal),
    decreases numbers.len(),
{
    if numbers.len() > 0 {
        lemma_resolves_at_most_once(signal, numbers.drop_last());
    }
}

/// A pending shutdown is resolved by the first signal that ends the
/// process, and signals of other numbers leave it pending.
pub proof fn lemma_first_signal_resolves(numbers: Seq<i32>, k: int)
    requires
        0 <= k < numbers.len(),
        Signal::numbered(numbers[k]) is Some,
        forall|i: int| 0 <= i < k ==> Signal::numbered(#[trigger] numbers[i]) is None,
    ensures
        after_signals(None, numbers) == Signal::numbered(numbers[k]),
        after_signals(None, numbers.take(k)) is None,
    decreases numbers.len(),
{
    lemma_stays_pending(numbers.take(k));
    if k == numbers.len() - 1 {
        assert(numbers.drop_last() =~= numbers.take(k));
    } else {
        let front = numbers.drop_last();
        assert(front.take(k) =~= numbers.take(k));
        lemma_first_signal_resolves(front, k);
    }
}

/// Signals that do not end the process leave a pending shutdown pending.
pub proof fn lemma_stays_pending(numbers: Seq<i32>)
    requires
        forall|i: int| 0 <= i < numbers.len() ==> Signal::numbered(#[trigger] numbers[i]) is None,
    ensures
        after_signals(None, numbers) is None,
    decreases numbers.len(),
{
    if numbers.len() > 0 {
        lemma_stays_pending(numbers.drop_last());
    }
}

} // verus!
