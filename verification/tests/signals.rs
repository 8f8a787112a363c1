use fluxcd::cap::signals::{
    ShutdownSignal, Signal, SignalWatchError, SIGINT, SIGQUIT, SIGTERM,
};

#[test]
fn shutdown_is_seen_by_all_who_wait() {
    let mut shutdown = ShutdownSignal::new();
    let first = shutdown.subscribe();
    let second = shutdown.subscribe();
    assert!(!shutdown.observe(&first));
    assert!(!shutdown.observe(&second));

    assert!(shutdown.deliver(SIGTERM));
    assert!(shutdown.observe(&first));
    assert!(shutdown.observe(&second));

    let third = shutdown.subscribe();
    assert!(shutdown.observe(&third));
    assert!(shutdown.is_resolved());
    assert!(shutdown.signal() == Some(Signal::SigTerm));
    assert_ne!(first, second);
    assert_ne!(second, third);
    assert_eq!(first.order, 0);
    assert_eq!(second.order, 1);
    assert_eq!(third.order, 2);
}

#[test]
fn shutdown_resolves_at_most_once() {
    let mut shutdown = ShutdownSignal::new();
    assert!(!shutdown.deliver(1));
    assert!(!shutdown.deliver(0));
    assert!(!shutdown.deliver(-2));
    assert!(!shutdown.is_resolved());
    assert!(shutdown.deliver(SIGINT));
    assert!(!shutdown.deliver(SIGTERM));
    assert!(!shutdown.deliver(SIGINT));
    assert!(!shutdown.deliver(9));
    assert!(shutdown.signal() == Some(Signal::SigInt));
}

#[test]
fn signal_numbers_are_those_of_the_system() {
    assert_eq!(SIGTERM, signal_hook::consts::SIGTERM);
    assert_eq!(SIGINT, signal_hook::consts::SIGINT);
    assert_eq!(SIGQUIT, signal_hook::consts::SIGQUIT);
    assert_eq!(Signal::all(), vec![SIGTERM, SIGINT, SIGQUIT]);
}

#[test]
fn signal_by_number_and_name() {
    assert!(Signal::try_from(15) == Ok(Signal::SigTerm));
    assert!(Signal::try_from(2) == Ok(Signal::SigInt));
    assert!(Signal::try_from(3) == Ok(Signal::SigQuit));
    assert!(Signal::try_from(9) == Err(()));
    assert!(Signal::try_from(0) == Err(()));
    assert!(Signal::try_from(-15) == Err(()));
    assert_eq!(Signal::SigTerm.number(), 15);
    assert_eq!(Signal::SigInt.number(), 2);
    assert_eq!(Signal::SigQuit.number(), 3);
    assert_eq!(Signal::SigTerm.name(), "SIGTERM");
    assert_eq!(Signal::SigInt.name(), "SIGINT");
    assert_eq!(Signal::SigQuit.name(), "SIGQUIT");
}

#[test]
fn signal_watch_error_comes_from_io() {
    let error = std::io::Error::new(std::io::ErrorKind::Other, "no signals");
    match SignalWatchError::from(error) {
        SignalWatchError::Io(inner) => assert_eq!(inner.to_string(), "no signals"),
    }
}
