use bromine::correlator::{Failed, ReplyCorrelator, DEFAULT_PENDING_CAP};
use bromine::error::{Error, ProtocolFault};

#[test]
fn slot_is_found_once() {
    let mut correlator = ReplyCorrelator::new(DEFAULT_PENDING_CAP);
    assert_eq!(correlator.register(1, 50), Ok(()));
    assert!(correlator.contains(1));
    assert!(correlator.resolve(1));
    assert!(!correlator.resolve(1));
    assert!(!correlator.contains(1));
    assert_eq!(correlator.len(), 0);
}

#[test]
fn reply_for_which_nothing_waits() {
    let mut correlator = ReplyCorrelator::new(4);
    correlator.register(1, 50).unwrap();
    assert!(!correlator.resolve(2));
    assert_eq!(correlator.len(), 1);
}

#[test]
fn id_that_waits_already_is_refused() {
    let mut correlator = ReplyCorrelator::new(4);
    correlator.register(1, 50).unwrap();
    assert_eq!(
        correlator.register(1, 60),
        Err(Error::Protocol(ProtocolFault::DuplicateId))
    );
    assert_eq!(correlator.len(), 1);
}

#[test]
fn full_correlator_takes_no_more() {
    let mut correlator = ReplyCorrelator::new(2);
    correlator.register(1, 50).unwrap();
    correlator.register(2, 50).unwrap();
    assert_eq!(
        correlator.register(3, 50),
        Err(Error::Protocol(ProtocolFault::TooManyPending))
    );
    assert_eq!(
        correlator.register(2, 50),
        Err(Error::Protocol(ProtocolFault::DuplicateId))
    );
    assert!(correlator.resolve(1));
    assert_eq!(correlator.register(3, 50), Ok(()));
    assert_eq!(DEFAULT_PENDING_CAP, 10_000);
}

#[test]
fn slots_expire_at_their_deadline() {
    let mut correlator = ReplyCorrelator::new(8);
    correlator.register(1, 50).unwrap();
    correlator.register(2, 10).unwrap();
    correlator.register(3, 51).unwrap();
    correlator.register(4, 20).unwrap();
    assert_eq!(correlator.expire_due(9), vec![]);
    assert_eq!(
        correlator.expire_due(50),
        vec![
            Failed { id: 1, error: Error::Timeout },
            Failed { id: 2, error: Error::Timeout },
            Failed { id: 4, error: Error::Timeout }
        ]
    );
    assert_eq!(correlator.expire_due(50), vec![]);
    assert!(!correlator.resolve(1));
    assert!(correlator.contains(3));
    assert_eq!(correlator.len(), 1);
}

#[test]
fn teardown_fails_every_slot() {
    let mut correlator = ReplyCorrelator::new(8);
    correlator.register(5, 50).unwrap();
    correlator.register(3, 10).unwrap();
    assert_eq!(
        correlator.drain_all(Error::Closed),
        vec![
            Failed { id: 5, error: Error::Closed },
            Failed { id: 3, error: Error::Closed }
        ]
    );
    assert_eq!(correlator.len(), 0);
    assert_eq!(correlator.drain_all(Error::Closed), vec![]);
    assert!(!correlator.resolve(5));
}
