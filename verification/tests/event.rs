use bromine::error::{Error, ProtocolFault};
use bromine::event::{Event, EventType, Header, DEFAULT_PAYLOAD_CAP, HEADER_LEN};

fn ping() -> Event {
    Event::new(1, None, None, String::from("ping"), vec![]).unwrap()
}

#[test]
fn frame_of_an_initial_event() {
    let event = Event::new(
        0x0102,
        None,
        Some(String::from("ns")),
        String::from("ping"),
        vec![0xaa, 0xbb],
    )
    .unwrap();
    let mut expected = vec![0, 0, 0, 0, 0, 0, 1, 2]; // id
    expected.push(0); // initial
    expected.extend_from_slice(&[0; 8]); // reference
    expected.push(2); // namespace length
    expected.push(4); // name length
    expected.extend_from_slice(&[0, 0, 0, 0, 0, 0, 0, 2]); // payload length
    expected.extend_from_slice(b"ns");
    expected.extend_from_slice(b"ping");
    expected.extend_from_slice(&[0xaa, 0xbb]);
    assert_eq!(event.to_bytes(), expected);
    assert_eq!(expected.len(), HEADER_LEN + 2 + 4 + 2);
}

#[test]
fn frame_of_a_response() {
    let event = Event::new(7, Some(1), None, String::from("pong"), vec![]).unwrap();
    let bytes = event.to_bytes();
    assert_eq!(bytes[8], 1);
    assert_eq!(&bytes[9..17], &[0, 0, 0, 0, 0, 0, 0, 1]);
    assert_eq!(bytes[17], 0);
    assert_eq!(bytes[18], 4);
    assert_eq!(&bytes[27..], b"pong");
}

#[test]
fn event_fields() {
    let event = Event::new(5, Some(3), Some(String::from("my_ns")), String::from("ok"), vec![1])
        .unwrap();
    assert_eq!(event.id(), 5);
    assert_eq!(event.event_type(), EventType::Response);
    assert_eq!(event.reference_id(), Some(3));
    assert_eq!(event.namespace(), &Some(String::from("my_ns")));
    assert_eq!(event.name(), "ok");
    assert_eq!(event.payload(), &[1]);
    let initial = ping();
    assert_eq!(initial.event_type(), EventType::Initial);
    assert_eq!(initial.reference_id(), None);
    assert_eq!(initial.namespace(), &None);
    assert_eq!(initial.clone(), initial);
}

#[test]
fn frame_round_trip() {
    let events = vec![
        ping(),
        Event::new(2, Some(1), None, String::from("pong"), vec![]).unwrap(),
        Event::new(u64::MAX, None, Some(String::from("späce")), String::from("näme"), vec![0; 300])
            .unwrap(),
        Event::new(3, Some(u64::MAX), Some(String::from("n")), String::from("x"), vec![1, 2, 3])
            .unwrap(),
    ];
    for event in events {
        let bytes = event.to_bytes();
        let (back, used) = Event::from_bytes(&bytes, DEFAULT_PAYLOAD_CAP).unwrap();
        assert_eq!(used, bytes.len());
        assert_eq!(back, event);
        assert_eq!(back.to_bytes(), bytes);
    }
}

#[test]
fn frames_follow_each_other_without_separators() {
    let first = ping();
    let second = Event::new(2, Some(1), None, String::from("pong"), vec![5]).unwrap();
    let mut wire = first.to_bytes();
    wire.extend_from_slice(&second.to_bytes());
    let (a, used) = Event::from_bytes(&wire, DEFAULT_PAYLOAD_CAP).unwrap();
    assert_eq!(a, first);
    let (b, rest) = Event::from_bytes(&wire[used..], DEFAULT_PAYLOAD_CAP).unwrap();
    assert_eq!(b, second);
    assert_eq!(used + rest, wire.len());
}

#[test]
fn name_of_one_byte_is_accepted() {
    let event = Event::new(1, None, None, String::from("a"), vec![]).unwrap();
    let (back, _) = Event::from_bytes(&event.to_bytes(), DEFAULT_PAYLOAD_CAP).unwrap();
    assert_eq!(back.name(), "a");
}

#[test]
fn empty_name_is_rejected() {
    assert_eq!(
        Event::new(1, None, None, String::new(), vec![]),
        Err(Error::Protocol(ProtocolFault::EmptyName))
    );
    let mut bytes = ping().to_bytes();
    bytes[18] = 0;
    assert_eq!(
        Event::from_bytes(&bytes, DEFAULT_PAYLOAD_CAP),
        Err(Error::Protocol(ProtocolFault::EmptyName))
    );
}

#[test]
fn empty_namespace_is_rejected() {
    assert_eq!(
        Event::new(1, None, Some(String::new()), String::from("a"), vec![]),
        Err(Error::Protocol(ProtocolFault::EmptyName))
    );
}

#[test]
fn empty_payload_is_accepted() {
    let (back, used) = Event::from_bytes(&ping().to_bytes(), DEFAULT_PAYLOAD_CAP).unwrap();
    assert!(back.payload().is_empty());
    assert_eq!(used, HEADER_LEN + 4);
}

#[test]
fn namespace_of_length_zero_means_global() {
    let bytes = ping().to_bytes();
    assert_eq!(bytes[17], 0);
    let (back, _) = Event::from_bytes(&bytes, DEFAULT_PAYLOAD_CAP).unwrap();
    assert_eq!(back.namespace(), &None);
}

#[test]
fn payload_at_the_cap_is_accepted_and_one_more_rejected() {
    let event = Event::new(1, None, None, String::from("big"), vec![7; 100]).unwrap();
    let bytes = event.to_bytes();
    assert!(Event::from_bytes(&bytes, 100).is_ok());
    assert_eq!(
        Event::from_bytes(&bytes, 99),
        Err(Error::Protocol(ProtocolFault::PayloadTooLarge))
    );
    assert_eq!(DEFAULT_PAYLOAD_CAP, 64 * 1024 * 1024);
    assert!(Header::parse(&bytes, 100).is_ok());
    assert_eq!(
        Header::parse(&bytes, 99),
        Err(Error::Protocol(ProtocolFault::PayloadTooLarge))
    );
}

#[test]
fn response_that_refers_to_nothing_is_rejected() {
    assert_eq!(
        Event::new(2, Some(0), None, String::from("pong"), vec![]),
        Err(Error::Protocol(ProtocolFault::ZeroReference))
    );
    let mut bytes = Event::new(2, Some(1), None, String::from("pong"), vec![])
        .unwrap()
        .to_bytes();
    bytes[16] = 0;
    assert_eq!(
        Event::from_bytes(&bytes, DEFAULT_PAYLOAD_CAP),
        Err(Error::Protocol(ProtocolFault::ZeroReference))
    );
}

#[test]
fn unknown_event_type_is_rejected() {
    let mut bytes = ping().to_bytes();
    bytes[8] = 2;
    assert_eq!(
        Event::from_bytes(&bytes, DEFAULT_PAYLOAD_CAP),
        Err(Error::Protocol(ProtocolFault::BadEventType))
    );
}

#[test]
fn frame_that_ends_early_is_rejected() {
    let bytes = Event::new(1, None, Some(String::from("ns")), String::from("ping"), vec![1, 2, 3])
        .unwrap()
        .to_bytes();
    for cut in 0..bytes.len() {
        assert_eq!(
            Event::from_bytes(&bytes[..cut], DEFAULT_PAYLOAD_CAP),
            Err(Error::Protocol(ProtocolFault::Truncated))
        );
    }
}

#[test]
fn text_that_is_not_utf8_is_rejected() {
    let mut bytes = ping().to_bytes();
    bytes[HEADER_LEN] = 0xff;
    assert_eq!(
        Event::from_bytes(&bytes, DEFAULT_PAYLOAD_CAP),
        Err(Error::Protocol(ProtocolFault::InvalidText))
    );
}

#[test]
fn text_of_more_than_255_bytes_is_rejected() {
    let long = "x".repeat(256);
    assert_eq!(
        Event::new(1, None, None, long.clone(), vec![]),
        Err(Error::Protocol(ProtocolFault::TextTooLong))
    );
    assert_eq!(
        Event::new(1, None, Some(long), String::from("a"), vec![]),
        Err(Error::Protocol(ProtocolFault::TextTooLong))
    );
    assert!(Event::new(1, None, Some("y".repeat(255)), "x".repeat(255), vec![]).is_ok());
}

#[test]
fn reference_of_an_initial_event_is_not_looked_at() {
    let mut bytes = ping().to_bytes();
    bytes[16] = 9;
    let (back, _) = Event::from_bytes(&bytes, DEFAULT_PAYLOAD_CAP).unwrap();
    assert_eq!(back, ping());
}

#[test]
fn header_and_sections() {
    let event = Event::new(9, None, Some(String::from("ns")), String::from("ping"), vec![1])
        .unwrap();
    let header = event.header();
    assert_eq!(
        header,
        Header {
            id: 9,
            event_type: EventType::Initial,
            reference_id: 0,
            namespace_len: 2,
            name_len: 4,
            payload_len: 1
        }
    );
    let bytes = event.to_bytes();
    assert_eq!(header.to_bytes(), bytes[..HEADER_LEN].to_vec());
    assert_eq!(Header::parse(&bytes[..HEADER_LEN], 10), Ok(header));
    assert_eq!(Event::from_parts(&header, b"ns", b"ping", vec![1]), Ok(event));
    assert_eq!(
        Event::from_parts(&header, b"n", b"ping", vec![1]),
        Err(Error::Protocol(ProtocolFault::Truncated))
    );
    assert_eq!(
        Event::from_parts(&header, b"ns", b"ping", vec![1, 2]),
        Err(Error::Protocol(ProtocolFault::Truncated))
    );
    assert_eq!(
        Event::from_parts(&header, b"ns", &[b'p', 0xc3, b'n', b'g'], vec![1]),
        Err(Error::Protocol(ProtocolFault::InvalidText))
    );
    let nameless = Header { name_len: 0, ..header };
    assert_eq!(
        Event::from_parts(&nameless, b"ns", b"", vec![1]),
        Err(Error::Protocol(ProtocolFault::EmptyName))
    );
    let dangling = Header { event_type: EventType::Response, ..header };
    assert_eq!(
        Event::from_parts(&dangling, b"ns", b"ping", vec![1]),
        Err(Error::Protocol(ProtocolFault::ZeroReference))
    );
}

#[test]
fn fatal_and_local_failures() {
    assert!(Error::Io.is_fatal());
    assert!(Error::Protocol(ProtocolFault::Truncated).is_fatal());
    assert!(Error::Crypto.is_fatal());
    assert!(!Error::Timeout.is_fatal());
    assert!(!Error::UnknownEvent.is_fatal());
    assert!(!Error::HandlerFailure.is_fatal());
    assert!(!Error::Closed.is_fatal());
}
