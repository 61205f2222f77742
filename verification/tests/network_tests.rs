use wizctl::network::{correlate_unicast, filter_broadcast_echoes, rssi_to_signal_strength,
    unicast_step, Datagram, IpAddress, NetworkError, PollEvent, UnicastStep};

fn ip(o0: u8, o1: u8, o2: u8, o3: u8) -> IpAddress {
    IpAddress { o0, o1, o2, o3 }
}

fn datagram_from(source: IpAddress, data: &[u8]) -> Datagram {
    Datagram { data: data.to_vec(), source_ip: source, source_port: 38899 }
}

#[test]
fn delivers_datagram_from_expected_source() {
    let target = ip(192, 168, 0, 33);
    let event = PollEvent::Received(datagram_from(target, b"{\"ok\":true}"));
    match unicast_step(&target, 1000, 10, event) {
        UnicastStep::Deliver(d) => assert_eq!(d.data, b"{\"ok\":true}".to_vec()),
        _ => panic!("expected delivery"),
    }
}

#[test]
fn spoofed_source_fails_even_with_valid_payload() {
    let target = ip(192, 168, 0, 33);
    let spoofed = ip(192, 168, 0, 99);
    let payload = b"{\"method\":\"setPilot\",\"env\":\"pro\",\"result\":{\"success\":true}}";
    let polls = vec![(10, PollEvent::Received(datagram_from(spoofed, payload)))];
    let err = correlate_unicast(&target, 1000, polls).unwrap_err();
    match err {
        NetworkError::UnexpectedSource { actual, expected } => {
            assert_eq!(actual, spoofed);
            assert_eq!(expected, target);
        }
        _ => panic!("expected the unexpected-source failure"),
    }
}

#[test]
fn no_datagram_before_timeout_yields_no_response() {
    let target = ip(192, 168, 0, 33);
    let polls = vec![
        (0, PollEvent::Empty),
        (400, PollEvent::Empty),
        (800, PollEvent::Empty),
        (1000, PollEvent::Empty),
    ];
    let err = correlate_unicast(&target, 1000, polls).unwrap_err();
    match err {
        NetworkError::NoResponse { elapsed_ms } => assert!(elapsed_ms >= 1000),
        _ => panic!("expected the timeout failure"),
    }
}

#[test]
fn exhausted_poll_record_counts_as_timeout() {
    let target = ip(10, 0, 0, 1);
    let err = correlate_unicast(&target, 750, vec![]).unwrap_err();
    assert!(matches!(err, NetworkError::NoResponse { elapsed_ms: 750 }));
}

#[test]
fn datagram_after_timeout_is_not_delivered() {
    let target = ip(10, 0, 0, 1);
    let polls = vec![(2000, PollEvent::Received(datagram_from(target, b"late")))];
    let err = correlate_unicast(&target, 1000, polls).unwrap_err();
    assert!(matches!(err, NetworkError::NoResponse { elapsed_ms: 2000 }));
}

#[test]
fn waits_through_empty_polls_until_delivery() {
    let target = ip(10, 0, 0, 1);
    let polls = vec![
        (0, PollEvent::Empty),
        (100, PollEvent::Empty),
        (200, PollEvent::Received(datagram_from(target, b"reply"))),
    ];
    let d = correlate_unicast(&target, 1000, polls).unwrap();
    assert_eq!(d.data, b"reply".to_vec());
}

#[test]
fn broadcast_echo_is_excluded_even_from_another_source() {
    let sent = b"{\"method\":\"getSystemConfig\"}".to_vec();
    let received = vec![
        datagram_from(ip(192, 168, 0, 7), &sent),
        datagram_from(ip(192, 168, 0, 8), b"{\"method\":\"getSystemConfig\",\"env\":\"pro\"}"),
    ];
    let kept = filter_broadcast_echoes(&sent, received);
    assert_eq!(kept.len(), 1);
    assert_eq!(kept[0].source_ip, ip(192, 168, 0, 8));
}

#[test]
fn non_echoes_are_kept_in_arrival_order() {
    let sent = b"ping".to_vec();
    let received = vec![
        datagram_from(ip(1, 1, 1, 1), b"alpha"),
        datagram_from(ip(2, 2, 2, 2), b"ping"),
        datagram_from(ip(3, 3, 3, 3), b"beta"),
    ];
    let kept = filter_broadcast_echoes(&sent, received);
    assert_eq!(kept.len(), 2);
    assert_eq!(kept[0].data, b"alpha".to_vec());
    assert_eq!(kept[1].data, b"beta".to_vec());
}

#[test]
fn empty_collection_is_a_valid_outcome() {
    let sent = b"ping".to_vec();
    let kept = filter_broadcast_echoes(&sent, vec![]);
    assert!(kept.is_empty());
}

#[test]
fn signal_strength_buckets() {
    assert_eq!(rssi_to_signal_strength(-80), "\u{2840} ");
    assert_eq!(rssi_to_signal_strength(-70), "\u{28e0} ");
    assert_eq!(rssi_to_signal_strength(-60), "\u{28e0}\u{2846}");
    assert_eq!(rssi_to_signal_strength(-50), "\u{28e0}\u{28fe}");
    assert_eq!(rssi_to_signal_strength(0), "\u{28e0}\u{28fe}");
}
