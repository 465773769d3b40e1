use dns_parser::{Builder, QueryClass, QueryType};
use ring_detector::dns::{
    decode_record, emit, get_action_message, get_config_message, handle_frame, handle_packet,
    match_questions, ConnectionState, DnsSocket, FrameError, Observation, Question, StartupGuard,
    StreamAction, StreamError, StreamEvent, StreamReport, HOST_EU, HOST_US, IGNORE_DURATION,
    MAX_QUERY_LEN,
};
use ring_detector::dns_service::{DoorbellDedup, Sighting};
use ring_detector::dnstap::{Dnstap, Message};
use ring_detector::mqtt::MqttMessage;
use ring_detector::net::{parse_octets, IpAddr};

const SECOND: u64 = 1_000_000_000;

fn query(questions: &[(&str, QueryType)]) -> Vec<u8> {
    let mut builder = Builder::new_query(1573, true);
    for (name, qtype) in questions {
        builder.add_question(name, false, *qtype, QueryClass::IN);
    }
    builder.build().unwrap()
}

fn record(address: &[u8], query: Vec<u8>) -> Dnstap {
    Dnstap {
        message: Some(Message {
            query_address: Some(address.to_vec()),
            query_message: Some(query),
        }),
    }
}

fn ring_from(address: &[u8]) -> Dnstap {
    record(address, query(&[(HOST_EU, QueryType::A)]))
}

fn config(client: &str) -> MqttMessage {
    MqttMessage::Publish {
        topic: format!("ringdet-{}/config", client),
        payload: b"{}".to_vec(),
    }
}

fn action(client: &str) -> MqttMessage {
    MqttMessage::Publish {
        topic: format!("ringdet-{}/action", client),
        payload: b"{action:\"pressed\"}".to_vec(),
    }
}

fn question(name: &str, qtype: u16) -> Question {
    Question { qname: name.to_string(), qtype }
}

fn client() -> IpAddr {
    parse_octets(&[10, 0, 0, 5]).unwrap()
}

fn streaming(now: u64, doorbells: &mut DoorbellDedup) -> DnsSocket {
    let mut socket = DnsSocket::new();
    socket.handle_stream(StreamEvent::Accepted, doorbells);
    socket.handle_stream(StreamEvent::HandshakeCompleted { now }, doorbells);
    socket
}

#[test]
fn watch_list_is_the_two_endpoints() {
    assert_eq!(HOST_EU, "alarm.eu.s3.amazonaws.com");
    assert_eq!(HOST_US, "alarm.use.s3.amazonaws.com");
    assert_eq!(IGNORE_DURATION, SECOND);
}

#[test]
fn config_message_is_exact() {
    assert_eq!(
        get_config_message("10.0.0.5"),
        MqttMessage::Publish { topic: "ringdet-10.0.0.5/config".to_string(), payload: vec![b'{', b'}'] }
    );
}

#[test]
fn action_message_is_exact() {
    assert_eq!(
        get_action_message("::1"),
        MqttMessage::Publish {
            topic: "ringdet-::1/action".to_string(),
            payload: b"{action:\"pressed\"}".to_vec(),
        }
    );
}

#[test]
fn matcher_finds_one_observation_for_each_watched_host() {
    let questions = vec![question(HOST_EU, 1), question(HOST_US, 1)];
    assert_eq!(
        match_questions(&questions, client()),
        vec![
            Observation { client: client(), matched_hostname: HOST_EU.to_string() },
            Observation { client: client(), matched_hostname: HOST_US.to_string() },
        ]
    );
}

#[test]
fn matcher_takes_ipv6_questions_too() {
    let questions = vec![question(HOST_US, 28)];
    assert_eq!(
        match_questions(&questions, client()),
        vec![Observation { client: client(), matched_hostname: HOST_US.to_string() }]
    );
}

#[test]
fn matcher_passes_over_other_hosts() {
    let questions = vec![question("example.com", 1), question("alarm.eu.s3.amazonaws.com.", 1)];
    assert_eq!(match_questions(&questions, client()), vec![]);
}

#[test]
fn matcher_passes_over_other_record_types() {
    for qtype in [0u16, 2, 5, 15, 16, 27, 29, 33, 255] {
        let questions = vec![question(HOST_EU, qtype), question(HOST_US, qtype)];
        assert_eq!(match_questions(&questions, client()), vec![], "type {}", qtype);
    }
}

#[test]
fn matcher_matches_letter_for_letter() {
    let questions = vec![question("ALARM.EU.S3.AMAZONAWS.COM", 1), question("Alarm.use.s3.amazonaws.com", 1)];
    assert_eq!(match_questions(&questions, client()), vec![]);
}

#[test]
fn matcher_keeps_the_order_of_the_questions() {
    let questions = vec![
        question("example.com", 1),
        question(HOST_US, 28),
        question(HOST_EU, 16),
        question(HOST_EU, 1),
    ];
    let hosts: Vec<String> = match_questions(&questions, client())
        .into_iter()
        .map(|o| o.matched_hostname)
        .collect();
    assert_eq!(hosts, vec![HOST_US.to_string(), HOST_EU.to_string()]);
}

#[test]
fn matcher_of_no_questions_finds_nothing() {
    assert_eq!(match_questions(&Vec::new(), client()), vec![]);
}

#[test]
fn first_sighting_announces_then_reports() {
    let mut doorbells = DoorbellDedup::new();
    let observations = vec![Observation { client: client(), matched_hostname: HOST_EU.to_string() }];
    assert_eq!(emit(&observations, &mut doorbells), vec![config("10.0.0.5"), action("10.0.0.5")]);
    assert!(doorbells.contains("10.0.0.5"));
    assert_eq!(emit(&observations, &mut doorbells), vec![action("10.0.0.5")]);
    assert_eq!(emit(&observations, &mut doorbells), vec![action("10.0.0.5")]);
}

#[test]
fn clients_are_told_apart() {
    let mut doorbells = DoorbellDedup::new();
    let other = parse_octets(&[0, 0, 0, 0, 0, 0, 0, 0, 0, 0, 0, 0, 0, 0, 0, 1]).unwrap();
    let observations = vec![
        Observation { client: client(), matched_hostname: HOST_EU.to_string() },
        Observation { client: other, matched_hostname: HOST_EU.to_string() },
        Observation { client: client(), matched_hostname: HOST_US.to_string() },
        Observation { client: other, matched_hostname: HOST_US.to_string() },
    ];
    assert_eq!(
        emit(&observations, &mut doorbells),
        vec![
            config("10.0.0.5"),
            action("10.0.0.5"),
            config("::1"),
            action("::1"),
            action("10.0.0.5"),
            action("::1"),
        ]
    );
}

#[test]
fn dedup_says_first_once() {
    let mut doorbells = DoorbellDedup::new();
    assert!(!doorbells.contains("10.0.0.5"));
    assert_eq!(doorbells.observe("10.0.0.5"), Sighting::First);
    assert_eq!(doorbells.observe("10.0.0.5"), Sighting::Repeat);
    assert_eq!(doorbells.observe("10.0.0.6"), Sighting::First);
    assert_eq!(doorbells.observe("10.0.0.5"), Sighting::Repeat);
    assert_eq!(doorbells.observe("10.0.0.6"), Sighting::Repeat);
    assert!(doorbells.contains("10.0.0.5"));
    assert!(!doorbells.contains("10.0.0.7"));
}

#[test]
fn packet_with_two_rings_announces_once() {
    let mut doorbells = DoorbellDedup::new();
    let questions = vec![question(HOST_EU, 1), question("example.com", 1), question(HOST_US, 28)];
    assert_eq!(
        handle_packet(&questions, client(), &mut doorbells),
        vec![config("10.0.0.5"), action("10.0.0.5"), action("10.0.0.5")]
    );
}

#[test]
fn packet_without_ring_leaves_the_set_alone() {
    let mut doorbells = DoorbellDedup::new();
    let questions = vec![question("example.com", 1), question(HOST_EU, 16)];
    assert_eq!(handle_packet(&questions, client(), &mut doorbells), vec![]);
    assert!(!doorbells.contains("10.0.0.5"));
}

#[test]
fn decoder_reads_the_questions_of_a_real_query() {
    let input = record(&[10, 0, 0, 5], query(&[(HOST_EU, QueryType::A), ("example.com", QueryType::TXT)]));
    assert_eq!(
        decode_record(&input),
        Ok((client(), vec![question(HOST_EU, 1), question("example.com", 16)]))
    );
}

#[test]
fn decoder_reads_the_type_codes_of_the_standard() {
    let input = record(
        &[10, 0, 0, 5],
        query(&[
            ("a.example", QueryType::AAAA),
            ("b.example", QueryType::MX),
            ("c.example", QueryType::All),
        ]),
    );
    assert_eq!(
        decode_record(&input),
        Ok((client(), vec![question("a.example", 28), question("b.example", 15), question("c.example", 255)]))
    );
}

#[test]
fn decoder_follows_compressed_names() {
    let mut bytes = query(&[(HOST_US, QueryType::A)]);
    bytes[5] = 2;
    bytes.extend([0xc0, 12, 0, 28, 0, 1]);
    let input = record(&[10, 0, 0, 5], bytes);
    assert_eq!(decode_record(&input), Ok((client(), vec![question(HOST_US, 1), question(HOST_US, 28)])));
}

#[test]
fn decoder_misses_the_message() {
    assert_eq!(decode_record(&Dnstap { message: None }), Err(FrameError::MissingMessage));
}

#[test]
fn decoder_rejects_an_address_of_another_length() {
    for length in [0usize, 1, 3, 5, 6, 15, 17, 32] {
        let input = record(&vec![1u8; length], query(&[(HOST_EU, QueryType::A)]));
        assert_eq!(decode_record(&input), Err(FrameError::MalformedAddress), "length {}", length);
    }
}

#[test]
fn decoder_reads_an_absent_address_as_empty() {
    let input = Dnstap {
        message: Some(Message { query_address: None, query_message: Some(query(&[(HOST_EU, QueryType::A)])) }),
    };
    assert_eq!(decode_record(&input), Err(FrameError::MalformedAddress));
}

#[test]
fn decoder_looks_at_the_address_before_the_query() {
    let input = Dnstap { message: Some(Message { query_address: Some(vec![1, 2, 3]), query_message: None }) };
    assert_eq!(decode_record(&input), Err(FrameError::MalformedAddress));
}

#[test]
fn decoder_misses_the_query() {
    let input = Dnstap { message: Some(Message { query_address: Some(vec![10, 0, 0, 5]), query_message: None }) };
    assert_eq!(decode_record(&input), Err(FrameError::MissingQuery));
}

#[test]
fn decoder_rejects_what_is_no_dns_packet() {
    for bytes in [vec![], vec![0u8; 11], b"not a dns packet at all".to_vec()] {
        let input = record(&[10, 0, 0, 5], bytes);
        assert_eq!(decode_record(&input), Err(FrameError::MalformedQueryBytes));
    }
    let mut truncated = query(&[(HOST_EU, QueryType::A)]);
    truncated.pop();
    assert_eq!(decode_record(&record(&[10, 0, 0, 5], truncated)), Err(FrameError::MalformedQueryBytes));
    let mut unknown_type = query(&[(HOST_EU, QueryType::A)]);
    let at = unknown_type.len() - 3;
    unknown_type[at] = 99;
    assert_eq!(decode_record(&record(&[10, 0, 0, 5], unknown_type)), Err(FrameError::MalformedQueryBytes));
}

#[test]
fn decoder_takes_a_query_of_the_greatest_length() {
    let mut bytes = query(&[(HOST_EU, QueryType::A)]);
    bytes.resize(MAX_QUERY_LEN, 0);
    assert_eq!(MAX_QUERY_LEN, 4096);
    assert_eq!(decode_record(&record(&[10, 0, 0, 5], bytes)), Ok((client(), vec![question(HOST_EU, 1)])));
}

#[test]
fn decoder_gives_up_a_query_that_is_too_long() {
    let mut bytes = query(&[(HOST_EU, QueryType::A)]);
    bytes.resize(MAX_QUERY_LEN + 1, 0);
    assert_eq!(decode_record(&record(&[10, 0, 0, 5], bytes)), Err(FrameError::OversizedQuery));
    let mut doorbells = DoorbellDedup::new();
    let long = record(&[10, 0, 0, 5], vec![0; 70000]);
    assert_eq!(handle_frame(&long, &mut doorbells), Err(FrameError::OversizedQuery));
    assert!(!doorbells.contains("10.0.0.5"));
}

#[test]
fn decoder_follows_the_longest_chain_of_pointers() {
    let mut bytes = vec![0u8; 12];
    bytes[5] = 1;
    let end = MAX_QUERY_LEN - (MAX_QUERY_LEN - 21) % 2;
    let last = end - 2;
    bytes.extend([0xc0 | (last >> 8) as u8, (last & 0xff) as u8, 0, 1, 0, 1]);
    bytes.extend([1, b'a', 0]);
    let mut target = 18usize;
    while bytes.len() < end {
        let here = bytes.len();
        bytes.extend([0xc0 | (target >> 8) as u8, (target & 0xff) as u8]);
        target = here;
    }
    assert!(bytes.len() <= MAX_QUERY_LEN);
    assert_eq!(decode_record(&record(&[10, 0, 0, 5], bytes)), Ok((client(), vec![question("a", 1)])));
}

#[test]
fn frame_with_a_ring_yields_its_messages() {
    let mut doorbells = DoorbellDedup::new();
    assert_eq!(
        handle_frame(&ring_from(&[10, 0, 0, 5]), &mut doorbells),
        Ok(vec![config("10.0.0.5"), action("10.0.0.5")])
    );
    assert_eq!(handle_frame(&ring_from(&[10, 0, 0, 5]), &mut doorbells), Ok(vec![action("10.0.0.5")]));
}

#[test]
fn frame_without_a_ring_is_handled_and_yields_nothing() {
    let mut doorbells = DoorbellDedup::new();
    let input = record(&[10, 0, 0, 5], query(&[("example.com", QueryType::A)]));
    assert_eq!(handle_frame(&input, &mut doorbells), Ok(vec![]));
    assert!(!doorbells.contains("10.0.0.5"));
}

#[test]
fn frame_that_is_given_up_leaves_the_set_alone() {
    let mut doorbells = DoorbellDedup::new();
    let input = record(&[10, 0, 0, 5], vec![1, 2, 3]);
    assert_eq!(handle_frame(&input, &mut doorbells), Err(FrameError::MalformedQueryBytes));
    assert!(!doorbells.contains("10.0.0.5"));
}

#[test]
fn frame_from_an_ipv6_client_names_it_in_short_form() {
    let mut doorbells = DoorbellDedup::new();
    let address = [0xfe, 0x80, 0, 0, 0, 0, 0, 0, 0, 0, 0, 0, 0, 0, 0x12, 0x34];
    assert_eq!(
        handle_frame(&ring_from(&address), &mut doorbells),
        Ok(vec![config("fe80::1234"), action("fe80::1234")])
    );
}

#[test]
fn guard_drops_what_comes_before_the_deadline() {
    let guard = StartupGuard::new(5 * SECOND, SECOND);
    assert!(guard.discards(0));
    assert!(guard.discards(5 * SECOND));
    assert!(guard.discards(6 * SECOND - 1));
    assert!(!guard.discards(6 * SECOND));
    assert!(!guard.discards(7 * SECOND));
}

#[test]
fn guard_works_at_the_end_of_the_clock() {
    let guard = StartupGuard::new(u64::MAX - 1, 10);
    assert!(guard.discards(u64::MAX));
    assert!(guard.discards(0));
    let never = StartupGuard::new(u64::MAX, 0);
    assert!(!never.discards(u64::MAX));
    assert!(never.discards(u64::MAX - 1));
}

#[test]
fn guard_without_warmup_drops_nothing_after_the_start() {
    let guard = StartupGuard::new(100, 0);
    assert!(!guard.discards(100));
    assert!(!guard.discards(101));
}

#[test]
fn connection_walks_through_its_states() {
    let mut doorbells = DoorbellDedup::new();
    let mut socket = DnsSocket::new();
    assert_eq!(socket.current_state(), ConnectionState::Connecting);

    let step = socket.handle_stream(StreamEvent::Accepted, &mut doorbells);
    assert_eq!((step.next, step.report), (StreamAction::Handshake, StreamReport::Connected));
    assert_eq!(socket.current_state(), ConnectionState::Handshaking);

    let step = socket.handle_stream(StreamEvent::HandshakeCompleted { now: 7 }, &mut doorbells);
    assert_eq!((step.next, step.report), (StreamAction::ReadFrame, StreamReport::HandshakeFinished));
    assert_eq!(
        socket.current_state(),
        ConnectionState::Streaming { guard: StartupGuard { accept_time: 7, warmup: IGNORE_DURATION } }
    );

    let step = socket.handle_stream(StreamEvent::EndOfStream, &mut doorbells);
    assert_eq!((step.next, step.report), (StreamAction::Stop, StreamReport::Disconnected));
    assert_eq!(socket.current_state(), ConnectionState::Closed);
    assert!(step.messages.is_empty());
}

#[test]
fn end_to_end_first_ring_then_repeat() {
    let mut doorbells = DoorbellDedup::new();
    let mut socket = streaming(0, &mut doorbells);

    let step = socket.handle_stream(
        StreamEvent::FrameRead { now: 2 * SECOND, record: Some(ring_from(&[10, 0, 0, 5])) },
        &mut doorbells,
    );
    assert_eq!(step.next, StreamAction::ReadFrame);
    assert_eq!(step.report, StreamReport::FrameHandled);
    assert_eq!(
        step.messages,
        vec![
            MqttMessage::Publish { topic: "ringdet-10.0.0.5/config".to_string(), payload: b"{}".to_vec() },
            MqttMessage::Publish {
                topic: "ringdet-10.0.0.5/action".to_string(),
                payload: b"{action:\"pressed\"}".to_vec(),
            },
        ]
    );

    let step = socket.handle_stream(
        StreamEvent::FrameRead { now: 3 * SECOND, record: Some(ring_from(&[10, 0, 0, 5])) },
        &mut doorbells,
    );
    assert_eq!(step.report, StreamReport::FrameHandled);
    assert_eq!(
        step.messages,
        vec![MqttMessage::Publish {
            topic: "ringdet-10.0.0.5/action".to_string(),
            payload: b"{action:\"pressed\"}".to_vec(),
        }]
    );
}

#[test]
fn warmup_drops_frames_and_does_not_poison_the_set() {
    let mut doorbells = DoorbellDedup::new();
    let mut socket = streaming(10 * SECOND, &mut doorbells);

    for now in [0, 10 * SECOND, 11 * SECOND - 1] {
        let step = socket.handle_stream(
            StreamEvent::FrameRead { now, record: Some(ring_from(&[10, 0, 0, 5])) },
            &mut doorbells,
        );
        assert_eq!(step.report, StreamReport::FrameDiscarded);
        assert_eq!(step.next, StreamAction::ReadFrame);
        assert!(step.messages.is_empty());
        assert!(!doorbells.contains("10.0.0.5"));
    }

    let step = socket.handle_stream(
        StreamEvent::FrameRead { now: 11 * SECOND, record: Some(ring_from(&[10, 0, 0, 5])) },
        &mut doorbells,
    );
    assert_eq!(step.report, StreamReport::FrameHandled);
    assert_eq!(step.messages, vec![config("10.0.0.5"), action("10.0.0.5")]);
}

#[test]
fn warmup_drops_even_what_cannot_be_decoded() {
    let mut doorbells = DoorbellDedup::new();
    let mut socket = streaming(0, &mut doorbells);
    let step = socket.handle_stream(StreamEvent::FrameRead { now: 5, record: None }, &mut doorbells);
    assert_eq!(step.report, StreamReport::FrameDiscarded);
    let step = socket.handle_stream(
        StreamEvent::FrameRead { now: 5, record: Some(Dnstap { message: None }) },
        &mut doorbells,
    );
    assert_eq!(step.report, StreamReport::FrameDiscarded);
}

#[test]
fn warmup_can_be_chosen() {
    let mut doorbells = DoorbellDedup::new();
    let mut socket = DnsSocket::with_warmup(50);
    socket.handle_stream(StreamEvent::Accepted, &mut doorbells);
    socket.handle_stream(StreamEvent::HandshakeCompleted { now: 100 }, &mut doorbells);
    let step = socket.handle_stream(
        StreamEvent::FrameRead { now: 149, record: Some(ring_from(&[10, 0, 0, 5])) },
        &mut doorbells,
    );
    assert_eq!(step.report, StreamReport::FrameDiscarded);
    let step = socket.handle_stream(
        StreamEvent::FrameRead { now: 150, record: Some(ring_from(&[10, 0, 0, 5])) },
        &mut doorbells,
    );
    assert_eq!(step.messages, vec![config("10.0.0.5"), action("10.0.0.5")]);
}

#[test]
fn invalid_frames_are_reported_and_the_connection_reads_on() {
    let mut doorbells = DoorbellDedup::new();
    let mut socket = streaming(0, &mut doorbells);
    let now = 2 * SECOND;
    let cases = vec![
        (None, FrameError::MalformedRecord),
        (Some(Dnstap { message: None }), FrameError::MissingMessage),
        (Some(record(&[1, 2, 3], query(&[(HOST_EU, QueryType::A)]))), FrameError::MalformedAddress),
        (
            Some(Dnstap { message: Some(Message { query_address: Some(vec![10, 0, 0, 5]), query_message: None }) }),
            FrameError::MissingQuery,
        ),
        (Some(record(&[10, 0, 0, 5], vec![0; 5])), FrameError::MalformedQueryBytes),
    ];
    for (record, error) in cases {
        let step = socket.handle_stream(StreamEvent::FrameRead { now, record }, &mut doorbells);
        assert_eq!(step.report, StreamReport::FrameInvalid(error));
        assert_eq!(step.next, StreamAction::ReadFrame);
        assert!(step.messages.is_empty());
    }
    let step = socket.handle_stream(
        StreamEvent::FrameRead { now, record: Some(ring_from(&[10, 0, 0, 5])) },
        &mut doorbells,
    );
    assert_eq!(step.messages, vec![config("10.0.0.5"), action("10.0.0.5")]);
}

#[test]
fn failed_handshake_closes_the_connection() {
    let mut doorbells = DoorbellDedup::new();
    let mut socket = DnsSocket::new();
    socket.handle_stream(StreamEvent::Accepted, &mut doorbells);
    let step = socket.handle_stream(StreamEvent::HandshakeFailed, &mut doorbells);
    assert_eq!(step.next, StreamAction::Stop);
    assert_eq!(step.report, StreamReport::Failed(StreamError::HandshakeFailed));
    assert_eq!(socket.current_state(), ConnectionState::Closed);
}

#[test]
fn failed_read_closes_the_connection() {
    let mut doorbells = DoorbellDedup::new();
    let mut socket = streaming(0, &mut doorbells);
    let step = socket.handle_stream(StreamEvent::ReadFailed, &mut doorbells);
    assert_eq!(step.next, StreamAction::Stop);
    assert_eq!(step.report, StreamReport::Failed(StreamError::ReadFailed));
    assert_eq!(socket.current_state(), ConnectionState::Closed);
}

#[test]
fn event_out_of_turn_closes_the_connection() {
    let mut doorbells = DoorbellDedup::new();
    let mut socket = DnsSocket::new();
    let step = socket.handle_stream(
        StreamEvent::FrameRead { now: 5 * SECOND, record: Some(ring_from(&[10, 0, 0, 5])) },
        &mut doorbells,
    );
    assert_eq!(step.next, StreamAction::Stop);
    assert_eq!(step.report, StreamReport::Failed(StreamError::UnexpectedEvent));
    assert!(step.messages.is_empty());
    assert!(!doorbells.contains("10.0.0.5"));
    assert_eq!(socket.current_state(), ConnectionState::Closed);

    let step = socket.handle_stream(StreamEvent::Accepted, &mut doorbells);
    assert_eq!(step.report, StreamReport::Failed(StreamError::UnexpectedEvent));
    assert_eq!(socket.current_state(), ConnectionState::Closed);
}

#[test]
fn two_connections_share_one_first_sighting() {
    let mut doorbells = DoorbellDedup::new();
    let mut one = streaming(0, &mut doorbells);
    let mut two = streaming(0, &mut doorbells);
    let now = 2 * SECOND;
    let first = one.handle_stream(
        StreamEvent::FrameRead { now, record: Some(ring_from(&[10, 0, 0, 5])) },
        &mut doorbells,
    );
    let second = two.handle_stream(
        StreamEvent::FrameRead { now, record: Some(ring_from(&[10, 0, 0, 5])) },
        &mut doorbells,
    );
    assert_eq!(first.messages, vec![config("10.0.0.5"), action("10.0.0.5")]);
    assert_eq!(second.messages, vec![action("10.0.0.5")]);
}
