//! One connection of the resolver: from the records it sends to the messages
//! for the publisher.
//!
//! A record passes four stations. The startup guard drops what arrives while
//! the connection warms up. The record decoder asks for a client address and
//! a query. The query matcher looks for address questions about a watched
//! hostname; each is an observation. The dedup set then tells a first sighting
//! of a client, which is announced with a config message before the action
//! message, from a repeat, which gets the action message alone.

use crate::address_laws::lemma_text_names_one_address;
use crate::dns_service::{sighting_of, DoorbellDedup, Sighting};
use crate::dnstap;
use crate::dnstap::Dnstap;
use crate::mqtt::{message_views, MessageView, MqttMessage};
use crate::net::{address_text, parse_octets, IpAddr};
use crate::text::{ascii, ascii_bytes};
use vstd::prelude::*;
use vstd::string::*;

verus! {

/// The first hostname on the watch-list: the vendor's European endpoint.
pub const HOST_EU: &'static str = "alarm.eu.s3.amazonaws.com";

/// The second hostname on the watch-list: the vendor's American endpoint.
pub const HOST_US: &'static str = "alarm.use.s3.amazonaws.com";

/// The code of a question for an IPv4 address.
pub const QTYPE_A: u16 = 1;

/// The code of a question for an IPv6 address.
pub const QTYPE_AAAA: u16 = 28;

/// How long a connection warms up, in nanoseconds: one second. A resolver that
/// has just connected first sends what it had queued, and none of that is a
/// press of the button now.
pub const IGNORE_DURATION: u64 = 1_000_000_000;

/// The longest query that is handed to the DNS parser, in bytes. A query on
/// the wire is far shorter. The parser writes a name by following its
/// compression pointers one call inside the other, so the length of the query
/// bounds how deep it goes.
pub const MAX_QUERY_LEN: usize = 4096;

/// What starts every topic of the detector.
pub const TOPIC_PREFIX: &'static str = "ringdet-";

/// What ends the topic that announces a client.
pub const CONFIG_SUFFIX: &'static str = "/config";

/// What ends the topic that reports a press of the button.
pub const ACTION_SUFFIX: &'static str = "/action";

/// The payload that announces a client.
pub const CONFIG_PAYLOAD: &'static str = "{}";

/// The payload that reports a press of the button.
pub const ACTION_PAYLOAD: &'static str = "{action:\"pressed\"}";

/// One question of a DNS query: the name asked for and the code of the record
/// type wanted.
#[derive(Debug, PartialEq, Eq)]
pub struct Question {
    pub qname: String,
    pub qtype: u16,
}

/// A question over plain sequences.
pub struct QuestionView {
    pub qname: Seq<char>,
    pub qtype: u16,
}

impl View for Question {
    type V = QuestionView;

    open spec fn view(&self) -> QuestionView {
        QuestionView { qname: self.qname@, qtype: self.qtype }
    }
}

/// The views of a run of questions, in order.
pub open spec fn question_views(questions: Seq<Question>) -> Seq<QuestionView> {
    questions.map_values(|q: Question| q@)
}

/// A client asked for a watched hostname: the button was pressed.
#[derive(Debug, PartialEq, Eq)]
pub struct Observation {
    pub client: IpAddr,
    pub matched_hostname: String,
}

/// An observation over plain sequences: the bytes of the client's address and
/// the hostname.
pub struct ObservationView {
    pub client: Seq<u8>,
    pub matched_hostname: Seq<char>,
}

impl View for Observation {
    type V = ObservationView;

    open spec fn view(&self) -> ObservationView {
        ObservationView { client: self.client@, matched_hostname: self.matched_hostname@ }
    }
}

/// The views of a run of observations, in order.
pub open spec fn observation_views(observations: Seq<Observation>) -> Seq<ObservationView> {
    observations.map_values(|o: Observation| o@)
}

/// True of the two hostnames on the watch-list, letter for letter.
pub open spec fn is_watched(name: Seq<char>) -> bool {
    name == HOST_EU@ || name == HOST_US@
}

/// True of the record types that ask for an address.
pub open spec fn is_address_query(qtype: u16) -> bool {
    qtype == QTYPE_A || qtype == QTYPE_AAAA
}

/// True of a question that gives a press of the button away.
pub open spec fn rings(question: QuestionView) -> bool {
    is_address_query(question.qtype) && is_watched(question.qname)
}

/// [`rings`] as a predicate to filter by.
pub open spec fn ringing() -> spec_fn(QuestionView) -> bool {
    |question: QuestionView| rings(question)
}

/// The observation that a question from `client` stands for.
pub open spec fn observed(client: Seq<u8>) -> spec_fn(QuestionView) -> ObservationView {
    |question: QuestionView| ObservationView { client, matched_hostname: question.qname }
}

/// The observations in a list of questions from `client`: one for each
/// question that rings, in the order of the questions.
pub open spec fn observations_of(questions: Seq<QuestionView>, client: Seq<u8>) -> Seq<
    ObservationView,
> {
    questions.filter(ringing()).map_values(observed(client))
}

/// The topic of a client's messages of one kind.
pub open spec fn client_topic(client: Seq<char>, suffix: Seq<char>) -> Seq<char> {
    TOPIC_PREFIX@ + client + suffix
}

/// The message that announces a client.
pub open spec fn config_message(client: Seq<char>) -> MessageView {
    MessageView { topic: client_topic(client, CONFIG_SUFFIX@), payload: ascii(CONFIG_PAYLOAD@) }
}

/// The message that reports a press of the button.
pub open spec fn action_message(client: Seq<char>) -> MessageView {
    MessageView { topic: client_topic(client, ACTION_SUFFIX@), payload: ascii(ACTION_PAYLOAD@) }
}

/// The messages for one observation of `client`: a first sighting is
/// announced before it is reported.
pub open spec fn sighting_messages(client: Seq<char>, sighting: Sighting) -> Seq<MessageView> {
    match sighting {
        Sighting::First => seq![config_message(client), action_message(client)],
        Sighting::Repeat => seq![action_message(client)],
    }
}

/// The name of an observation's client in the dedup set and in topics.
pub open spec fn client_key(observation: ObservationView) -> Seq<char> {
    address_text(observation.client)
}

/// The messages for a run of observations when `seen` are the clients known
/// before the first of them.
pub open spec fn messages_for(seen: Set<Seq<char>>, observations: Seq<ObservationView>) -> Seq<
    MessageView,
>
    decreases observations.len(),
{
    if observations.len() == 0 {
        Seq::empty()
    } else {
        let client = client_key(observations[0]);
        sighting_messages(client, sighting_of(seen, client)) + messages_for(
            seen.insert(client),
            observations.drop_first(),
        )
    }
}

/// The clients known after a run of observations.
pub open spec fn seen_after(seen: Set<Seq<char>>, observations: Seq<ObservationView>) -> Set<
    Seq<char>,
>
    decreases observations.len(),
{
    if observations.len() == 0 {
        seen
    } else {
        seen_after(seen.insert(client_key(observations[0])), observations.drop_first())
    }
}

fn client_message(client: &str, suffix: &str, payload: &str) -> (message: MqttMessage)
    requires
        vstd::utf8::is_ascii_chars(payload@),
    ensures
        message@ == (MessageView {
            topic: client_topic(client@, suffix@),
            payload: ascii(payload@),
        }),
{
    let mut topic = String::from_str(TOPIC_PREFIX);
    topic.append(client);
    topic.append(suffix);
    MqttMessage::Publish { topic, payload: ascii_bytes(payload) }
}

/// The message that announces `client`.
pub fn get_config_message(client: &str) -> (message: MqttMessage)
    ensures
        message@ == config_message(client@),
{
    proof {
        reveal_strlit("{}");
    }
    client_message(client, CONFIG_SUFFIX, CONFIG_PAYLOAD)
}

/// The message that reports that the button of `client` was pressed.
pub fn get_action_message(client: &str) -> (message: MqttMessage)
    ensures
        message@ == action_message(client@),
{
    proof {
        reveal_strlit("{action:\"pressed\"}");
    }
    client_message(client, ACTION_SUFFIX, ACTION_PAYLOAD)
}

/// Looks through the questions of a query from `client` for presses of the
/// button.
pub fn match_questions(questions: &Vec<Question>, client: IpAddr) -> (observations: Vec<
    Observation,
>)
    ensures
        observation_views(observations@) == observations_of(question_views(questions@), client@),
        observations@.len() == observations_of(question_views(questions@), client@).len(),
{
    let host_eu = String::from_str(HOST_EU);
    let host_us = String::from_str(HOST_US);
    let mut observations: Vec<Observation> = Vec::new();
    let mut at: usize = 0;
    assert(question_views(questions@).take(0) =~= Seq::<QuestionView>::empty());
    assert(observation_views(observations@) =~= observations_of(
        question_views(questions@).take(0),
        client@,
    )) by {
        reveal(Seq::filter);
    }
    while at < questions.len()
        invariant
            at <= questions.len(),
            host_eu@ == HOST_EU@,
            host_us@ == HOST_US@,
            observation_views(observations@) == observations_of(
                question_views(questions@).take(at as int),
                client@,
            ),
        decreases questions.len() - at,
    {
        let question = &questions[at];
        let address_query = question.qtype == QTYPE_A || question.qtype == QTYPE_AAAA;
        let watched = question.qname == host_eu || question.qname == host_us;
        let ghost found = observation_views(observations@);
        if address_query && watched {
            observations.push(
                Observation { client, matched_hostname: question.qname.clone() },
            );
        }
        proof {
            let all = question_views(questions@);
            let before = all.take(at as int);
            assert(all.take(at + 1) =~= before.push(question@));
            before.lemma_filter_push(question@, ringing());
            if rings(question@) {
                assert(observation_views(observations@) =~= found.push(
                    observed(client@)(question@),
                ));
                assert(before.filter(ringing()).push(question@).map_values(observed(client@))
                    =~= found.push(observed(client@)(question@)));
            } else {
                assert(observation_views(observations@) =~= found);
            }
        }
        at += 1;
    }
    assert(question_views(questions@).take(at as int) =~= question_views(questions@));
    observations
}

/// Runs the observations past the dedup set, in order, and writes the messages
/// that they call for.
pub fn emit(observations: &Vec<Observation>, doorbells: &mut DoorbellDedup) -> (messages: Vec<
    MqttMessage,
>)
    ensures
        message_views(messages@) == messages_for(old(doorbells)@, observation_views(observations@)),
        messages@.len() == messages_for(old(doorbells)@, observation_views(observations@)).len(),
        final(doorbells)@ == seen_after(old(doorbells)@, observation_views(observations@)),
{
    let ghost all = observation_views(observations@);
    let ghost seen = doorbells@;
    let mut messages: Vec<MqttMessage> = Vec::new();
    let mut at: usize = 0;
    assert(all.skip(0) =~= all);
    assert(message_views(messages@) =~= Seq::<MessageView>::empty());
    while at < observations.len()
        invariant
            at <= observations.len(),
            all == observation_views(observations@),
            messages_for(seen, all) == message_views(messages@) + messages_for(
                doorbells@,
                all.skip(at as int),
            ),
            seen_after(seen, all) == seen_after(doorbells@, all.skip(at as int)),
        decreases observations.len() - at,
    {
        let ghost sent = message_views(messages@);
        let ghost known = doorbells@;
        let client = observations[at].client.to_string();
        let sighting = doorbells.observe(client.as_str());
        match sighting {
            Sighting::First => {
                messages.push(get_config_message(client.as_str()));
                messages.push(get_action_message(client.as_str()));
            },
            Sighting::Repeat => {
                messages.push(get_action_message(client.as_str()));
            },
        }
        proof {
            let rest = all.skip(at as int);
            assert(rest[0] == observations[at as int]@);
            assert(client@ == client_key(rest[0]));
            assert(rest.drop_first() =~= all.skip(at + 1));
            assert(message_views(messages@) =~= sent + sighting_messages(
                client@,
                sighting_of(known, client@),
            ));
        }
        at += 1;
    }
    assert(all.skip(at as int) =~= Seq::<ObservationView>::empty());
    messages
}

/// Handles the questions of one query from `client`: finds the presses of the
/// button among them and writes the messages for each.
pub fn handle_packet(questions: &Vec<Question>, client: IpAddr, doorbells: &mut DoorbellDedup) -> (messages:
    Vec<MqttMessage>)
    ensures
        message_views(messages@) == messages_for(
            old(doorbells)@,
            observations_of(question_views(questions@), client@),
        ),
        messages@.len() == messages_for(
            old(doorbells)@,
            observations_of(question_views(questions@), client@),
        ).len(),
        final(doorbells)@ == seen_after(
            old(doorbells)@,
            observations_of(question_views(questions@), client@),
        ),
{
    let observations = match_questions(questions, client);
    emit(&observations, doorbells)
}

/// `dns_parser::Error`, carried from the parser to the place where the frame is
/// given up; nothing is read from it.
#[verifier::external_type_specification]
#[verifier::external_body]
pub struct ExParseError(dns_parser::Error);

/// The questions that `dns_parser::Packet::parse` finds in a query, each as the
/// text of its name and the code of its type; `None` where the parser rejects
/// the bytes.
pub uninterp spec fn packet_questions(data: Seq<u8>) -> Option<Seq<QuestionView>>;

/// Parses a DNS query with `dns_parser::Packet::parse` and keeps its questions.
///
/// Taken on trust: the parser is a function of the bytes alone, so its answer
/// has a name, [`packet_questions`]; and it rejects what is shorter than the
/// twelve bytes of a DNS header. A name is written as the parser's `Display`
/// writes it, the labels joined by dots; a type as its code in RFC 1035.
/// Parsing checks every index before it reads. Writing a name calls itself
/// once for each compression pointer on the way, and each pointer after the
/// first leads to an earlier place than the one before, so a query of at most
/// [`MAX_QUERY_LEN`] bytes keeps it shallow.
#[verifier::external_body]
fn parse_questions(data: &[u8]) -> (parsed: Result<Vec<Question>, dns_parser::Error>)
    requires
        data@.len() <= MAX_QUERY_LEN,
    ensures
        match parsed {
            Ok(questions) => packet_questions(data@) == Some(question_views(questions@)),
            Err(_) => packet_questions(data@) is None,
        },
        data@.len() < 12 ==> parsed is Err,
{
    let packet = dns_parser::Packet::parse(data)?;
    Ok(
        packet.questions.iter().map(
            |q| Question { qname: q.qname.to_string(), qtype: q.qtype as u16 },
        ).collect(),
    )
}

/// Why a frame was given up. None of these ends the connection.
#[derive(Clone, Copy, Debug, PartialEq, Eq, Structural)]
pub enum FrameError {
    /// The frame holds no dnstap record.
    MalformedRecord,
    /// The record has no message.
    MissingMessage,
    /// The client address is neither four nor sixteen bytes.
    MalformedAddress,
    /// The message has no query.
    MissingQuery,
    /// The query is longer than [`MAX_QUERY_LEN`] bytes.
    OversizedQuery,
    /// The query is no DNS packet.
    MalformedQueryBytes,
}

/// What the record decoder makes of a record: the bytes of the client address
/// and the questions of the query, or the reason why there is nothing to
/// observe. The address is looked at before the query, and the length of the
/// query before the parser sees it.
pub open spec fn decoded(record: Option<dnstap::MessageView>) -> Result<
    (Seq<u8>, Seq<QuestionView>),
    FrameError,
> {
    match record {
        None => Err(FrameError::MissingMessage),
        Some(message) => {
            let address = message.address();
            if address.len() != 4 && address.len() != 16 {
                Err(FrameError::MalformedAddress)
            } else {
                match message.query_message {
                    None => Err(FrameError::MissingQuery),
                    Some(query) => if query.len() > MAX_QUERY_LEN {
                        Err(FrameError::OversizedQuery)
                    } else {
                        match packet_questions(query) {
                            None => Err(FrameError::MalformedQueryBytes),
                            Some(questions) => Ok((address, questions)),
                        }
                    },
                }
            }
        },
    }
}

/// The observations in a record, none where the record is given up.
pub open spec fn record_observations(record: Option<dnstap::MessageView>) -> Seq<ObservationView> {
    match decoded(record) {
        Ok((client, questions)) => observations_of(questions, client),
        Err(_) => Seq::empty(),
    }
}

/// Takes the client address and the questions out of a record.
pub fn decode_record(record: &Dnstap) -> (outcome: Result<(IpAddr, Vec<Question>), FrameError>)
    ensures
        match outcome {
            Ok((client, questions)) => decoded(record@) == Ok::<_, FrameError>(
                (client@, question_views(questions@)),
            ),
            Err(error) => decoded(record@) == Err::<(Seq<u8>, Seq<QuestionView>), _>(error),
        },
{
    let message = match &record.message {
        Some(message) => message,
        None => {
            return Err(FrameError::MissingMessage);
        },
    };
    let parsed = match &message.query_address {
        Some(address) => parse_octets(address.as_slice()),
        None => {
            let nothing: Vec<u8> = Vec::new();
            parse_octets(nothing.as_slice())
        },
    };
    let client = match parsed {
        Ok(client) => client,
        Err(_) => {
            return Err(FrameError::MalformedAddress);
        },
    };
    let query = match &message.query_message {
        Some(query) => query,
        None => {
            return Err(FrameError::MissingQuery);
        },
    };
    if query.len() > MAX_QUERY_LEN {
        return Err(FrameError::OversizedQuery);
    }
    match parse_questions(query.as_slice()) {
        Ok(questions) => Ok((client, questions)),
        Err(_) => Err(FrameError::MalformedQueryBytes),
    }
}

/// Handles one record of a connection that has warmed up: decodes it and
/// writes the messages for the presses of the button in it. A record that is
/// given up leaves the dedup set as it was.
pub fn handle_frame(record: &Dnstap, doorbells: &mut DoorbellDedup) -> (outcome: Result<
    Vec<MqttMessage>,
    FrameError,
>)
    ensures
        match outcome {
            Ok(messages) => decoded(record@) is Ok && message_views(messages@) == messages_for(
                old(doorbells)@,
                record_observations(record@),
            ) && messages@.len() == messages_for(
                old(doorbells)@,
                record_observations(record@),
            ).len(),
            Err(error) => decoded(record@) == Err::<(Seq<u8>, Seq<QuestionView>), _>(error),
        },
        final(doorbells)@ == seen_after(old(doorbells)@, record_observations(record@)),
{
    match decode_record(record) {
        Ok((client, questions)) => Ok(handle_packet(&questions, client, doorbells)),
        Err(error) => Err(error),
    }
}

/// The startup guard of one connection: when streaming began and how long the
/// connection warms up, on the clock that times its frames.
#[derive(Clone, Copy, Debug, PartialEq, Eq, Structural)]
pub struct StartupGuard {
    pub accept_time: u64,
    pub warmup: u64,
}

impl StartupGuard {
    /// The moment at which the connection has warmed up.
    pub open spec fn deadline(self) -> int {
        self.accept_time + self.warmup
    }

    /// True of the moments at which a frame is dropped unread: those before
    /// the deadline.
    pub open spec fn discards_at(self, now: u64) -> bool {
        now < self.deadline()
    }

    /// The guard of a connection that began to stream at `accept_time`.
    pub fn new(accept_time: u64, warmup: u64) -> (guard: Self)
        ensures
            guard.accept_time == accept_time,
            guard.warmup == warmup,
    {
        StartupGuard { accept_time, warmup }
    }

    /// Whether a frame that is processed at `now` is dropped unread. Nothing
    /// but the time counts.
    pub fn discards(&self, now: u64) -> (dropped: bool)
        ensures
            dropped == self.discards_at(now),
    {
        now < self.accept_time || now - self.accept_time < self.warmup
    }
}

/// Where a connection stands.
#[derive(Clone, Copy, Debug, PartialEq, Eq, Structural)]
pub enum ConnectionState {
    /// The stream has not been accepted yet.
    Connecting,
    /// The stream is accepted and the two ends agree on the framing.
    Handshaking,
    /// Frames are read, one after the other.
    Streaming { guard: StartupGuard },
    /// The connection is over.
    Closed,
}

/// Why a connection ended before the resolver closed it.
#[derive(Clone, Copy, Debug, PartialEq, Eq, Structural)]
pub enum StreamError {
    /// The two ends did not agree on the framing.
    HandshakeFailed,
    /// The stream broke while a frame was read.
    ReadFailed,
    /// Something happened that cannot happen in the state of the connection.
    UnexpectedEvent,
}

/// Something that happened on the stream.
#[derive(Debug, PartialEq, Eq)]
pub enum StreamEvent {
    /// The stream was accepted.
    Accepted,
    /// The handshake is done; `now` is the time on the connection's clock.
    HandshakeCompleted { now: u64 },
    /// The handshake failed.
    HandshakeFailed,
    /// A whole frame was read. `now` is the time at which it is processed;
    /// `record` is what the frame holds, `None` where that is no dnstap record.
    FrameRead { now: u64, record: Option<Dnstap> },
    /// The stream broke.
    ReadFailed,
    /// The resolver closed the stream.
    EndOfStream,
}

/// An event over plain sequences.
pub enum StreamEventView {
    Accepted,
    HandshakeCompleted { now: u64 },
    HandshakeFailed,
    FrameRead { now: u64, record: Option<Option<dnstap::MessageView>> },
    ReadFailed,
    EndOfStream,
}

impl View for StreamEvent {
    type V = StreamEventView;

    open spec fn view(&self) -> StreamEventView {
        match self {
            StreamEvent::Accepted => StreamEventView::Accepted,
            StreamEvent::HandshakeCompleted { now } => StreamEventView::HandshakeCompleted {
                now: *now,
            },
            StreamEvent::HandshakeFailed => StreamEventView::HandshakeFailed,
            StreamEvent::FrameRead { now, record } => StreamEventView::FrameRead {
                now: *now,
                record: match record {
                    Some(record) => Some(record@),
                    None => None,
                },
            },
            StreamEvent::ReadFailed => StreamEventView::ReadFailed,
            StreamEvent::EndOfStream => StreamEventView::EndOfStream,
        }
    }
}

/// What the worker does next.
#[derive(Clone, Copy, Debug, PartialEq, Eq, Structural)]
pub enum StreamAction {
    /// Run the handshake of the framing layer.
    Handshake,
    /// Wait for the next frame.
    ReadFrame,
    /// End the worker.
    Stop,
}

/// What there is to tell the operator about one event.
#[derive(Clone, Copy, Debug, PartialEq, Eq, Structural)]
pub enum StreamReport {
    /// A resolver has connected.
    Connected,
    /// The handshake is done and the connection warms up.
    HandshakeFinished,
    /// A frame was dropped unread while the connection warmed up.
    FrameDiscarded,
    /// A frame was handled.
    FrameHandled,
    /// A frame was given up; the next one is read.
    FrameInvalid(FrameError),
    /// The resolver closed the stream.
    Disconnected,
    /// The connection ended on an error. Other connections go on.
    Failed(StreamError),
}

/// The answer to one event.
#[derive(Debug, PartialEq, Eq)]
pub struct StreamStep {
    /// What the worker does next.
    pub next: StreamAction,
    /// What there is to tell the operator.
    pub report: StreamReport,
    /// The messages to enqueue, in order.
    pub messages: Vec<MqttMessage>,
}

/// The answer to one event over plain values, with what it leaves behind.
pub struct StreamOutcome {
    pub state: ConnectionState,
    pub seen: Set<Seq<char>>,
    pub next: StreamAction,
    pub report: StreamReport,
    pub messages: Seq<MessageView>,
}

/// The end of a connection.
pub open spec fn closed(seen: Set<Seq<char>>, report: StreamReport) -> StreamOutcome {
    StreamOutcome {
        state: ConnectionState::Closed,
        seen,
        next: StreamAction::Stop,
        report,
        messages: Seq::empty(),
    }
}

/// What a frame leaves behind on a connection that streams. While the
/// connection warms up the frame is dropped, whatever it holds, and the dedup
/// set never hears of it. After that a frame that is given up changes nothing
/// either, and one that is handled adds its clients to the set.
pub open spec fn frame_outcome(
    guard: StartupGuard,
    seen: Set<Seq<char>>,
    now: u64,
    record: Option<Option<dnstap::MessageView>>,
) -> StreamOutcome {
    let state = ConnectionState::Streaming { guard };
    let next = StreamAction::ReadFrame;
    if guard.discards_at(now) {
        StreamOutcome {
            state,
            seen,
            next,
            report: StreamReport::FrameDiscarded,
            messages: Seq::empty(),
        }
    } else {
        match record {
            None => StreamOutcome {
                state,
                seen,
                next,
                report: StreamReport::FrameInvalid(FrameError::MalformedRecord),
                messages: Seq::empty(),
            },
            Some(record) => match decoded(record) {
                Err(error) => StreamOutcome {
                    state,
                    seen,
                    next,
                    report: StreamReport::FrameInvalid(error),
                    messages: Seq::empty(),
                },
                Ok(_) => StreamOutcome {
                    state,
                    seen: seen_after(seen, record_observations(record)),
                    next,
                    report: StreamReport::FrameHandled,
                    messages: messages_for(seen, record_observations(record)),
                },
            },
        }
    }
}

/// The answer of a connection in `state` to `event`, when `seen` are the
/// clients known and the connection warms up for `warmup`.
pub open spec fn stream_step(
    warmup: u64,
    state: ConnectionState,
    seen: Set<Seq<char>>,
    event: StreamEventView,
) -> StreamOutcome {
    match (state, event) {
        (ConnectionState::Connecting, StreamEventView::Accepted) => StreamOutcome {
            state: ConnectionState::Handshaking,
            seen,
            next: StreamAction::Handshake,
            report: StreamReport::Connected,
            messages: Seq::empty(),
        },
        (
            ConnectionState::Handshaking,
            StreamEventView::HandshakeCompleted { now },
        ) => StreamOutcome {
            state: ConnectionState::Streaming {
                guard: StartupGuard { accept_time: now, warmup },
            },
            seen,
            next: StreamAction::ReadFrame,
            report: StreamReport::HandshakeFinished,
            messages: Seq::empty(),
        },
        (ConnectionState::Handshaking, StreamEventView::HandshakeFailed) => closed(
            seen,
            StreamReport::Failed(StreamError::HandshakeFailed),
        ),
        (
            ConnectionState::Streaming { guard },
            StreamEventView::FrameRead { now, record },
        ) => frame_outcome(guard, seen, now, record),
        (ConnectionState::Streaming { .. }, StreamEventView::ReadFailed) => closed(
            seen,
            StreamReport::Failed(StreamError::ReadFailed),
        ),
        (ConnectionState::Streaming { .. }, StreamEventView::EndOfStream) => closed(
            seen,
            StreamReport::Disconnected,
        ),
        _ => closed(seen, StreamReport::Failed(StreamError::UnexpectedEvent)),
    }
}

/// The worker of one connection.
#[derive(Clone, Copy, Debug, PartialEq, Eq, Structural)]
pub struct DnsSocket {
    warmup: u64,
    state: ConnectionState,
}

impl DnsSocket {
    /// How long the connection warms up.
    pub closed spec fn warmup(&self) -> u64 {
        self.warmup
    }

    /// Where the connection stands.
    pub closed spec fn state(&self) -> ConnectionState {
        self.state
    }

    /// The worker of a connection that is about to be accepted.
    pub fn new() -> (socket: Self)
        ensures
            socket.warmup() == IGNORE_DURATION,
            socket.state() == ConnectionState::Connecting,
    {
        DnsSocket { warmup: IGNORE_DURATION, state: ConnectionState::Connecting }
    }

    /// The same with a warm-up of one's own choice.
    pub fn with_warmup(warmup: u64) -> (socket: Self)
        ensures
            socket.warmup() == warmup,
            socket.state() == ConnectionState::Connecting,
    {
        DnsSocket { warmup, state: ConnectionState::Connecting }
    }

    /// Where the connection stands.
    pub fn current_state(&self) -> (state: ConnectionState)
        ensures
            state == self.state(),
    {
        self.state
    }

    fn close(&mut self, report: StreamReport) -> (step: StreamStep)
        ensures
            final(self).warmup() == old(self).warmup(),
            final(self).state() == ConnectionState::Closed,
            step.next == StreamAction::Stop,
            step.report == report,
            step.messages@.len() == 0,
    {
        self.state = ConnectionState::Closed;
        StreamStep { next: StreamAction::Stop, report, messages: Vec::new() }
    }

    fn handle_record(
        guard: StartupGuard,
        now: u64,
        record: &Option<Dnstap>,
        doorbells: &mut DoorbellDedup,
    ) -> (step: StreamStep)
        ensures
            ({
                let outcome = frame_outcome(
                    guard,
                    old(doorbells)@,
                    now,
                    match record {
                        Some(record) => Some(record@),
                        None => None,
                    },
                );
                &&& final(doorbells)@ == outcome.seen
                &&& step.next == outcome.next
                &&& step.report == outcome.report
                &&& message_views(step.messages@) == outcome.messages
                &&& step.messages@.len() == outcome.messages.len()
            }),
    {
        let mut messages: Vec<MqttMessage> = Vec::new();
        let report = if guard.discards(now) {
            StreamReport::FrameDiscarded
        } else {
            match record {
                None => StreamReport::FrameInvalid(FrameError::MalformedRecord),
                Some(record) => match handle_frame(record, doorbells) {
                    Ok(found) => {
                        messages = found;
                        StreamReport::FrameHandled
                    },
                    Err(error) => StreamReport::FrameInvalid(error),
                },
            }
        };
        assert(message_views(Seq::<MqttMessage>::empty()) =~= Seq::<MessageView>::empty());
        StreamStep { next: StreamAction::ReadFrame, report, messages }
    }

    /// Answers one event of the stream: moves the connection on, and says what
    /// to report, what to enqueue and what to do next. The dedup set is
    /// checked and extended within the call, and only by a frame that is
    /// handled.
    pub fn handle_stream(&mut self, event: StreamEvent, doorbells: &mut DoorbellDedup) -> (step:
        StreamStep)
        ensures
            final(self).warmup() == old(self).warmup(),
            ({
                let outcome = stream_step(
                    old(self).warmup(),
                    old(self).state(),
                    old(doorbells)@,
                    event@,
                );
                &&& final(self).state() == outcome.state
                &&& final(doorbells)@ == outcome.seen
                &&& step.next == outcome.next
                &&& step.report == outcome.report
                &&& message_views(step.messages@) == outcome.messages
                &&& step.messages@.len() == outcome.messages.len()
            }),
    {
        assert(message_views(Seq::<MqttMessage>::empty()) =~= Seq::<MessageView>::empty());
        match (self.state, event) {
            (ConnectionState::Connecting, StreamEvent::Accepted) => {
                self.state = ConnectionState::Handshaking;
                StreamStep {
                    next: StreamAction::Handshake,
                    report: StreamReport::Connected,
                    messages: Vec::new(),
                }
            },
            (ConnectionState::Handshaking, StreamEvent::HandshakeCompleted { now }) => {
                self.state = ConnectionState::Streaming {
                    guard: StartupGuard::new(now, self.warmup),
                };
                StreamStep {
                    next: StreamAction::ReadFrame,
                    report: StreamReport::HandshakeFinished,
                    messages: Vec::new(),
                }
            },
            (ConnectionState::Handshaking, StreamEvent::HandshakeFailed) => self.close(
                StreamReport::Failed(StreamError::HandshakeFailed),
            ),
            (ConnectionState::Streaming { guard }, StreamEvent::FrameRead { now, record }) => {
                Self::handle_record(guard, now, &record, doorbells)
            },
            (ConnectionState::Streaming { .. }, StreamEvent::ReadFailed) => self.close(
                StreamReport::Failed(StreamError::ReadFailed),
            ),
            (ConnectionState::Streaming { .. }, StreamEvent::EndOfStream) => self.close(
                StreamReport::Disconnected,
            ),
            _ => self.close(StreamReport::Failed(StreamError::UnexpectedEvent)),
        }
    }
}

/// The query matcher looks at one question at a time: a question that rings
/// is one observation, with the name as it was asked, and any other question
/// is none.
pub proof fn lemma_one_question(question: QuestionView, client: Seq<u8>)
    ensures
        observations_of(seq![question], client) == if rings(question) {
            seq![ObservationView { client, matched_hostname: question.qname }]
        } else {
            Seq::<ObservationView>::empty()
        },
{
    reveal(Seq::filter);
    let none = Seq::<QuestionView>::empty();
    none.lemma_filter_push(question, ringing());
    assert(none.push(question) =~= seq![question]);
    assert(none.filter(ringing()) =~= none);
    if rings(question) {
        assert(observations_of(seq![question], client) =~= seq![
            ObservationView { client, matched_hostname: question.qname },
        ]);
    } else {
        assert(observations_of(seq![question], client) =~= Seq::<ObservationView>::empty());
    }
}

/// The query matcher keeps the order of the questions: the observations of a
/// list are those of its front followed by those of its back.
pub proof fn lemma_questions_in_order(
    front: Seq<QuestionView>,
    back: Seq<QuestionView>,
    client: Seq<u8>,
)
    ensures
        observations_of(front + back, client) == observations_of(front, client) + observations_of(
            back,
            client,
        ),
{
    Seq::filter_distributes_over_add(front, back, ringing());
    assert(observations_of(front + back, client) =~= observations_of(front, client)
        + observations_of(back, client));
}

/// Questions of which none rings give no observation at all: a name that is
/// not on the watch-list, or a watched name asked for with another record
/// type, is passed over.
pub proof fn lemma_no_ring_no_observation(questions: Seq<QuestionView>, client: Seq<u8>)
    requires
        forall|i: int| 0 <= i < questions.len() ==> !rings(#[trigger] questions[i]),
    ensures
        observations_of(questions, client).len() == 0,
    decreases questions.len(),
{
    reveal(Seq::filter);
    if questions.len() > 0 {
        lemma_no_ring_no_observation(questions.drop_last(), client);
        assert(!rings(questions.last()));
    }
}

/// Questions that all ring give one observation each.
pub proof fn lemma_every_ring_observed(questions: Seq<QuestionView>, client: Seq<u8>)
    requires
        forall|i: int| 0 <= i < questions.len() ==> rings(#[trigger] questions[i]),
    ensures
        observations_of(questions, client) == questions.map_values(observed(client)),
{
    lemma_ringing_kept(questions);
}

proof fn lemma_ringing_kept(questions: Seq<QuestionView>)
    requires
        forall|i: int| 0 <= i < questions.len() ==> rings(#[trigger] questions[i]),
    ensures
        questions.filter(ringing()) == questions,
    decreases questions.len(),
{
    reveal(Seq::filter);
    if questions.len() > 0 {
        lemma_ringing_kept(questions.drop_last());
        assert(rings(questions.last()));
        assert(questions.drop_last().push(questions.last()) =~= questions);
    }
}

/// The dedup set only grows, and by the clients observed: a client is known
/// after a run of observations exactly if it was known before or is the
/// client of one of them.
pub proof fn lemma_seen_after(
    seen: Set<Seq<char>>,
    observations: Seq<ObservationView>,
    client: Seq<char>,
)
    ensures
        seen_after(seen, observations).contains(client) <==> seen.contains(client) || exists|
            i: int,
        |
            0 <= i < observations.len() && client_key(#[trigger] observations[i]) == client,
    decreases observations.len(),
{
    if observations.len() > 0 {
        let first = client_key(observations[0]);
        let rest = observations.drop_first();
        lemma_seen_after(seen.insert(first), rest, client);
        if seen_after(seen, observations).contains(client) {
            if !seen.contains(client) && first != client {
                let i = choose|i: int| 0 <= i < rest.len() && client_key(#[trigger] rest[i]) == client;
                assert(client_key(observations[i + 1]) == client);
            }
        } else {
            assert forall|i: int| 0 <= i < observations.len() implies client_key(
                #[trigger] observations[i],
            ) != client by {
                if i > 0 {
                    assert(rest[i - 1] == observations[i]);
                }
            }
        }
    }
}

/// A run of observations can be cut anywhere: the messages are those of the
/// front, then those of the back with the clients of the front known.
pub proof fn lemma_messages_in_order(
    seen: Set<Seq<char>>,
    observations: Seq<ObservationView>,
    at: int,
)
    requires
        0 <= at <= observations.len(),
    ensures
        messages_for(seen, observations) == messages_for(seen, observations.take(at))
            + messages_for(seen_after(seen, observations.take(at)), observations.skip(at)),
        seen_after(seen, observations) == seen_after(
            seen_after(seen, observations.take(at)),
            observations.skip(at),
        ),
    decreases at,
{
    if at == 0 {
        assert(observations.take(0) =~= Seq::<ObservationView>::empty());
        assert(observations.skip(0) =~= observations);
        assert(messages_for(seen, observations) =~= messages_for(seen, observations.take(at))
            + messages_for(seen_after(seen, observations.take(at)), observations.skip(at)));
    } else {
        let first = client_key(observations[0]);
        let rest = observations.drop_first();
        lemma_messages_in_order(seen.insert(first), rest, at - 1);
        assert(observations.take(at).drop_first() =~= rest.take(at - 1));
        assert(observations.take(at)[0] == observations[0]);
        assert(rest.skip(at - 1) =~= observations.skip(at));
        assert(messages_for(seen, observations) =~= messages_for(seen, observations.take(at))
            + messages_for(seen_after(seen, observations.take(at)), observations.skip(at)));
    }
}

/// Exactly one first sighting for each client, in whatever order the
/// observations of different connections reach the dedup set.
///
/// Take any run of observations and any one of them. If its client was known
/// before the run, or is the client of an earlier observation of the run, the
/// observation yields the action message alone. Otherwise it is the first
/// sighting of that client and yields the config message and then the action
/// message. Either way these messages stand between those of the observations
/// before it and those of the observations after it.
pub proof fn lemma_one_first_sighting(
    seen: Set<Seq<char>>,
    observations: Seq<ObservationView>,
    at: int,
)
    requires
        0 <= at < observations.len(),
    ensures
        ({
            let client = client_key(observations[at]);
            let known = seen.contains(client) || exists|earlier: int|
                0 <= earlier < at && client_key(#[trigger] observations[earlier]) == client;
            let sighting = if known {
                Sighting::Repeat
            } else {
                Sighting::First
            };
            messages_for(seen, observations) == messages_for(seen, observations.take(at))
                + sighting_messages(client, sighting) + messages_for(
                seen_after(seen, observations.take(at + 1)),
                observations.skip(at + 1),
            )
        }),
{
    let client = client_key(observations[at]);
    let front = observations.take(at);
    let back = observations.skip(at);
    let known_now = seen_after(seen, front);
    lemma_messages_in_order(seen, observations, at);
    lemma_seen_after(seen, front, client);
    assert(back[0] == observations[at]);
    assert(back.drop_first() =~= observations.skip(at + 1));
    lemma_messages_in_order(seen, observations.take(at + 1), at);
    assert(observations.take(at + 1).take(at) =~= front);
    assert(observations.take(at + 1).skip(at) =~= seq![observations[at]]);
    assert(seq![observations[at]].drop_first() =~= Seq::<ObservationView>::empty());
    assert(seen_after(known_now, seq![observations[at]]) == known_now.insert(client)) by {
        reveal_with_fuel(seen_after, 2);
    }
    if known_now.contains(client) {
        if !seen.contains(client) {
            let i = choose|i: int| 0 <= i < front.len() && client_key(#[trigger] front[i]) == client;
            assert(client_key(observations[i]) == client);
        }
    } else {
        assert forall|earlier: int| 0 <= earlier < at implies client_key(
            #[trigger] observations[earlier],
        ) != client by {
            assert(front[earlier] == observations[earlier]);
        }
    }
    assert(messages_for(known_now, back) == sighting_messages(client, sighting_of(known_now, client))
        + messages_for(known_now.insert(client), back.drop_first()));
    let sighting = sighting_of(known_now, client);
    assert(messages_for(seen, observations) =~= messages_for(seen, front) + sighting_messages(
        client,
        sighting,
    ) + messages_for(seen_after(seen, observations.take(at + 1)), observations.skip(at + 1)));
}

/// What arrives while a connection warms up never reaches the dedup set,
/// however long the warm-up: a frame that is processed before `accept_time +
/// warmup` on a connection that began to stream at `accept_time` is dropped,
/// whatever it holds. It changes neither the set nor the state, and no message
/// comes of it.
pub proof fn lemma_warmup_keeps_dedup_clean(
    warmup: u64,
    accept_time: u64,
    now: u64,
    record: Option<Option<dnstap::MessageView>>,
    seen: Set<Seq<char>>,
)
    requires
        now < accept_time + warmup,
    ensures
        ({
            let streaming = stream_step(
                warmup,
                ConnectionState::Handshaking,
                seen,
                StreamEventView::HandshakeCompleted { now: accept_time },
            ).state;
            let outcome = stream_step(
                warmup,
                streaming,
                seen,
                StreamEventView::FrameRead { now, record },
            );
            &&& outcome.seen == seen
            &&& outcome.messages.len() == 0
            &&& outcome.report == StreamReport::FrameDiscarded
            &&& outcome.state == streaming
        }),
{
}

/// A frame that is given up, at any time and for any reason, leaves the dedup
/// set as it was and yields no message; and the connection reads on.
pub proof fn lemma_invalid_frame_changes_nothing(
    guard: StartupGuard,
    seen: Set<Seq<char>>,
    now: u64,
    record: Option<Option<dnstap::MessageView>>,
)
    requires
        frame_outcome(guard, seen, now, record).report is FrameInvalid,
    ensures
        frame_outcome(guard, seen, now, record).seen == seen,
        frame_outcome(guard, seen, now, record).messages.len() == 0,
        frame_outcome(guard, seen, now, record).next == StreamAction::ReadFrame,
{
}

/// The dedup set tells clients apart exactly: two observations go by the same
/// name in the set, and in topics, only if they have the same client address.
pub proof fn lemma_key_names_one_client(one: ObservationView, other: ObservationView)
    requires
        one.client.len() == 4 || one.client.len() == 16,
        other.client.len() == 4 || other.client.len() == 16,
        client_key(one) == client_key(other),
    ensures
        one.client == other.client,
{
    lemma_text_names_one_address(one.client, other.client);
}

} // verus!
