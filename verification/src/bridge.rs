//! The bridge between the dnstap listener and the publisher, and the decisions
//! of its dispatch loop.
//!
//! The loop waits on several sources at once: new connections, messages from
//! the connections, shutdown signals, and the outcome of what it asked the
//! publisher to do. The waiting is the program's business. What to do about
//! each thing that happens is decided here: [`Bridge::start`] opens the loop
//! and [`DispatchLoop::handle`] answers one event at a time with the actions to
//! carry out, in order.

use crate::dns_service::DnsService;
use crate::mqtt::{MessageView, MqttClient, MqttMessage};
use crate::mqtt_service::MqttService;
use std::path::PathBuf;
use vstd::prelude::*;

verus! {

/// Messages that may wait between the connections and the dispatch loop. When
/// the publisher falls behind, the connections wait in turn.
pub const CHANNEL_CAPACITY: usize = 10;

/// A listener and, where messages are to leave the machine, a publisher.
pub struct Bridge {
    dns_listener: DnsService,
    message_publisher: Option<MqttService>,
}

/// A signal that asks the program to stop.
#[derive(Clone, Copy, Debug, PartialEq, Eq, Structural)]
pub enum Signal {
    Interrupt,
    Hangup,
}

/// One of the three things the publisher can be asked to do.
#[derive(Clone, Copy, Debug, PartialEq, Eq, Structural)]
pub enum SinkOperation {
    Birth,
    Publish,
    Death,
}

/// Where the dispatch loop stands.
#[derive(Clone, Copy, Debug, PartialEq, Eq, Structural)]
pub enum DispatchState {
    /// Connections are accepted and messages are forwarded.
    Running,
    /// A signal ended the loop.
    Stopped,
    /// The listening socket could not be bound: the program cannot do its work.
    Aborted,
}

/// Something that happened while the loop was waiting.
#[derive(Debug, PartialEq, Eq)]
pub enum DispatchEvent {
    /// The listening socket could not be bound.
    BindFailed,
    /// A resolver has connected.
    ConnectionAccepted,
    /// A connection has handed over a message.
    MessageReceived(MqttMessage),
    /// The publisher failed at what it was asked to do.
    SinkFailed(SinkOperation),
    /// The program was asked to stop.
    ShutdownRequested(Signal),
}

/// An event over plain sequences.
pub enum DispatchEventView {
    BindFailed,
    ConnectionAccepted,
    MessageReceived(MessageView),
    SinkFailed(SinkOperation),
    ShutdownRequested(Signal),
}

impl View for DispatchEvent {
    type V = DispatchEventView;

    open spec fn view(&self) -> DispatchEventView {
        match self {
            DispatchEvent::BindFailed => DispatchEventView::BindFailed,
            DispatchEvent::ConnectionAccepted => DispatchEventView::ConnectionAccepted,
            DispatchEvent::MessageReceived(message) => DispatchEventView::MessageReceived(
                message@,
            ),
            DispatchEvent::SinkFailed(operation) => DispatchEventView::SinkFailed(*operation),
            DispatchEvent::ShutdownRequested(signal) => DispatchEventView::ShutdownRequested(
                *signal,
            ),
        }
    }
}

/// Something for the program to carry out.
#[derive(Debug, PartialEq, Eq)]
pub enum DispatchAction {
    /// Ask the publisher to announce that the program is up.
    SendBirth,
    /// Bind the socket and begin to accept connections.
    StartListening,
    /// Run a worker for the connection that was just accepted, with a sender
    /// of its own for the message channel.
    SpawnWorker,
    /// Ask the publisher to publish the message.
    Publish(MqttMessage),
    /// No publisher is configured: show the message in the log.
    Log(MqttMessage),
    /// Ask the publisher to announce that the program is down.
    SendDeath,
    /// Stop accepting, and end the workers that still run.
    StopListening,
    /// Tell the operator that the publisher failed. The loop goes on.
    ReportFailure(SinkOperation),
}

/// An action over plain sequences.
pub enum DispatchActionView {
    SendBirth,
    StartListening,
    SpawnWorker,
    Publish(MessageView),
    Log(MessageView),
    SendDeath,
    StopListening,
    ReportFailure(SinkOperation),
}

impl View for DispatchAction {
    type V = DispatchActionView;

    open spec fn view(&self) -> DispatchActionView {
        match self {
            DispatchAction::SendBirth => DispatchActionView::SendBirth,
            DispatchAction::StartListening => DispatchActionView::StartListening,
            DispatchAction::SpawnWorker => DispatchActionView::SpawnWorker,
            DispatchAction::Publish(message) => DispatchActionView::Publish(message@),
            DispatchAction::Log(message) => DispatchActionView::Log(message@),
            DispatchAction::SendDeath => DispatchActionView::SendDeath,
            DispatchAction::StopListening => DispatchActionView::StopListening,
            DispatchAction::ReportFailure(operation) => DispatchActionView::ReportFailure(
                *operation,
            ),
        }
    }
}

/// The views of a run of actions, in order.
pub open spec fn action_views(actions: Seq<DispatchAction>) -> Seq<DispatchActionView> {
    actions.map_values(|a: DispatchAction| a@)
}

/// What opens the loop: the birth announcement where there is a publisher, and
/// only then the listener, so that no connection is accepted before it.
pub open spec fn opening_actions(publishing: bool) -> Seq<DispatchActionView> {
    if publishing {
        seq![DispatchActionView::SendBirth, DispatchActionView::StartListening]
    } else {
        seq![DispatchActionView::StartListening]
    }
}

/// What closes the loop: the death announcement where there is a publisher,
/// and only then the end of the listener and of its workers.
pub open spec fn closing_actions(publishing: bool) -> Seq<DispatchActionView> {
    if publishing {
        seq![DispatchActionView::SendDeath, DispatchActionView::StopListening]
    } else {
        seq![DispatchActionView::StopListening]
    }
}

/// Where the loop stands after `event`.
pub open spec fn next_state(state: DispatchState, event: DispatchEventView) -> DispatchState {
    match (state, event) {
        (DispatchState::Running, DispatchEventView::ShutdownRequested(_)) => DispatchState::Stopped,
        (DispatchState::Running, DispatchEventView::BindFailed) => DispatchState::Aborted,
        _ => state,
    }
}

/// What `event` asks for. A failure of the publisher is reported whenever it
/// comes. Everything else counts only while the loop runs: once it has ended,
/// what still arrives is dropped.
pub open spec fn actions_for(
    publishing: bool,
    state: DispatchState,
    event: DispatchEventView,
) -> Seq<DispatchActionView> {
    match event {
        DispatchEventView::SinkFailed(operation) => seq![
            DispatchActionView::ReportFailure(operation),
        ],
        _ => if state != DispatchState::Running {
            Seq::empty()
        } else {
            match event {
                DispatchEventView::ConnectionAccepted => seq![DispatchActionView::SpawnWorker],
                DispatchEventView::MessageReceived(message) => if publishing {
                    seq![DispatchActionView::Publish(message)]
                } else {
                    seq![DispatchActionView::Log(message)]
                },
                _ => closing_actions(publishing),
            }
        },
    }
}

/// The dispatch loop of one run of the program.
#[derive(Clone, Copy, Debug, PartialEq, Eq, Structural)]
pub struct DispatchLoop {
    publishing: bool,
    state: DispatchState,
}

impl DispatchLoop {
    /// Whether a publisher is configured.
    pub closed spec fn publishing(&self) -> bool {
        self.publishing
    }

    /// Where the loop stands.
    pub closed spec fn state(&self) -> DispatchState {
        self.state
    }

    /// Whether a publisher is configured.
    pub fn is_publishing(&self) -> (publishing: bool)
        ensures
            publishing == self.publishing(),
    {
        self.publishing
    }

    /// Where the loop stands.
    pub fn current_state(&self) -> (state: DispatchState)
        ensures
            state == self.state(),
    {
        self.state
    }

    /// Answers one event with the actions to carry out, in order.
    pub fn handle(&mut self, event: DispatchEvent) -> (actions: Vec<DispatchAction>)
        ensures
            final(self).publishing() == old(self).publishing(),
            final(self).state() == next_state(old(self).state(), event@),
            action_views(actions@) == actions_for(
                old(self).publishing(),
                old(self).state(),
                event@,
            ),
            actions@.len() == actions_for(old(self).publishing(), old(self).state(), event@).len(),
    {
        let ghost before = event@;
        let running = match self.state {
            DispatchState::Running => true,
            _ => false,
        };
        let mut actions: Vec<DispatchAction> = Vec::new();
        match event {
            DispatchEvent::SinkFailed(operation) => {
                actions.push(DispatchAction::ReportFailure(operation));
            },
            DispatchEvent::ConnectionAccepted => {
                if running {
                    actions.push(DispatchAction::SpawnWorker);
                }
            },
            DispatchEvent::MessageReceived(message) => {
                if running {
                    if self.publishing {
                        actions.push(DispatchAction::Publish(message));
                    } else {
                        actions.push(DispatchAction::Log(message));
                    }
                }
            },
            DispatchEvent::ShutdownRequested(_) => {
                if running {
                    self.close(&mut actions);
                    self.state = DispatchState::Stopped;
                }
            },
            DispatchEvent::BindFailed => {
                if running {
                    self.close(&mut actions);
                    self.state = DispatchState::Aborted;
                }
            },
        }
        assert(action_views(actions@) =~= actions_for(
            old(self).publishing(),
            old(self).state(),
            before,
        ));
        actions
    }

    fn close(&self, actions: &mut Vec<DispatchAction>)
        requires
            old(actions)@.len() == 0,
        ensures
            action_views(final(actions)@) == closing_actions(self.publishing()),
    {
        if self.publishing {
            actions.push(DispatchAction::SendDeath);
        }
        actions.push(DispatchAction::StopListening);
        assert(action_views(actions@) =~= closing_actions(self.publishing()));
    }
}

impl Bridge {
    /// The listener of the bridge.
    pub closed spec fn listener(&self) -> DnsService {
        self.dns_listener
    }

    /// The publisher of the bridge, where it has one.
    pub closed spec fn publisher(&self) -> Option<MqttService> {
        self.message_publisher
    }

    /// A bridge that listens on `dns_socket_path` and only logs what it sees.
    pub fn new(dns_socket_path: PathBuf) -> (bridge: Self)
        ensures
            bridge.listener().socket_path() == dns_socket_path,
            bridge.listener().seen() == Set::<Seq<char>>::empty(),
            bridge.publisher() is None,
    {
        Bridge { dns_listener: DnsService::new(dns_socket_path), message_publisher: None }
    }

    /// A bridge made of the given parts.
    pub fn from_components(dns_listener: DnsService, message_publisher: Option<MqttService>) -> (bridge:
        Self)
        ensures
            bridge.listener() == dns_listener,
            bridge.publisher() == message_publisher,
    {
        Bridge { dns_listener, message_publisher }
    }

    /// A bridge that listens on `dns_socket_path` and publishes to the broker
    /// at `mqtt_host:mqtt_port`, every topic under `mqtt_topic_prefix`.
    pub fn with_mqtt(
        dns_socket_path: PathBuf,
        mqtt_host: String,
        mqtt_port: u16,
        mqtt_username: String,
        mqtt_password: String,
        mqtt_topic_prefix: String,
    ) -> (bridge: Self)
        ensures
            bridge.listener().socket_path() == dns_socket_path,
            bridge.listener().seen() == Set::<Seq<char>>::empty(),
            bridge.publisher() matches Some(service) && service.topic_prefix()
                == mqtt_topic_prefix@ && service.client().opens(
                mqtt_host@,
                mqtt_port,
                mqtt_username@,
                mqtt_password@,
            ),
    {
        let mqtt_client = MqttClient::new(
            mqtt_host.as_str(),
            mqtt_port,
            mqtt_username.as_str(),
            mqtt_password.as_str(),
        );
        let mqtt_service = MqttService::new(mqtt_client, mqtt_topic_prefix);
        Bridge {
            dns_listener: DnsService::new(dns_socket_path),
            message_publisher: Some(mqtt_service),
        }
    }

    /// Whether the bridge publishes to a broker.
    pub fn has_mqtt_config(&self) -> (configured: bool)
        ensures
            configured == self.publisher() is Some,
    {
        self.message_publisher.is_some()
    }

    /// The listener of the bridge.
    pub fn dns_listener(&self) -> (listener: &DnsService)
        ensures
            *listener == self.listener(),
    {
        &self.dns_listener
    }

    /// The publisher of the bridge, where it has one.
    pub fn message_publisher(&self) -> (publisher: &Option<MqttService>)
        ensures
            *publisher == self.publisher(),
    {
        &self.message_publisher
    }

    /// Takes the bridge apart, for the program that runs it.
    pub fn into_components(self) -> (parts: (DnsService, Option<MqttService>))
        ensures
            parts.0 == self.listener(),
            parts.1 == self.publisher(),
    {
        (self.dns_listener, self.message_publisher)
    }

    /// Opens the dispatch loop: the loop in its first state, and what to do
    /// before the first wait.
    pub fn start(&self) -> (opening: (DispatchLoop, Vec<DispatchAction>))
        ensures
            opening.0.publishing() == self.publisher() is Some,
            opening.0.state() == DispatchState::Running,
            action_views(opening.1@) == opening_actions(self.publisher() is Some),
            opening.1@.len() == opening_actions(self.publisher() is Some).len(),
    {
        let publishing = self.has_mqtt_config();
        let mut actions: Vec<DispatchAction> = Vec::new();
        if publishing {
            actions.push(DispatchAction::SendBirth);
        }
        actions.push(DispatchAction::StartListening);
        assert(action_views(actions@) =~= opening_actions(publishing));
        (DispatchLoop { publishing, state: DispatchState::Running }, actions)
    }
}

/// Where the loop stands after a run of events, from its opening on.
pub open spec fn run_state(events: Seq<DispatchEventView>) -> DispatchState
    decreases events.len(),
{
    if events.len() == 0 {
        DispatchState::Running
    } else {
        next_state(run_state(events.drop_last()), events.last())
    }
}

/// Everything a loop asks for over a run of events: what opens it, then the
/// answer to each event in turn.
pub open spec fn run_actions(publishing: bool, events: Seq<DispatchEventView>) -> Seq<
    DispatchActionView,
>
    decreases events.len(),
{
    if events.len() == 0 {
        opening_actions(publishing)
    } else {
        run_actions(publishing, events.drop_last()) + actions_for(
            publishing,
            run_state(events.drop_last()),
            events.last(),
        )
    }
}

/// The birth announcement comes before everything else: whatever happens
/// later, a loop with a publisher first asks for the announcement and then for
/// the listener, and a loop without one first asks for the listener. No
/// connection is accepted, and nothing is published, before that.
pub proof fn lemma_birth_comes_first(publishing: bool, events: Seq<DispatchEventView>)
    ensures
        run_actions(publishing, events).len() >= opening_actions(publishing).len(),
        run_actions(publishing, events).take(opening_actions(publishing).len() as int)
            == opening_actions(publishing),
    decreases events.len(),
{
    let opening = opening_actions(publishing);
    if events.len() == 0 {
        assert(run_actions(publishing, events).take(opening.len() as int) =~= opening);
    } else {
        lemma_birth_comes_first(publishing, events.drop_last());
        assert(run_actions(publishing, events).take(opening.len() as int) =~= run_actions(
            publishing,
            events.drop_last(),
        ).take(opening.len() as int));
    }
}

/// While the loop runs it has asked for neither the death announcement nor
/// the end of the listener, and for the birth announcement at most once, at
/// the very beginning.
pub proof fn lemma_running_loop_is_open(publishing: bool, events: Seq<DispatchEventView>)
    requires
        run_state(events) == DispatchState::Running,
    ensures
        forall|i: int|
            0 <= i < run_actions(publishing, events).len() ==> {
                let action = #[trigger] run_actions(publishing, events)[i];
                &&& !(action is SendDeath)
                &&& !(action is StopListening)
                &&& action is SendBirth ==> i == 0
            },
    decreases events.len(),
{
    if events.len() > 0 {
        lemma_running_loop_is_open(publishing, events.drop_last());
    }
}

/// A signal ends a running loop in good order, whether or not any traffic was
/// seen before: with a publisher the loop asks for the death announcement and
/// then for the end of the listener, without one for the end of the listener
/// alone.
pub proof fn lemma_signal_closes(publishing: bool, events: Seq<DispatchEventView>, signal: Signal)
    requires
        run_state(events) == DispatchState::Running,
    ensures
        run_state(events.push(DispatchEventView::ShutdownRequested(signal)))
            == DispatchState::Stopped,
        run_actions(publishing, events.push(DispatchEventView::ShutdownRequested(signal)))
            == run_actions(publishing, events) + closing_actions(publishing),
{
    let event = DispatchEventView::ShutdownRequested(signal);
    assert(events.push(event).drop_last() =~= events);
}

/// Once the loop has ended it stays ended, and what still happens asks for
/// nothing but reports of failures: no message is published, no worker is
/// started, and the death announcement is not repeated.
pub proof fn lemma_nothing_after_the_end(
    publishing: bool,
    events: Seq<DispatchEventView>,
    more: Seq<DispatchEventView>,
)
    requires
        run_state(events) != DispatchState::Running,
    ensures
        run_state(events + more) == run_state(events),
        run_actions(publishing, events + more).len() >= run_actions(publishing, events).len(),
        run_actions(publishing, events + more).take(run_actions(publishing, events).len() as int)
            == run_actions(publishing, events),
        forall|i: int|
            run_actions(publishing, events).len() <= i < run_actions(
                publishing,
                events + more,
            ).len() ==> #[trigger] run_actions(publishing, events + more)[i] is ReportFailure,
    decreases more.len(),
{
    let before = run_actions(publishing, events);
    if more.len() == 0 {
        assert(events + more =~= events);
        assert(before.take(before.len() as int) =~= before);
    } else {
        lemma_nothing_after_the_end(publishing, events, more.drop_last());
        assert((events + more).drop_last() =~= events + more.drop_last());
        assert((events + more).last() == more.last());
        let shorter = run_actions(publishing, events + more.drop_last());
        assert(run_actions(publishing, events + more).take(before.len() as int) =~= shorter.take(
            before.len() as int,
        ));
    }
}

} // verus!
