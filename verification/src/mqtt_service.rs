//! The MQTT side of the publisher: what is put on the wire for each of its
//! three operations.
//!
//! The service decides topic, quality of service, retain flag and payload. It
//! sends nothing itself: each operation returns the commands for the session,
//! to be carried out in order, stopping at the first that fails.

use crate::mqtt::{MessageView, MqttClient, MqttMessage};
use crate::text::{ascii, ascii_bytes};
use vstd::prelude::*;
use vstd::string::*;

verus! {

/// The last part of the topic that carries the program's own status.
pub const STATUS_TOPIC: &'static str = "status";

/// The retained status while the program runs.
pub const STATUS_ONLINE: &'static str = "online";

/// The retained status once the program has stopped.
pub const STATUS_OFFLINE: &'static str = "offline";

/// The delivery guarantee asked of the broker for one publication.
#[derive(Clone, Copy, Debug, PartialEq, Eq, Structural)]
pub enum QoS {
    AtMostOnce,
    AtLeastOnce,
    ExactlyOnce,
}

/// One request to the MQTT session.
#[derive(Debug, PartialEq, Eq)]
pub enum SinkCommand {
    /// Publish `payload` under the absolute `topic`.
    Publish { topic: String, qos: QoS, retain: bool, payload: Vec<u8> },
    /// Close the session in good order.
    Disconnect,
}

/// What a command says, over plain sequences.
pub enum SinkCommandView {
    Publish { topic: Seq<char>, qos: QoS, retain: bool, payload: Seq<u8> },
    Disconnect,
}

impl View for SinkCommand {
    type V = SinkCommandView;

    open spec fn view(&self) -> SinkCommandView {
        match self {
            SinkCommand::Publish { topic, qos, retain, payload } => SinkCommandView::Publish {
                topic: topic@,
                qos: *qos,
                retain: *retain,
                payload: payload@,
            },
            SinkCommand::Disconnect => SinkCommandView::Disconnect,
        }
    }
}

/// The views of a run of commands, in order.
pub open spec fn command_views(commands: Seq<SinkCommand>) -> Seq<SinkCommandView> {
    commands.map_values(|c: SinkCommand| c@)
}

/// The absolute topic: the prefix, a slash, and the relative topic.
pub open spec fn prefixed_topic(prefix: Seq<char>, topic: Seq<char>) -> Seq<char> {
    prefix + seq!['/'] + topic
}

/// The publication that carries a message of the program: at least once, not
/// retained, under the prefixed topic.
pub open spec fn message_command(prefix: Seq<char>, message: MessageView) -> SinkCommandView {
    SinkCommandView::Publish {
        topic: prefixed_topic(prefix, message.topic),
        qos: QoS::AtLeastOnce,
        retain: false,
        payload: message.payload,
    }
}

/// The publication that announces the program's status: at least once and
/// retained, so that a late subscriber still learns of it.
pub open spec fn status_command(prefix: Seq<char>, status: Seq<char>) -> SinkCommandView {
    SinkCommandView::Publish {
        topic: prefixed_topic(prefix, STATUS_TOPIC@),
        qos: QoS::AtLeastOnce,
        retain: true,
        payload: ascii(status),
    }
}

/// The publisher that speaks MQTT: a session and the prefix of all its topics.
#[derive(Debug, PartialEq, Eq)]
pub struct MqttService {
    client: MqttClient,
    topic_prefix: String,
}

impl MqttService {
    pub fn new(client: MqttClient, topic_prefix: String) -> (service: Self)
        ensures
            service.client() == client,
            service.topic_prefix() == topic_prefix@,
    {
        MqttService { client, topic_prefix }
    }

    /// The session that the service publishes through.
    pub closed spec fn client(&self) -> MqttClient {
        self.client
    }

    /// The prefix of every topic of the service.
    pub closed spec fn topic_prefix(&self) -> Seq<char> {
        self.topic_prefix@
    }

    /// The settings of the session.
    pub fn session(&self) -> (client: &MqttClient)
        ensures
            *client == self.client(),
    {
        &self.client
    }

    /// The prefix of every topic of the service.
    pub fn prefix(&self) -> (prefix: &String)
        ensures
            prefix@ == self.topic_prefix(),
    {
        &self.topic_prefix
    }

    fn absolute_topic(&self, topic: &str) -> (absolute: String)
        ensures
            absolute@ == prefixed_topic(self.topic_prefix(), topic@),
    {
        proof {
            reveal_strlit("/");
        }
        let mut absolute = self.topic_prefix.clone();
        absolute.append("/");
        absolute.append(topic);
        absolute
    }

    fn status(&self, status: &str) -> (command: SinkCommand)
        requires
            vstd::utf8::is_ascii_chars(status@),
        ensures
            command@ == status_command(self.topic_prefix(), status@),
    {
        SinkCommand::Publish {
            topic: self.absolute_topic(STATUS_TOPIC),
            qos: QoS::AtLeastOnce,
            retain: true,
            payload: ascii_bytes(status),
        }
    }

    /// Publishes one message of the program under the service's prefix.
    pub fn publish(&self, message: MqttMessage) -> (commands: Vec<SinkCommand>)
        ensures
            command_views(commands@) == seq![message_command(self.topic_prefix(), message@)],
            commands@.len() == 1,
    {
        let MqttMessage::Publish { topic, payload } = message;
        let command = SinkCommand::Publish {
            topic: self.absolute_topic(topic.as_str()),
            qos: QoS::AtLeastOnce,
            retain: false,
            payload,
        };
        let commands = vec![command];
        assert(command_views(commands@) =~= seq![message_command(self.topic_prefix(), message@)]);
        commands
    }

    /// Announces that the program is up.
    pub fn send_birth(&self) -> (commands: Vec<SinkCommand>)
        ensures
            command_views(commands@) == seq![
                status_command(self.topic_prefix(), STATUS_ONLINE@),
            ],
            commands@.len() == 1,
    {
        proof {
            reveal_strlit("online");
        }
        let commands = vec![self.status(STATUS_ONLINE)];
        assert(command_views(commands@) =~= seq![
            status_command(self.topic_prefix(), STATUS_ONLINE@),
        ]);
        commands
    }

    /// Announces that the program is down, then closes the session.
    pub fn send_death(&self) -> (commands: Vec<SinkCommand>)
        ensures
            command_views(commands@) == seq![
                status_command(self.topic_prefix(), STATUS_OFFLINE@),
                SinkCommandView::Disconnect,
            ],
            commands@.len() == 2,
    {
        proof {
            reveal_strlit("offline");
        }
        let commands = vec![self.status(STATUS_OFFLINE), SinkCommand::Disconnect];
        assert(command_views(commands@) =~= seq![
            status_command(self.topic_prefix(), STATUS_OFFLINE@),
            SinkCommandView::Disconnect,
        ]);
        commands
    }
}

impl Clone for MqttService {
    fn clone(&self) -> (copy: Self)
        ensures
            copy == *self,
    {
        MqttService { client: self.client.clone(), topic_prefix: self.topic_prefix.clone() }
    }
}

} // verus!
