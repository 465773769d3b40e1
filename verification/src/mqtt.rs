//! The message that travels from a connection to the publisher, and the
//! settings of the MQTT session that carries it onwards.

use vstd::prelude::*;
use vstd::string::*;

verus! {

/// The name under which the program identifies itself to the broker.
pub const CLIENT_ID: &'static str = "ring-detector";

/// Seconds of silence after which the session pings the broker.
pub const KEEP_ALIVE_SECS: u64 = 30;

/// Requests that may wait between the program and the session's event loop.
pub const REQUEST_CAPACITY: usize = 10;

/// One unit of work for the publisher. It knows nothing of the transport that
/// will deliver it: the topic is relative, and the publisher puts its own
/// prefix in front.
#[derive(Debug, PartialEq, Eq)]
pub enum MqttMessage {
    Publish { topic: String, payload: Vec<u8> },
}

/// What a message says: the characters of its topic and the bytes of its payload.
pub struct MessageView {
    pub topic: Seq<char>,
    pub payload: Seq<u8>,
}

impl View for MqttMessage {
    type V = MessageView;

    open spec fn view(&self) -> MessageView {
        match self {
            MqttMessage::Publish { topic, payload } => MessageView {
                topic: topic@,
                payload: payload@,
            },
        }
    }
}

impl Clone for MqttMessage {
    fn clone(&self) -> (copy: Self)
        ensures
            copy@ == self@,
    {
        match self {
            MqttMessage::Publish { topic, payload } => MqttMessage::Publish {
                topic: topic.clone(),
                payload: payload.clone(),
            },
        }
    }
}

/// The views of a run of messages, in order.
pub open spec fn message_views(messages: Seq<MqttMessage>) -> Seq<MessageView> {
    messages.map_values(|m: MqttMessage| m@)
}

/// How to open the MQTT session: everything the transport needs to know before
/// the first packet is sent. Nothing is connected when this value is made.
#[derive(Debug, PartialEq, Eq)]
pub struct MqttClient {
    pub client_id: String,
    pub host: String,
    pub port: u16,
    pub username: String,
    pub password: String,
    pub keep_alive_secs: u64,
    pub request_capacity: usize,
}

impl MqttClient {
    /// True when these are the settings for a broker at `host:port` with the
    /// given login: the client id, the keep-alive interval and the request
    /// capacity are the fixed ones.
    pub open spec fn opens(
        &self,
        host: Seq<char>,
        port: u16,
        username: Seq<char>,
        password: Seq<char>,
    ) -> bool {
        &&& self.client_id@ == CLIENT_ID@
        &&& self.host@ == host
        &&& self.port == port
        &&& self.username@ == username
        &&& self.password@ == password
        &&& self.keep_alive_secs == KEEP_ALIVE_SECS
        &&& self.request_capacity == REQUEST_CAPACITY
    }

    /// The session for a broker at `host:port` with the given login.
    pub fn new(host: &str, port: u16, username: &str, password: &str) -> (client: MqttClient)
        ensures
            client.opens(host@, port, username@, password@),
    {
        MqttClient {
            client_id: String::from_str(CLIENT_ID),
            host: String::from_str(host),
            port,
            username: String::from_str(username),
            password: String::from_str(password),
            keep_alive_secs: KEEP_ALIVE_SECS,
            request_capacity: REQUEST_CAPACITY,
        }
    }
}

impl Clone for MqttClient {
    fn clone(&self) -> (copy: Self)
        ensures
            copy == *self,
    {
        MqttClient {
            client_id: self.client_id.clone(),
            host: self.host.clone(),
            port: self.port,
            username: self.username.clone(),
            password: self.password.clone(),
            keep_alive_secs: self.keep_alive_secs,
            request_capacity: self.request_capacity,
        }
    }
}

} // verus!
