//! A publisher that sends nothing and remembers everything: the double that
//! stands in for the broker where the bridge is tried out.

use crate::mqtt::{message_views, MessageView, MqttMessage};
use vstd::prelude::*;

verus! {

/// Records what it was asked to do.
pub struct MockPublisher {
    published_messages: Vec<MqttMessage>,
    birth_called: bool,
    death_called: bool,
}

impl MockPublisher {
    /// The messages published so far, oldest first.
    pub closed spec fn published(&self) -> Seq<MessageView> {
        message_views(self.published_messages@)
    }

    /// Whether the birth announcement was asked for.
    pub closed spec fn birth_called(&self) -> bool {
        self.birth_called
    }

    /// Whether the death announcement was asked for.
    pub closed spec fn death_called(&self) -> bool {
        self.death_called
    }

    /// A publisher that has been asked for nothing yet.
    pub fn new() -> (publisher: Self)
        ensures
            publisher.published() == Seq::<MessageView>::empty(),
            !publisher.birth_called(),
            !publisher.death_called(),
    {
        let publisher = MockPublisher {
            published_messages: Vec::new(),
            birth_called: false,
            death_called: false,
        };
        assert(publisher.published() =~= Seq::<MessageView>::empty());
        publisher
    }

    /// The messages published so far, oldest first.
    pub fn get_published_messages(&self) -> (messages: Vec<MqttMessage>)
        ensures
            message_views(messages@) == self.published(),
            messages@.len() == self.published().len(),
    {
        let mut messages: Vec<MqttMessage> = Vec::new();
        let mut at: usize = 0;
        while at < self.published_messages.len()
            invariant
                at <= self.published_messages.len(),
                message_views(messages@) == message_views(self.published_messages@).take(
                    at as int,
                ),
                messages@.len() == at,
            decreases self.published_messages.len() - at,
        {
            messages.push(self.published_messages[at].clone());
            assert(message_views(messages@) =~= message_views(self.published_messages@).take(
                at + 1,
            ));
            at += 1;
        }
        assert(message_views(self.published_messages@).take(at as int) =~= message_views(
            self.published_messages@,
        ));
        messages
    }

    /// Whether the birth announcement was asked for.
    pub fn was_birth_called(&self) -> (called: bool)
        ensures
            called == self.birth_called(),
    {
        self.birth_called
    }

    /// Whether the death announcement was asked for.
    pub fn was_death_called(&self) -> (called: bool)
        ensures
            called == self.death_called(),
    {
        self.death_called
    }

    /// Takes a message and keeps it.
    pub fn publish(&mut self, message: MqttMessage)
        ensures
            final(self).published() == old(self).published().push(message@),
            final(self).birth_called() == old(self).birth_called(),
            final(self).death_called() == old(self).death_called(),
    {
        self.published_messages.push(message);
        assert(self.published() =~= old(self).published().push(message@));
    }

    /// Notes that the birth announcement was asked for.
    pub fn send_birth(&mut self)
        ensures
            final(self).birth_called(),
            final(self).published() == old(self).published(),
            final(self).death_called() == old(self).death_called(),
    {
        self.birth_called = true;
    }

    /// Notes that the death announcement was asked for.
    pub fn send_death(&mut self)
        ensures
            final(self).death_called(),
            final(self).published() == old(self).published(),
            final(self).birth_called() == old(self).birth_called(),
    {
        self.death_called = true;
    }
}

impl Default for MockPublisher {
    fn default() -> (publisher: Self)
        ensures
            publisher.published() == Seq::<MessageView>::empty(),
            !publisher.birth_called(),
            !publisher.death_called(),
    {
        MockPublisher::new()
    }
}

} // verus!
