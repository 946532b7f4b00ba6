//! In-memory recorder implementing the bus capability surface, for
//! exercising producer-side code and the terminate protocol without a bus.
use vstd::prelude::*;

use crate::client::{term_event, term_event_spec, Message, PublishError, TermMessageError};
use crate::error::AckKind;
use crate::event::Event;

verus! {

/// Records publish and terminate requests instead of performing them.
pub struct TestNatsClient {
    pub publish_requests: Vec<Event>,
    pub terminate_requests: Vec<Message>,
}

impl TestNatsClient {
    pub fn new() -> (r: TestNatsClient)
        ensures
            r.publish_requests@.len() == 0,
            r.terminate_requests@.len() == 0,
    {
        TestNatsClient { publish_requests: Vec::new(), terminate_requests: Vec::new() }
    }

    /// Records the event; always succeeds.
    pub fn publish(&mut self, event: Event) -> (r: Result<(), PublishError>)
        ensures
            r is Ok,
            final(self).publish_requests@ == old(self).publish_requests@.push(event),
            final(self).terminate_requests@ == old(self).terminate_requests@,
    {
        self.publish_requests.push(event);
        Ok(())
    }

    /// Records the terminate request; always succeeds.
    pub fn terminate(&mut self, message: Message) -> (r: Result<(), TermMessageError>)
        ensures
            r is Ok,
            final(self).terminate_requests@ == old(self).terminate_requests@.push(message),
            final(self).publish_requests@ == old(self).publish_requests@,
    {
        self.terminate_requests.push(message);
        Ok(())
    }

    pub fn get_publish_requests(&self) -> (r: &Vec<Event>)
        ensures
            r == self.publish_requests,
    {
        &self.publish_requests
    }

    pub fn get_terminate_requests(&self) -> (r: &Vec<Message>)
        ensures
            r == self.terminate_requests,
    {
        &self.terminate_requests
    }
}

impl Default for TestNatsClient {
    fn default() -> (r: TestNatsClient)
        ensures
            r.publish_requests@.len() == 0,
            r.terminate_requests@.len() == 0,
    {
        TestNatsClient::new()
    }
}

/// Runs the terminate protocol against the recorder: builds the
/// quarantined event, publishes it (exactly once), and returns the `Term`
/// acknowledgement to send for the original message. On a header or
/// subject error, nothing is published.
pub fn run_terminate(client: &mut TestNatsClient, msg: &Message) -> (r: Result<
    AckKind,
    TermMessageError,
>)
    ensures
        match r {
            Ok(k) => {
                &&& k == AckKind::Term
                &&& term_event_spec(msg@) is Ok
                &&& final(client).publish_requests@.len() == old(
                    client,
                ).publish_requests@.len() + 1
                &&& final(client).publish_requests@.last()@ == term_event_spec(msg@)->Ok_0
                &&& final(client).publish_requests@.drop_last() == old(client).publish_requests@
                &&& final(client).terminate_requests@ == old(client).terminate_requests@
            },
            Err(e) => {
                &&& term_event_spec(msg@) == Err::<crate::event::EventView, _>(e@)
                &&& final(client).publish_requests@ == old(client).publish_requests@
                &&& final(client).terminate_requests@ == old(client).terminate_requests@
            },
        },
{
    let event = match term_event(msg) {
        Ok(e) => e,
        Err(e) => {
            return Err(e);
        },
    };
    let ghost before = client.publish_requests@;
    let _ = client.publish(event);
    proof {
        assert(client.publish_requests@.drop_last() =~= before);
    }
    Ok(AckKind::Term)
}

} // verus!
