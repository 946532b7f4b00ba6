//! Typed event: a subject, a payload, and typed headers, built through a
//! fluent builder for the optional header fields.
use vstd::prelude::*;

use crate::agent_id::AgentId;
use crate::event_id::EventId;
use crate::headers::{Headers, HeadersView};
use crate::subject::Subject;

verus! {

/// Mathematical form of a `Subject`.
pub struct SubjectView {
    pub prefix: Seq<char>,
    pub classroom_id: int,
    pub entity_type: Seq<char>,
}

impl View for Subject {
    type V = SubjectView;

    open spec fn view(&self) -> SubjectView {
        SubjectView {
            prefix: self.prefix@,
            classroom_id: self.classroom_id.value as int,
            entity_type: self.entity_type@,
        }
    }
}

/// A typed event ready for publication.
#[derive(Debug, Clone)]
pub struct Event {
    pub subject: Subject,
    pub payload: Vec<u8>,
    pub headers: Headers,
}

/// Mathematical form of an `Event`.
pub struct EventView {
    pub subject: SubjectView,
    pub payload: Seq<u8>,
    pub headers: HeadersView,
}

impl View for Event {
    type V = EventView;

    open spec fn view(&self) -> EventView {
        EventView { subject: self.subject@, payload: self.payload@, headers: self.headers@ }
    }
}

impl Event {
    pub fn subject(&self) -> (r: &Subject)
        ensures
            r == self.subject,
    {
        &self.subject
    }

    pub fn payload(&self) -> (r: &[u8])
        ensures
            r@ == self.payload@,
    {
        self.payload.as_slice()
    }

    pub fn headers(&self) -> (r: &Headers)
        ensures
            r == self.headers,
    {
        &self.headers
    }
}

/// Fluent builder for an `Event`. Headers default to internal with
/// deduplication enabled and no receiver.
pub struct Builder {
    pub subject: Subject,
    pub payload: Vec<u8>,
    pub event_id: EventId,
    pub sender_id: AgentId,
    pub is_internal: bool,
    pub receiver_id: Option<AgentId>,
    pub is_deduplication_enabled: bool,
}

impl Builder {
    pub fn new(subject: Subject, payload: Vec<u8>, event_id: EventId, sender_id: AgentId) -> (r:
        Builder)
        ensures
            r.subject == subject,
            r.payload == payload,
            r.event_id == event_id,
            r.sender_id == sender_id,
            r.is_internal == true,
            r.receiver_id is None,
            r.is_deduplication_enabled == true,
    {
        Builder {
            subject,
            payload,
            event_id,
            sender_id,
            is_internal: true,
            receiver_id: None,
            is_deduplication_enabled: true,
        }
    }

    pub fn internal(self, is_internal: bool) -> (r: Builder)
        ensures
            r == (Builder { is_internal, ..self }),
    {
        Builder { is_internal, ..self }
    }

    pub fn receiver_id(self, receiver_id: AgentId) -> (r: Builder)
        ensures
            r == (Builder { receiver_id: Some(receiver_id), ..self }),
    {
        Builder { receiver_id: Some(receiver_id), ..self }
    }

    pub fn disable_deduplication(self) -> (r: Builder)
        ensures
            r == (Builder { is_deduplication_enabled: false, ..self }),
    {
        Builder { is_deduplication_enabled: false, ..self }
    }

    /// Assembles the event; never fails.
    pub fn build(self) -> (r: Event)
        ensures
            r.subject == self.subject,
            r.payload == self.payload,
            r.headers.event_id == self.event_id,
            r.headers.sender_id == self.sender_id,
            r.headers.is_internal == self.is_internal,
            r.headers.receiver_id == self.receiver_id,
            r.headers.deduplication == self.is_deduplication_enabled,
    {
        Event {
            subject: self.subject,
            payload: self.payload,
            headers: Headers {
                event_id: self.event_id,
                sender_id: self.sender_id,
                is_internal: self.is_internal,
                receiver_id: self.receiver_id,
                deduplication: self.is_deduplication_enabled,
            },
        }
    }
}

} // verus!
