//! Client-side error kinds, the wire message model, and the computational
//! core of the poison-message terminate protocol: building the quarantined
//! event that is republished under the `terminated.` prefix.
use vstd::prelude::*;

use crate::event::{Event, EventView, SubjectView};
use crate::headers::{decode_spec, HeaderError, HeaderErrorView, Headers, HeadersView};
use crate::subject::{subject_parse_spec, Subject, SubjectError};
use crate::wire::header_entries;

verus! {

/// Why a publication failed: the bus rejected the enqueue, or it failed to
/// confirm durable storage. Carries the transport's own description.
#[derive(Debug, Clone)]
pub enum PublishError {
    PublishFailed(String),
    AckFailed(String),
}

/// Why opening a subscription failed.
#[derive(Debug, Clone)]
pub enum SubscribeError {
    /// The needed subscription section is absent from the configuration.
    SubscribeConfigNotFound,
    GettingStreamFailed(String),
    GettingConsumerFailed(String),
    StreamCreationFailed(String),
    EphemeralConsumerCreationFailed(String),
}

/// Why terminating a message failed.
#[derive(Debug, Clone)]
pub enum TermMessageError {
    InvalidHeader(HeaderError),
    InvalidSubject(SubjectError),
    /// The subject already carries the reserved `terminated` prefix: a
    /// quarantined message must not be terminated again.
    AlreadyTerminated,
    PublishError(PublishError),
    AckTermFailed(String),
}

/// Mathematical form of a `TermMessageError`.
pub enum TermMessageErrorView {
    InvalidHeader(HeaderErrorView),
    InvalidSubject(SubjectError),
    AlreadyTerminated,
    PublishError(PublishError),
    AckTermFailed(Seq<char>),
}

impl View for TermMessageError {
    type V = TermMessageErrorView;

    open spec fn view(&self) -> TermMessageErrorView {
        match self {
            TermMessageError::InvalidHeader(e) => TermMessageErrorView::InvalidHeader(e@),
            TermMessageError::InvalidSubject(e) => TermMessageErrorView::InvalidSubject(*e),
            TermMessageError::AlreadyTerminated => TermMessageErrorView::AlreadyTerminated,
            TermMessageError::PublishError(e) => TermMessageErrorView::PublishError(*e),
            TermMessageError::AckTermFailed(s) => TermMessageErrorView::AckTermFailed(s@),
        }
    }
}

/// An inbound wire message: routing subject, payload bytes, and the wire
/// header map.
pub struct Message {
    pub subject: String,
    pub payload: Vec<u8>,
    pub headers: async_nats::HeaderMap,
}

/// Mathematical form of a `Message`.
pub struct MessageView {
    pub subject: Seq<char>,
    pub payload: Seq<u8>,
    pub entries: Map<Seq<char>, Seq<char>>,
}

impl View for Message {
    type V = MessageView;

    open spec fn view(&self) -> MessageView {
        MessageView {
            subject: self.subject@,
            payload: self.payload@,
            entries: header_entries(self.headers),
        }
    }
}

/// The quarantined event the terminate protocol republishes: the subject
/// prefix gains a `terminated.` prefix, the classroom id, entity type,
/// payload, event id and sender are preserved, and the headers are rebuilt
/// with the defaults (internal, deduplicated, no receiver). A subject
/// whose prefix is already the reserved `terminated` is rejected: no
/// doubly quarantined subject is ever produced.
pub open spec fn term_event_spec(msg: MessageView) -> Result<EventView, TermMessageErrorView> {
    match decode_spec(msg.entries) {
        Err(e) => Err(TermMessageErrorView::InvalidHeader(e)),
        Ok(h) => match subject_parse_spec(msg.subject) {
            Err(e) => Err(TermMessageErrorView::InvalidSubject(e)),
            Ok(parts) => if crate::subject::quarantined_prefix(parts.0) {
                Err(TermMessageErrorView::AlreadyTerminated)
            } else {
                Ok(
                EventView {
                    subject: SubjectView {
                        prefix: "terminated."@ + parts.0,
                        classroom_id: parts.1,
                        entity_type: parts.2,
                    },
                    payload: msg.payload,
                    headers: HeadersView {
                        entity_type: h.entity_type,
                        sequence_id: h.sequence_id,
                        sender_id: h.sender_id,
                        is_internal: true,
                        receiver_id: None,
                        deduplication: true,
                    },
                },
                )
            },
        },
    }
}

/// The terminate protocol never quarantines twice: whenever it produces an
/// event, that event's prefix is `terminated.` followed by the original
/// prefix, and the original prefix was not itself quarantined — so no
/// `terminated.terminated.` subject is ever produced.
pub proof fn lemma_no_double_quarantine(msg: MessageView)
    ensures
        term_event_spec(msg) matches Ok(e) ==> e.subject.prefix.take("terminated."@.len() as int)
            == "terminated."@,
        term_event_spec(msg) matches Ok(e) ==> !crate::subject::quarantined_prefix(
            e.subject.prefix.skip("terminated."@.len() as int),
        ),
{
    reveal_strlit("terminated.");
    if term_event_spec(msg) is Ok {
        let parts = subject_parse_spec(msg.subject)->Ok_0;
        assert(("terminated."@ + parts.0).take("terminated."@.len() as int) =~= "terminated."@);
        assert(("terminated."@ + parts.0).skip("terminated."@.len() as int) =~= parts.0);
    }
}

/// Builds the event that the terminate protocol publishes for a poison
/// message: decodes the headers, parses the subject, rejects a subject
/// that is already quarantined, and reassembles the rest under the
/// quarantine prefix.
pub fn term_event(msg: &Message) -> (r: Result<Event, TermMessageError>)
    ensures
        match r {
            Ok(e) => term_event_spec(msg@) == Ok::<_, TermMessageErrorView>(e@),
            Err(e) => term_event_spec(msg@) == Err::<EventView, _>(e@),
        },
{
    let headers = match Headers::decode(&msg.headers) {
        Ok(h) => h,
        Err(e) => {
            return Err(TermMessageError::InvalidHeader(e));
        },
    };
    let old_subject = match Subject::parse(msg.subject.as_str()) {
        Ok(s) => s,
        Err(e) => {
            return Err(TermMessageError::InvalidSubject(e));
        },
    };
    if old_subject.is_quarantined() {
        return Err(TermMessageError::AlreadyTerminated);
    }
    let mut prefix = "terminated.".to_owned();
    prefix.append(old_subject.prefix.as_str());
    let new_subject = Subject::new(prefix, old_subject.classroom_id, old_subject.entity_type);
    let event = crate::event::Builder::new(
        new_subject,
        clone_payload(&msg.payload),
        headers.event_id,
        headers.sender_id,
    ).build();
    Ok(event)
}

/// Copies a payload byte for byte.
fn clone_payload(payload: &Vec<u8>) -> (r: Vec<u8>)
    ensures
        r@ == payload@,
{
    let mut out: Vec<u8> = Vec::new();
    let n = payload.len();
    let mut i: usize = 0;
    while i < n
        invariant
            0 <= i <= n,
            n == payload@.len(),
            out@ == payload@.take(i as int),
        decreases n - i,
    {
        out.push(payload[i]);
        proof {
            assert(out@ =~= payload@.take(i + 1));
        }
        i = i + 1;
    }
    proof {
        assert(out@ =~= payload@);
    }
    out
}

} // verus!
