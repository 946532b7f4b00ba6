//! Typed view over the wire header map, with encoding and decoding.
//!
//! Wire encoding (name, value, and when the name is present):
//! - `Nats-Msg-Id`: canonical event id text, iff deduplication is enabled;
//! - `Entity-Event-Type`: the event id's entity type, always;
//! - `Entity-Event-Sequence-Id`: the sequence id in decimal, always;
//! - `Sender-Agent-Id`: the sender's string form, always;
//! - `Is-Internal`: `"true"` or `"false"`, always;
//! - `Receiver-Agent-Id`: the receiver's string form, iff one is set.
use vstd::prelude::*;

use crate::agent_id::{agent_id_ok, AgentId};
use crate::event_id::{event_id_text, EventId};
use crate::text::{dec_int_of, i64_to_dec, lemma_dec_round_trip, parse_i64, parse_i64_result, str_eq};
use crate::wire::{
    header_entries, header_get, header_insert, header_map_new, header_name_ok, header_value_ok,
    lemma_wire_names_ok, no_entries,
};

verus! {

/// Why a wire header map failed to decode.
#[derive(Debug, Clone, PartialEq, Eq)]
pub enum HeaderError {
    /// A required header name is missing; carries that name.
    InvalidHeader(String),
    /// The sequence id value is not a decimal integer that fits 64 bits.
    InvalidSequenceId,
    /// An agent id value is unacceptable.
    AgentIdParse,
    /// The `Is-Internal` value is neither `"true"` nor `"false"`.
    InvalidIsInternal,
}

/// Mathematical form of a `HeaderError`.
pub enum HeaderErrorView {
    InvalidHeader(Seq<char>),
    InvalidSequenceId,
    AgentIdParse,
    InvalidIsInternal,
}

impl View for HeaderError {
    type V = HeaderErrorView;

    open spec fn view(&self) -> HeaderErrorView {
        match self {
            HeaderError::InvalidHeader(name) => HeaderErrorView::InvalidHeader(name@),
            HeaderError::InvalidSequenceId => HeaderErrorView::InvalidSequenceId,
            HeaderError::AgentIdParse => HeaderErrorView::AgentIdParse,
            HeaderError::InvalidIsInternal => HeaderErrorView::InvalidIsInternal,
        }
    }
}

/// Typed view over the wire header map.
#[derive(Debug, Clone)]
pub struct Headers {
    pub event_id: EventId,
    pub sender_id: AgentId,
    pub is_internal: bool,
    pub receiver_id: Option<AgentId>,
    pub deduplication: bool,
}

/// Mathematical form of `Headers`.
pub struct HeadersView {
    pub entity_type: Seq<char>,
    pub sequence_id: int,
    pub sender_id: Seq<char>,
    pub is_internal: bool,
    pub receiver_id: Option<Seq<char>>,
    pub deduplication: bool,
}

impl View for Headers {
    type V = HeadersView;

    open spec fn view(&self) -> HeadersView {
        HeadersView {
            entity_type: self.event_id.entity_type@,
            sequence_id: self.event_id.sequence_id as int,
            sender_id: self.sender_id@,
            is_internal: self.is_internal,
            receiver_id: match self.receiver_id {
                Some(r) => Some(r@),
                None => None,
            },
            deduplication: self.deduplication,
        }
    }
}

impl HeadersView {
    /// Well-formed headers: agent ids are acceptable and the sequence id
    /// fits 64 bits.
    pub open spec fn wf(self) -> bool {
        &&& agent_id_ok(self.sender_id)
        &&& match self.receiver_id {
            Some(r) => agent_id_ok(r),
            None => true,
        }
        &&& i64::MIN <= self.sequence_id <= i64::MAX
    }
}

/// The exact wire entries that encoding a `Headers` produces.
pub open spec fn encoded_entries(h: HeadersView) -> Map<Seq<char>, Seq<char>> {
    let base = no_entries().insert("Entity-Event-Type"@, h.entity_type).insert(
        "Entity-Event-Sequence-Id"@,
        dec_int_of(h.sequence_id),
    ).insert("Sender-Agent-Id"@, h.sender_id).insert(
        "Is-Internal"@,
        if h.is_internal {
            "true"@
        } else {
            "false"@
        },
    );
    let with_id = if h.deduplication {
        base.insert("Nats-Msg-Id"@, event_id_text(h.entity_type, h.sequence_id))
    } else {
        base
    };
    match h.receiver_id {
        Some(r) => with_id.insert("Receiver-Agent-Id"@, r),
        None => with_id,
    }
}

/// What decoding a set of wire entries yields. Required names are read in
/// the order entity type, sequence id, sender, receiver, internal flag;
/// deduplication is the presence of the message id name. Unknown names are
/// ignored.
pub open spec fn decode_spec(m: Map<Seq<char>, Seq<char>>) -> Result<HeadersView, HeaderErrorView> {
    if !m.contains_key("Entity-Event-Type"@) {
        Err(HeaderErrorView::InvalidHeader("Entity-Event-Type"@))
    } else if !m.contains_key("Entity-Event-Sequence-Id"@) {
        Err(HeaderErrorView::InvalidHeader("Entity-Event-Sequence-Id"@))
    } else if parse_i64_result(m["Entity-Event-Sequence-Id"@]) is None {
        Err(HeaderErrorView::InvalidSequenceId)
    } else if !m.contains_key("Sender-Agent-Id"@) {
        Err(HeaderErrorView::InvalidHeader("Sender-Agent-Id"@))
    } else if !agent_id_ok(m["Sender-Agent-Id"@]) {
        Err(HeaderErrorView::AgentIdParse)
    } else if m.contains_key("Receiver-Agent-Id"@) && !agent_id_ok(m["Receiver-Agent-Id"@]) {
        Err(HeaderErrorView::AgentIdParse)
    } else if !m.contains_key("Is-Internal"@) {
        Err(HeaderErrorView::InvalidHeader("Is-Internal"@))
    } else if m["Is-Internal"@] != "true"@ && m["Is-Internal"@] != "false"@ {
        Err(HeaderErrorView::InvalidIsInternal)
    } else {
        Ok(
            HeadersView {
                entity_type: m["Entity-Event-Type"@],
                sequence_id: parse_i64_result(m["Entity-Event-Sequence-Id"@])->Some_0,
                sender_id: m["Sender-Agent-Id"@],
                is_internal: m["Is-Internal"@] == "true"@,
                receiver_id: if m.contains_key("Receiver-Agent-Id"@) {
                    Some(m["Receiver-Agent-Id"@])
                } else {
                    None
                },
                deduplication: m.contains_key("Nats-Msg-Id"@),
            },
        )
    }
}

/// Decimal text never holds characters a wire header value refuses.
pub proof fn lemma_dec_value_ok(v: int)
    ensures
        header_value_ok(dec_int_of(v)),
{
    let mag = if v < 0 {
        (-v) as nat
    } else {
        v as nat
    };
    crate::text::lemma_dec_digits_wf(mag);
    let d = crate::text::dec_digits_of(mag);
    let s = dec_int_of(v);
    assert forall|i: int| 0 <= i < s.len() implies (#[trigger] s[i]) != '\r' && s[i] != '\n' by {
        if v < 0 {
            if i > 0 {
                assert(s[i] == d[i - 1]);
                assert(crate::text::is_dec_digit(d[i - 1]));
            }
        } else {
            assert(crate::text::is_dec_digit(s[i]));
        }
    }
}

/// Concatenation keeps wire header values acceptable.
pub proof fn lemma_value_ok_concat(a: Seq<char>, b: Seq<char>)
    requires
        header_value_ok(a),
        header_value_ok(b),
    ensures
        header_value_ok(a + b),
{
    assert forall|i: int| 0 <= i < (a + b).len() implies (#[trigger] (a + b)[i]) != '\r' && (a
        + b)[i] != '\n' by {
        if i < a.len() {
            assert((a + b)[i] == a[i]);
        } else {
            assert((a + b)[i] == b[i - a.len()]);
        }
    }
}

proof fn lemma_fixed_values_ok()
    ensures
        header_value_ok("true"@),
        header_value_ok("false"@),
        header_value_ok(seq!['_']),
        "true"@ != "false"@,
{
    reveal_strlit("true");
    reveal_strlit("false");
    assert("true"@.len() != "false"@.len());
}

impl Headers {
    /// Field values that can travel as wire header values: no carriage
    /// return or line feed anywhere.
    pub open spec fn encodable(&self) -> bool {
        &&& header_value_ok(self.event_id.entity_type@)
        &&& header_value_ok(self.sender_id@)
        &&& match self.receiver_id {
            Some(r) => header_value_ok(r@),
            None => true,
        }
    }

    pub fn sender_id(&self) -> (r: &AgentId)
        ensures
            r@ == self.sender_id@,
    {
        &self.sender_id
    }

    pub fn event_id(&self) -> (r: &EventId)
        ensures
            r == self.event_id,
    {
        &self.event_id
    }

    pub fn is_internal(&self) -> (r: bool)
        ensures
            r == self.is_internal,
    {
        self.is_internal
    }

    pub fn receiver_id(&self) -> (r: Option<&AgentId>)
        ensures
            match r {
                Some(a) => self.receiver_id is Some && a@ == self.receiver_id->Some_0@,
                None => self.receiver_id is None,
            },
    {
        self.receiver_id.as_ref()
    }

    pub fn deduplication_enabled(&self) -> (r: bool)
        ensures
            r == self.deduplication,
    {
        self.deduplication
    }

    /// Encodes the typed headers into a wire header map holding exactly
    /// the entries of `encoded_entries`.
    pub fn encode(&self) -> (m: async_nats::HeaderMap)
        requires
            self.encodable(),
        ensures
            header_entries(m) == encoded_entries(self@),
    {
        proof {
            lemma_wire_names_ok();
            lemma_fixed_values_ok();
            lemma_dec_value_ok(self.event_id.sequence_id as int);
            lemma_value_ok_concat(self.event_id.entity_type@, seq!['_']);
            lemma_value_ok_concat(
                self.event_id.entity_type@ + seq!['_'],
                dec_int_of(self.event_id.sequence_id as int),
            );
            assert(event_id_text(self.event_id.entity_type@, self.event_id.sequence_id as int)
                == (self.event_id.entity_type@ + seq!['_']) + dec_int_of(
                self.event_id.sequence_id as int,
            ));
        }
        let mut m = header_map_new();
        header_insert(&mut m, "Entity-Event-Type", self.event_id.entity_type.as_str());
        let seq_text = i64_to_dec(self.event_id.sequence_id);
        header_insert(&mut m, "Entity-Event-Sequence-Id", seq_text.as_str());
        header_insert(&mut m, "Sender-Agent-Id", self.sender_id.as_str());
        header_insert(
            &mut m,
            "Is-Internal",
            if self.is_internal {
                "true"
            } else {
                "false"
            },
        );
        if self.deduplication {
            let id_text = self.event_id.to_string();
            header_insert(&mut m, "Nats-Msg-Id", id_text.as_str());
        }
        match &self.receiver_id {
            Some(r) => header_insert(&mut m, "Receiver-Agent-Id", r.as_str()),
            None => {},
        }
        m
    }

    /// Decodes a wire header map, reading exactly the entries of
    /// `decode_spec` and ignoring unknown names.
    pub fn decode(m: &async_nats::HeaderMap) -> (r: Result<Headers, HeaderError>)
        ensures
            match r {
                Ok(h) => decode_spec(header_entries(*m)) == Ok::<_, HeaderErrorView>(h@),
                Err(e) => decode_spec(header_entries(*m)) == Err::<HeadersView, _>(e@),
            },
    {
        proof {
            lemma_wire_names_ok();
            lemma_fixed_values_ok();
        }
        let entity_type = match header_get(m, "Entity-Event-Type") {
            Some(v) => v,
            None => {
                return Err(HeaderError::InvalidHeader("Entity-Event-Type".to_owned()));
            },
        };
        let seq_text = match header_get(m, "Entity-Event-Sequence-Id") {
            Some(v) => v,
            None => {
                return Err(HeaderError::InvalidHeader("Entity-Event-Sequence-Id".to_owned()));
            },
        };
        let sequence_id = match parse_i64(seq_text.as_str()) {
            Some(v) => v,
            None => {
                return Err(HeaderError::InvalidSequenceId);
            },
        };
        let sender_text = match header_get(m, "Sender-Agent-Id") {
            Some(v) => v,
            None => {
                return Err(HeaderError::InvalidHeader("Sender-Agent-Id".to_owned()));
            },
        };
        let sender_id = match AgentId::parse(sender_text.as_str()) {
            Some(a) => a,
            None => {
                return Err(HeaderError::AgentIdParse);
            },
        };
        let receiver_id = match header_get(m, "Receiver-Agent-Id") {
            Some(v) => match AgentId::parse(v.as_str()) {
                Some(a) => Some(a),
                None => {
                    return Err(HeaderError::AgentIdParse);
                },
            },
            None => None,
        };
        let internal_text = match header_get(m, "Is-Internal") {
            Some(v) => v,
            None => {
                return Err(HeaderError::InvalidHeader("Is-Internal".to_owned()));
            },
        };
        let is_internal = if str_eq(internal_text.as_str(), "true") {
            true
        } else if str_eq(internal_text.as_str(), "false") {
            false
        } else {
            return Err(HeaderError::InvalidIsInternal);
        };
        let deduplication = match header_get(m, "Nats-Msg-Id") {
            Some(_) => true,
            None => false,
        };
        Ok(
            Headers {
                event_id: EventId { entity_type, sequence_id },
                sender_id,
                is_internal,
                receiver_id,
                deduplication,
            },
        )
    }
}

/// Round trip: decoding what `encode` produced gives the same typed
/// headers back, for any well-formed headers.
pub proof fn lemma_headers_round_trip(h: HeadersView)
    requires
        h.wf(),
    ensures
        decode_spec(encoded_entries(h)) == Ok::<_, HeaderErrorView>(h),
{
    lemma_wire_names_ok();
    lemma_fixed_values_ok();
    lemma_dec_round_trip(h.sequence_id);
    let m = encoded_entries(h);
    assert(m["Entity-Event-Type"@] == h.entity_type);
    assert(m["Entity-Event-Sequence-Id"@] == dec_int_of(h.sequence_id));
    assert(m["Sender-Agent-Id"@] == h.sender_id);
    assert(m["Is-Internal"@] == if h.is_internal {
        "true"@
    } else {
        "false"@
    });
    assert(m.contains_key("Nats-Msg-Id"@) == h.deduplication);
    assert(m.contains_key("Receiver-Agent-Id"@) == (h.receiver_id is Some));
}

/// The encoded map carries the message id name exactly when deduplication
/// is enabled.
pub proof fn lemma_encode_dedup_key(h: HeadersView)
    ensures
        encoded_entries(h).contains_key("Nats-Msg-Id"@) <==> h.deduplication,
{
    lemma_wire_names_ok();
}

/// The encoded map carries the receiver name exactly when a receiver is
/// set.
pub proof fn lemma_encode_receiver_key(h: HeadersView)
    ensures
        encoded_entries(h).contains_key("Receiver-Agent-Id"@) <==> h.receiver_id is Some,
{
    lemma_wire_names_ok();
}

/// The encoded internal flag is literally `"true"` or `"false"`.
pub proof fn lemma_encode_is_internal_literal(h: HeadersView)
    ensures
        encoded_entries(h).contains_key("Is-Internal"@),
        encoded_entries(h)["Is-Internal"@] == "true"@ || encoded_entries(h)["Is-Internal"@]
            == "false"@,
{
    lemma_wire_names_ok();
}

} // verus!
