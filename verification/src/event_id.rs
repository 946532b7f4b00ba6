//! Typed event identifier: a pair of entity type and sequence id, with a
//! canonical string codec (`entity_type`, an underscore, then the sequence
//! id in decimal).
use vstd::prelude::*;

use crate::text::{
    dec_int_of, find_char, find_char_spec, lemma_dec_round_trip, lemma_find_char, parse_i64,
    parse_i64_result, push_dec_i64,
};

verus! {

/// Typed identifier of an event: `(entity_type, sequence_id)`.
#[derive(Debug, Clone)]
pub struct EventId {
    pub entity_type: String,
    pub sequence_id: i64,
}

/// Why a string failed to parse as an `EventId`.
#[derive(Debug, Clone, PartialEq, Eq, Structural)]
pub enum EventIdError {
    /// The entity type part is empty.
    InvalidEntityType,
    /// There is no underscore separator, so no sequence id part at all.
    InvalidSequenceId,
    /// The sequence id part is not a decimal integer that fits 64 bits.
    SequenceIdParse,
}

/// Canonical string form of an event id.
pub open spec fn event_id_text(entity_type: Seq<char>, sequence_id: int) -> Seq<char> {
    entity_type + seq!['_'] + dec_int_of(sequence_id)
}

/// What parsing an event id string yields: the text before the first
/// underscore and the decimal value after it.
pub open spec fn event_id_parse_spec(s: Seq<char>) -> Result<(Seq<char>, int), EventIdError> {
    match find_char_spec(s, '_') {
        None => Err(EventIdError::InvalidSequenceId),
        Some(i) => if i == 0 {
            Err(EventIdError::InvalidEntityType)
        } else {
            match parse_i64_result(s.skip(i + 1)) {
                Some(v) => Ok((s.take(i), v)),
                None => Err(EventIdError::SequenceIdParse),
            }
        },
    }
}

impl EventId {
    pub fn new(entity_type: String, sequence_id: i64) -> (r: EventId)
        ensures
            r.entity_type == entity_type,
            r.sequence_id == sequence_id,
    {
        EventId { entity_type, sequence_id }
    }

    pub fn entity_type(&self) -> (r: &str)
        ensures
            r@ == self.entity_type@,
    {
        self.entity_type.as_str()
    }

    pub fn sequence_id(&self) -> (r: i64)
        ensures
            r == self.sequence_id,
    {
        self.sequence_id
    }

    /// Renders the canonical string form.
    pub fn to_string(&self) -> (r: String)
        ensures
            r@ == event_id_text(self.entity_type@, self.sequence_id as int),
    {
        let mut s = self.entity_type.clone();
        s.push('_');
        push_dec_i64(&mut s, self.sequence_id);
        proof {
            assert(s@ =~= event_id_text(self.entity_type@, self.sequence_id as int));
        }
        s
    }

    /// Parses the canonical string form: the entity type is everything
    /// before the first underscore, the sequence id everything after it.
    pub fn parse(s: &str) -> (r: Result<EventId, EventIdError>)
        ensures
            match r {
                Ok(e) => event_id_parse_spec(s@) == Ok::<_, EventIdError>(
                    (e.entity_type@, e.sequence_id as int),
                ),
                Err(e) => event_id_parse_spec(s@) == Err::<(Seq<char>, int), _>(e),
            },
    {
        let sep = match find_char(s, '_') {
            Some(i) => i,
            None => {
                return Err(EventIdError::InvalidSequenceId);
            },
        };
        if sep == 0 {
            return Err(EventIdError::InvalidEntityType);
        }
        let len = s.unicode_len();
        proof {
            lemma_find_char(s@, '_');
        }
        let entity = s.substring_char(0, sep);
        let rest = s.substring_char(sep + 1, len);
        match parse_i64(rest) {
            Some(v) => {
                proof {
                    assert(entity@ =~= s@.take(sep as int));
                    assert(rest@ =~= s@.skip(sep + 1));
                }
                Ok(EventId { entity_type: entity.to_owned(), sequence_id: v })
            },
            None => {
                proof {
                    assert(rest@ =~= s@.skip(sep + 1));
                }
                Err(EventIdError::SequenceIdParse)
            },
        }
    }
}

/// Round trip: parsing the canonical string form of an event id gives the
/// event id back, for any non-empty entity type free of underscores and any
/// 64-bit sequence id.
pub proof fn lemma_event_id_round_trip(entity_type: Seq<char>, sequence_id: int)
    requires
        entity_type.len() > 0,
        forall|i: int| 0 <= i < entity_type.len() ==> entity_type[i] != '_',
        i64::MIN <= sequence_id <= i64::MAX,
    ensures
        event_id_parse_spec(event_id_text(entity_type, sequence_id)) == Ok::<_, EventIdError>(
            (entity_type, sequence_id),
        ),
{
    let s = event_id_text(entity_type, sequence_id);
    let n = entity_type.len() as int;
    lemma_find_char(s, '_');
    assert(s[n] == '_');
    assert(forall|k: int| 0 <= k < n ==> s[k] == entity_type[k]);
    match find_char_spec(s, '_') {
        None => {
            assert(false);
        },
        Some(i) => {
            if i < n {
                assert(s[i] == entity_type[i]);
                assert(false);
            }
            if i > n {
                assert(s[n] != '_');
                assert(false);
            }
            assert(i == n);
            assert(s.take(n) =~= entity_type);
            assert(s.skip(n + 1) =~= dec_int_of(sequence_id));
            lemma_dec_round_trip(sequence_id);
        },
    }
}

} // verus!
