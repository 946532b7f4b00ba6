//! Structured routing key: `prefix.classroom_id.entity_type`, where the
//! classroom id is in canonical UUID text form. The reserved prefix
//! `terminated` marks quarantined subjects.
use vstd::prelude::*;

use crate::classroom_id::{uuid_parse_spec, uuid_text_of, ClassroomId};
use crate::text::{find_char, find_char_spec, lemma_find_char};

verus! {

/// Structured routing key `(prefix, classroom_id, entity_type)`.
#[derive(Debug, Clone)]
pub struct Subject {
    pub prefix: String,
    pub classroom_id: ClassroomId,
    pub entity_type: String,
}

/// Why a string failed to parse as a `Subject`.
#[derive(Debug, Clone, PartialEq, Eq, Structural)]
pub enum SubjectError {
    /// No prefix component. Kept for completeness: splitting always yields
    /// at least one component, so parsing never reports it.
    PrefixNotFound,
    /// No second dot-separated component to read a classroom id from.
    ClassroomIdNotFound,
    /// No third dot-separated component to read an entity type from.
    EntityTypeNotFound,
    /// The classroom id component is not a canonical UUID text.
    ClassroomIdParse,
}

/// Canonical string form of a subject.
pub open spec fn subject_text(prefix: Seq<char>, classroom_id: int, entity_type: Seq<char>) -> Seq<
    char,
> {
    prefix + seq!['.'] + uuid_text_of(classroom_id) + seq!['.'] + entity_type
}

/// What parsing a subject string yields: the first three dot-separated
/// components, as prefix, classroom id and entity type; any further
/// components are ignored.
pub open spec fn subject_parse_spec(s: Seq<char>) -> Result<
    (Seq<char>, int, Seq<char>),
    SubjectError,
> {
    match find_char_spec(s, '.') {
        None => Err(SubjectError::ClassroomIdNotFound),
        Some(i) => {
            let rest = s.skip(i + 1);
            match find_char_spec(rest, '.') {
                None => Err(SubjectError::EntityTypeNotFound),
                Some(j) => {
                    let cls = rest.take(j);
                    let tail = rest.skip(j + 1);
                    let entity = match find_char_spec(tail, '.') {
                        None => tail,
                        Some(k) => tail.take(k),
                    };
                    match uuid_parse_spec(cls) {
                        None => Err(SubjectError::ClassroomIdParse),
                        Some(v) => Ok((s.take(i), v, entity)),
                    }
                },
            }
        },
    }
}

impl Subject {
    pub fn new(prefix: String, classroom_id: ClassroomId, entity_type: String) -> (r: Subject)
        ensures
            r.prefix == prefix,
            r.classroom_id == classroom_id,
            r.entity_type == entity_type,
    {
        Subject { prefix, classroom_id, entity_type }
    }

    pub fn prefix(&self) -> (r: &str)
        ensures
            r@ == self.prefix@,
    {
        self.prefix.as_str()
    }

    pub fn classroom_id(&self) -> (r: ClassroomId)
        ensures
            r == self.classroom_id,
    {
        self.classroom_id
    }

    pub fn entity_type(&self) -> (r: &str)
        ensures
            r@ == self.entity_type@,
    {
        self.entity_type.as_str()
    }

    /// Renders the canonical string form `prefix.classroom_id.entity_type`.
    pub fn to_string(&self) -> (r: String)
        ensures
            r@ == subject_text(self.prefix@, self.classroom_id.value as int, self.entity_type@),
    {
        let mut s = self.prefix.clone();
        s.push('.');
        let cls = self.classroom_id.to_string();
        s.append(cls.as_str());
        s.push('.');
        s.append(self.entity_type.as_str());
        proof {
            assert(s@ =~= subject_text(
                self.prefix@,
                self.classroom_id.value as int,
                self.entity_type@,
            ));
        }
        s
    }

    /// Parses the canonical string form, reading exactly the first three
    /// dot-separated components.
    pub fn parse(s: &str) -> (r: Result<Subject, SubjectError>)
        ensures
            match r {
                Ok(sub) => subject_parse_spec(s@) == Ok::<_, SubjectError>(
                    (sub.prefix@, sub.classroom_id.value as int, sub.entity_type@),
                ),
                Err(e) => subject_parse_spec(s@) == Err::<(Seq<char>, int, Seq<char>), _>(e),
            },
    {
        let len = s.unicode_len();
        let i = match find_char(s, '.') {
            Some(i) => i,
            None => {
                return Err(SubjectError::ClassroomIdNotFound);
            },
        };
        proof {
            lemma_find_char(s@, '.');
        }
        let rest = s.substring_char(i + 1, len);
        proof {
            assert(rest@ =~= s@.skip(i + 1));
        }
        let rest_len = rest.unicode_len();
        let j = match find_char(rest, '.') {
            Some(j) => j,
            None => {
                return Err(SubjectError::EntityTypeNotFound);
            },
        };
        proof {
            lemma_find_char(rest@, '.');
        }
        let cls_text = rest.substring_char(0, j);
        let tail = rest.substring_char(j + 1, rest_len);
        proof {
            assert(cls_text@ =~= rest@.take(j as int));
            assert(tail@ =~= rest@.skip(j + 1));
        }
        proof {
            lemma_find_char(tail@, '.');
        }
        let entity = match find_char(tail, '.') {
            Some(k) => tail.substring_char(0, k),
            None => tail,
        };
        let classroom_id = match ClassroomId::parse(cls_text) {
            Some(c) => c,
            None => {
                return Err(SubjectError::ClassroomIdParse);
            },
        };
        let prefix = s.substring_char(0, i);
        proof {
            assert(prefix@ =~= s@.take(i as int));
            if find_char_spec(tail@, '.') is Some {
                let k = find_char_spec(tail@, '.')->Some_0;
                assert(entity@ =~= tail@.take(k));
            }
        }
        Ok(Subject { prefix: prefix.to_owned(), classroom_id, entity_type: entity.to_owned() })
    }
}

/// The reserved quarantine prefix: exactly `terminated`, or a dotted
/// prefix headed by `terminated.`.
pub open spec fn quarantined_prefix(prefix: Seq<char>) -> bool {
    ||| prefix == "terminated"@
    ||| (prefix.len() >= "terminated."@.len() && prefix.take("terminated."@.len() as int)
        == "terminated."@)
}

impl Subject {
    /// Whether this subject is already quarantined: its prefix is the
    /// reserved `terminated`, alone or as the head of a dotted prefix.
    pub fn is_quarantined(&self) -> (r: bool)
        ensures
            r == quarantined_prefix(self.prefix@),
    {
        proof {
            reveal_strlit("terminated");
            reveal_strlit("terminated.");
        }
        if crate::text::str_eq(self.prefix.as_str(), "terminated") {
            return true;
        }
        let len = self.prefix.unicode_len();
        if len >= 11 {
            let head = self.prefix.as_str().substring_char(0, 11);
            proof {
                assert(head@ =~= self.prefix@.take(11));
            }
            crate::text::str_eq(head, "terminated.")
        } else {
            false
        }
    }
}

/// Round trip: parsing the canonical string form of a subject gives its
/// three components back, provided neither the prefix nor the entity type
/// contains a dot of its own.
pub proof fn lemma_subject_round_trip(prefix: Seq<char>, classroom_id: int, entity_type: Seq<char>)
    requires
        forall|i: int| 0 <= i < prefix.len() ==> prefix[i] != '.',
        forall|i: int| 0 <= i < entity_type.len() ==> entity_type[i] != '.',
        0 <= classroom_id <= u128::MAX,
    ensures
        subject_parse_spec(subject_text(prefix, classroom_id, entity_type)) == Ok::<
            _,
            SubjectError,
        >((prefix, classroom_id, entity_type)),
{
    let s = subject_text(prefix, classroom_id, entity_type);
    let u = uuid_text_of(classroom_id);
    crate::classroom_id::lemma_uuid_round_trip(classroom_id);
    assert(u.len() == 36);
    let n = prefix.len() as int;
    lemma_find_char(s, '.');
    assert(s[n] == '.');
    assert(forall|k: int| 0 <= k < n ==> s[k] == prefix[k]);
    let fc = find_char_spec(s, '.');
    assert(fc is Some);
    let i = fc->Some_0;
    assert(i <= n);
    if i < n {
        assert(s[i] == prefix[i]);
        assert(false);
    }
    let rest = s.skip(i + 1);
    assert(rest =~= u + seq!['.'] + entity_type);
    lemma_find_char(rest, '.');
    assert(rest[36] == '.');
    assert(forall|k: int| 0 <= k < 36 ==> rest[k] == u[k]);
    assert(forall|k: int| 0 <= k < 36 ==> rest[k] != '.') by {
        assert(valid_uuid_of_text_has_no_dot(u)) by {
            lemma_uuid_text_no_dot(classroom_id);
        }
    }
    let fj = find_char_spec(rest, '.');
    assert(fj is Some);
    let j = fj->Some_0;
    assert(j == 36);
    assert(rest.take(36) =~= u);
    let tail = rest.skip(37);
    assert(tail =~= entity_type);
    lemma_find_char(tail, '.');
    match find_char_spec(tail, '.') {
        Some(k) => {
            assert(tail[k] == entity_type[k]);
            assert(false);
        },
        None => {},
    }
    assert(s.take(i) =~= prefix);
}

/// Every character of a canonical classroom id text is a hexadecimal digit
/// or a dash; in particular none is a dot.
pub open spec fn valid_uuid_of_text_has_no_dot(u: Seq<char>) -> bool {
    forall|k: int| 0 <= k < u.len() ==> u[k] != '.'
}

proof fn lemma_uuid_text_no_dot(v: int)
    requires
        0 <= v <= u128::MAX,
    ensures
        valid_uuid_of_text_has_no_dot(uuid_text_of(v)),
{
    let u = uuid_text_of(v);
    crate::classroom_id::lemma_uuid_round_trip(v);
    assert(crate::classroom_id::valid_uuid_text(u));
    assert forall|k: int| 0 <= k < u.len() implies u[k] != '.' by {
        if k == 8 || k == 13 || k == 18 || k == 23 {
            assert(u[k] == '-');
        } else {
            assert(crate::classroom_id::is_hex_digit(u[k]));
        }
    }
}

} // verus!
