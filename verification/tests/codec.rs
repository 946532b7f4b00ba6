use svc_nats_client::classroom_id::ClassroomId;
use svc_nats_client::event_id::{EventId, EventIdError};
use svc_nats_client::subject::{Subject, SubjectError};

#[test]
fn event_id_to_string_canonical() {
    let e = EventId::new("ban".to_string(), 7);
    assert_eq!(e.to_string(), "ban_7");
    assert_eq!(e.entity_type(), "ban");
    assert_eq!(e.sequence_id(), 7);
}

#[test]
fn event_id_round_trip() {
    let e = EventId::new("ban".to_string(), 7);
    let back = EventId::parse(&e.to_string()).unwrap();
    assert_eq!(back.entity_type, "ban");
    assert_eq!(back.sequence_id, 7);
}

#[test]
fn event_id_round_trip_negative() {
    let e = EventId::new("account".to_string(), -42);
    assert_eq!(e.to_string(), "account_-42");
    let back = EventId::parse("account_-42").unwrap();
    assert_eq!(back.entity_type, "account");
    assert_eq!(back.sequence_id, -42);
}

#[test]
fn event_id_round_trip_extremes() {
    for v in [i64::MIN, i64::MAX, 0] {
        let e = EventId::new("x".to_string(), v);
        let back = EventId::parse(&e.to_string()).unwrap();
        assert_eq!(back.sequence_id, v);
    }
}

#[test]
fn event_id_parse_errors() {
    assert_eq!(EventId::parse("noseparator").unwrap_err(), EventIdError::InvalidSequenceId);
    assert_eq!(EventId::parse("").unwrap_err(), EventIdError::InvalidSequenceId);
    assert_eq!(EventId::parse("_7").unwrap_err(), EventIdError::InvalidEntityType);
    assert_eq!(EventId::parse("ban_x").unwrap_err(), EventIdError::SequenceIdParse);
    assert_eq!(EventId::parse("ban_").unwrap_err(), EventIdError::SequenceIdParse);
    // One past i64::MAX does not fit.
    assert_eq!(
        EventId::parse("ban_9223372036854775808").unwrap_err(),
        EventIdError::SequenceIdParse
    );
}

#[test]
fn event_id_parse_takes_first_underscore() {
    let back = EventId::parse("a_-0").unwrap();
    assert_eq!(back.entity_type, "a");
    assert_eq!(back.sequence_id, 0);
    // A second underscore lands in the sequence part and fails there.
    assert_eq!(EventId::parse("a_b_7").unwrap_err(), EventIdError::SequenceIdParse);
}

#[test]
fn event_id_parse_accepts_sign_and_leading_zeroes() {
    assert_eq!(EventId::parse("a_+07").unwrap().sequence_id, 7);
    assert_eq!(EventId::parse("a_-009").unwrap().sequence_id, -9);
}

#[test]
fn classroom_id_zero_round_trip() {
    let c = ClassroomId::parse("00000000-0000-0000-0000-000000000000").unwrap();
    assert_eq!(c.value, 0);
    assert_eq!(c.to_string(), "00000000-0000-0000-0000-000000000000");
}

#[test]
fn classroom_id_case_insensitive_parse_lowercase_render() {
    let lower = ClassroomId::parse("deadbeef-0000-4000-8000-00000000abcd").unwrap();
    let upper = ClassroomId::parse("DEADBEEF-0000-4000-8000-00000000ABCD").unwrap();
    assert_eq!(lower.value, upper.value);
    assert_eq!(upper.to_string(), "deadbeef-0000-4000-8000-00000000abcd");
}

#[test]
fn classroom_id_max_round_trip() {
    let c = ClassroomId::new(u128::MAX);
    assert_eq!(c.to_string(), "ffffffff-ffff-ffff-ffff-ffffffffffff");
    assert_eq!(ClassroomId::parse(&c.to_string()).unwrap().value, u128::MAX);
}

#[test]
fn classroom_id_rejects_malformed() {
    assert!(ClassroomId::parse("").is_none());
    assert!(ClassroomId::parse("11111111-1111-1111-1111-11111111111").is_none());
    assert!(ClassroomId::parse("11111111x1111-1111-1111-111111111111").is_none());
    assert!(ClassroomId::parse("1111111g-1111-1111-1111-111111111111").is_none());
}

#[test]
fn subject_round_trip() {
    let cls = ClassroomId::parse("11111111-1111-1111-1111-111111111111").unwrap();
    let s = Subject::new("ev".to_string(), cls, "ban".to_string());
    let text = s.to_string();
    assert_eq!(text, "ev.11111111-1111-1111-1111-111111111111.ban");
    let back = Subject::parse(&text).unwrap();
    assert_eq!(back.prefix, "ev");
    assert_eq!(back.classroom_id.value, cls.value);
    assert_eq!(back.entity_type, "ban");
}

#[test]
fn subject_parse_reads_first_three_components() {
    let back = Subject::parse("ev.11111111-1111-1111-1111-111111111111.ban.extra").unwrap();
    assert_eq!(back.prefix, "ev");
    assert_eq!(back.entity_type, "ban");
}

#[test]
fn subject_parse_errors() {
    assert!(matches!(
        Subject::parse("nodots").unwrap_err(),
        SubjectError::ClassroomIdNotFound
    ));
    assert!(matches!(
        Subject::parse("a.b").unwrap_err(),
        SubjectError::EntityTypeNotFound
    ));
    assert!(matches!(
        Subject::parse("a.b.c").unwrap_err(),
        SubjectError::ClassroomIdParse
    ));
}

#[test]
fn subject_accessors() {
    let cls = ClassroomId::new(7);
    let s = Subject::new("p".to_string(), cls, "t".to_string());
    assert_eq!(s.prefix(), "p");
    assert_eq!(s.classroom_id().value, 7);
    assert_eq!(s.entity_type(), "t");
}
