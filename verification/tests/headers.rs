use svc_nats_client::agent_id::AgentId;
use svc_nats_client::event_id::EventId;
use svc_nats_client::headers::{HeaderError, Headers};

fn sample_headers() -> Headers {
    Headers {
        event_id: EventId::new("ban".to_string(), 7),
        sender_id: AgentId::parse("agent.X").unwrap(),
        is_internal: true,
        receiver_id: None,
        deduplication: true,
    }
}

fn get(m: &async_nats::HeaderMap, k: &str) -> Option<String> {
    m.get(k).map(|v| v.as_str().to_owned())
}

#[test]
fn encode_writes_the_six_keys() {
    let m = sample_headers().encode();
    assert_eq!(get(&m, "Nats-Msg-Id").unwrap(), "ban_7");
    assert_eq!(get(&m, "Entity-Event-Type").unwrap(), "ban");
    assert_eq!(get(&m, "Entity-Event-Sequence-Id").unwrap(), "7");
    assert_eq!(get(&m, "Sender-Agent-Id").unwrap(), "agent.X");
    assert_eq!(get(&m, "Is-Internal").unwrap(), "true");
    assert!(get(&m, "Receiver-Agent-Id").is_none());
}

#[test]
fn encode_message_id_present_iff_deduplication() {
    let mut h = sample_headers();
    assert!(get(&h.encode(), "Nats-Msg-Id").is_some());
    h.deduplication = false;
    let m = h.encode();
    assert!(get(&m, "Nats-Msg-Id").is_none());
    // All other keys are unchanged.
    assert_eq!(get(&m, "Entity-Event-Type").unwrap(), "ban");
    assert_eq!(get(&m, "Entity-Event-Sequence-Id").unwrap(), "7");
    assert_eq!(get(&m, "Sender-Agent-Id").unwrap(), "agent.X");
    assert_eq!(get(&m, "Is-Internal").unwrap(), "true");
}

#[test]
fn encode_receiver_present_iff_set() {
    let mut h = sample_headers();
    assert!(get(&h.encode(), "Receiver-Agent-Id").is_none());
    h.receiver_id = Some(AgentId::parse("agent.Y").unwrap());
    assert_eq!(get(&h.encode(), "Receiver-Agent-Id").unwrap(), "agent.Y");
}

#[test]
fn encode_is_internal_is_literal_true_or_false() {
    let mut h = sample_headers();
    assert_eq!(get(&h.encode(), "Is-Internal").unwrap(), "true");
    h.is_internal = false;
    assert_eq!(get(&h.encode(), "Is-Internal").unwrap(), "false");
}

#[test]
fn decode_encode_round_trip() {
    let mut h = sample_headers();
    h.is_internal = false;
    h.receiver_id = Some(AgentId::parse("agent.Y").unwrap());
    h.deduplication = false;
    let back = Headers::decode(&h.encode()).unwrap();
    assert_eq!(back.event_id.entity_type, "ban");
    assert_eq!(back.event_id.sequence_id, 7);
    assert_eq!(back.sender_id.text, "agent.X");
    assert!(!back.is_internal);
    assert_eq!(back.receiver_id.unwrap().text, "agent.Y");
    assert!(!back.deduplication);
}

#[test]
fn decode_derives_deduplication_from_message_id_presence() {
    let h = sample_headers();
    assert!(Headers::decode(&h.encode()).unwrap().deduplication);
    let mut h2 = sample_headers();
    h2.deduplication = false;
    assert!(!Headers::decode(&h2.encode()).unwrap().deduplication);
}

#[test]
fn decode_ignores_unknown_keys() {
    let mut m = sample_headers().encode();
    m.insert("X-Custom", "whatever");
    let back = Headers::decode(&m).unwrap();
    assert_eq!(back.event_id.entity_type, "ban");
    assert_eq!(back.sender_id.text, "agent.X");
}

#[test]
fn decode_missing_required_keys() {
    let empty = async_nats::HeaderMap::new();
    assert_eq!(
        Headers::decode(&empty).unwrap_err(),
        HeaderError::InvalidHeader("Entity-Event-Type".to_string())
    );

    let mut m = async_nats::HeaderMap::new();
    m.insert("Entity-Event-Type", "ban");
    assert_eq!(
        Headers::decode(&m).unwrap_err(),
        HeaderError::InvalidHeader("Entity-Event-Sequence-Id".to_string())
    );

    m.insert("Entity-Event-Sequence-Id", "7");
    assert_eq!(
        Headers::decode(&m).unwrap_err(),
        HeaderError::InvalidHeader("Sender-Agent-Id".to_string())
    );

    m.insert("Sender-Agent-Id", "agent.X");
    assert_eq!(
        Headers::decode(&m).unwrap_err(),
        HeaderError::InvalidHeader("Is-Internal".to_string())
    );

    m.insert("Is-Internal", "true");
    let back = Headers::decode(&m).unwrap();
    assert!(back.is_internal);
    assert!(!back.deduplication);
}

#[test]
fn decode_typed_parse_errors() {
    let mut m = async_nats::HeaderMap::new();
    m.insert("Entity-Event-Type", "ban");
    m.insert("Entity-Event-Sequence-Id", "seven");
    assert_eq!(Headers::decode(&m).unwrap_err(), HeaderError::InvalidSequenceId);

    m.insert("Entity-Event-Sequence-Id", "7");
    m.insert("Sender-Agent-Id", "");
    assert_eq!(Headers::decode(&m).unwrap_err(), HeaderError::AgentIdParse);

    m.insert("Sender-Agent-Id", "agent.X");
    m.insert("Is-Internal", "TRUE");
    assert_eq!(Headers::decode(&m).unwrap_err(), HeaderError::InvalidIsInternal);

    m.insert("Is-Internal", "false");
    m.insert("Receiver-Agent-Id", "");
    assert_eq!(Headers::decode(&m).unwrap_err(), HeaderError::AgentIdParse);
}
