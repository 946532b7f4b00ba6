use svc_nats_client::agent_id::AgentId;
use svc_nats_client::classroom_id::ClassroomId;
use svc_nats_client::client::{Message, TermMessageError};
use svc_nats_client::error::AckKind;
use svc_nats_client::event::Builder;
use svc_nats_client::event_id::EventId;
use svc_nats_client::headers::{HeaderError, Headers};
use svc_nats_client::subject::Subject;
use svc_nats_client::test_helpers::{run_terminate, TestNatsClient};

fn sample_subject() -> Subject {
    Subject::new(
        "ev".to_string(),
        ClassroomId::parse("11111111-1111-1111-1111-111111111111").unwrap(),
        "ban".to_string(),
    )
}

fn get(m: &async_nats::HeaderMap, k: &str) -> Option<String> {
    m.get(k).map(|v| v.as_str().to_owned())
}

#[test]
fn publish_round_trip() {
    let event = Builder::new(
        sample_subject(),
        b"hi".to_vec(),
        EventId::new("ban".to_string(), 7),
        AgentId::parse("agent.X").unwrap(),
    )
    .build();

    let mut client = TestNatsClient::new();
    client.publish(event).unwrap();

    let reqs = client.get_publish_requests();
    assert_eq!(reqs.len(), 1);
    let sent = &reqs[0];
    assert_eq!(
        sent.subject().to_string(),
        "ev.11111111-1111-1111-1111-111111111111.ban"
    );
    assert_eq!(sent.payload(), b"hi");
    let wire = sent.headers().encode();
    assert_eq!(get(&wire, "Nats-Msg-Id").unwrap(), "ban_7");
    assert_eq!(get(&wire, "Entity-Event-Type").unwrap(), "ban");
    assert_eq!(get(&wire, "Entity-Event-Sequence-Id").unwrap(), "7");
    assert_eq!(get(&wire, "Sender-Agent-Id").unwrap(), "agent.X");
    assert_eq!(get(&wire, "Is-Internal").unwrap(), "true");
    assert!(get(&wire, "Receiver-Agent-Id").is_none());
}

#[test]
fn publish_with_deduplication_disabled() {
    let event = Builder::new(
        sample_subject(),
        b"hi".to_vec(),
        EventId::new("ban".to_string(), 7),
        AgentId::parse("agent.X").unwrap(),
    )
    .disable_deduplication()
    .build();

    let wire = event.headers().encode();
    assert!(get(&wire, "Nats-Msg-Id").is_none());
    assert_eq!(get(&wire, "Entity-Event-Type").unwrap(), "ban");
    assert_eq!(get(&wire, "Entity-Event-Sequence-Id").unwrap(), "7");
    assert_eq!(get(&wire, "Sender-Agent-Id").unwrap(), "agent.X");
    assert_eq!(get(&wire, "Is-Internal").unwrap(), "true");
}

#[test]
fn builder_optional_fields() {
    let event = Builder::new(
        sample_subject(),
        vec![],
        EventId::new("ban".to_string(), 1),
        AgentId::parse("agent.X").unwrap(),
    )
    .internal(false)
    .receiver_id(AgentId::parse("agent.Y").unwrap())
    .build();
    assert!(!event.headers().is_internal());
    assert_eq!(event.headers().receiver_id().unwrap().text, "agent.Y");
    let wire = event.headers().encode();
    assert_eq!(get(&wire, "Is-Internal").unwrap(), "false");
    assert_eq!(get(&wire, "Receiver-Agent-Id").unwrap(), "agent.Y");
}

fn poison_message() -> Message {
    let headers = Headers {
        event_id: EventId::new("ban".to_string(), 7),
        sender_id: AgentId::parse("agent.X").unwrap(),
        is_internal: true,
        receiver_id: None,
        deduplication: true,
    };
    Message {
        subject: "ev.11111111-1111-1111-1111-111111111111.ban".to_string(),
        payload: b"hi".to_vec(),
        headers: headers.encode(),
    }
}

#[test]
fn terminate_republishes_under_quarantine_prefix() {
    let mut client = TestNatsClient::new();
    let ack = run_terminate(&mut client, &poison_message()).unwrap();
    assert_eq!(ack, AckKind::Term);

    let reqs = client.get_publish_requests();
    assert_eq!(reqs.len(), 1);
    let republished = &reqs[0];
    assert_eq!(
        republished.subject().to_string(),
        "terminated.ev.11111111-1111-1111-1111-111111111111.ban"
    );
    assert_eq!(republished.payload(), b"hi");
    assert_eq!(republished.headers().event_id().entity_type(), "ban");
    assert_eq!(republished.headers().event_id().sequence_id(), 7);
    assert_eq!(republished.headers().sender_id().text, "agent.X");
    assert!(republished.headers().is_internal());
    assert!(republished.headers().deduplication_enabled());
}

#[test]
fn terminate_fails_without_headers_and_publishes_nothing() {
    let mut client = TestNatsClient::new();
    let msg = Message {
        subject: "ev.11111111-1111-1111-1111-111111111111.ban".to_string(),
        payload: vec![],
        headers: async_nats::HeaderMap::new(),
    };
    let err = run_terminate(&mut client, &msg).unwrap_err();
    assert!(matches!(
        err,
        TermMessageError::InvalidHeader(HeaderError::InvalidHeader(_))
    ));
    assert_eq!(client.get_publish_requests().len(), 0);
}

#[test]
fn terminate_rejects_already_quarantined_subject() {
    // The strict three-component subject parse reads "terminated" as the
    // prefix and "ev" as the classroom id, which is no UUID text: a
    // quarantined message cannot be terminated a second time.
    let mut client = TestNatsClient::new();
    let mut msg = poison_message();
    msg.subject = "terminated.ev.11111111-1111-1111-1111-111111111111.ban".to_string();
    let err = run_terminate(&mut client, &msg).unwrap_err();
    assert!(matches!(err, TermMessageError::InvalidSubject(_)));
    assert_eq!(client.get_publish_requests().len(), 0);
}

#[test]
fn terminate_rejects_prefix_exactly_terminated() {
    // A parseable subject whose prefix is the reserved "terminated" is
    // rejected outright: no "terminated.terminated." subject may ever be
    // produced.
    let mut client = TestNatsClient::new();
    let mut msg = poison_message();
    msg.subject = "terminated.11111111-1111-1111-1111-111111111111.ban".to_string();
    let err = run_terminate(&mut client, &msg).unwrap_err();
    assert!(matches!(err, TermMessageError::AlreadyTerminated));
    assert_eq!(client.get_publish_requests().len(), 0);
}

#[test]
fn test_client_records_terminate_requests() {
    let mut client = TestNatsClient::new();
    client.terminate(poison_message()).unwrap();
    assert_eq!(client.get_terminate_requests().len(), 1);
    assert_eq!(
        client.get_terminate_requests()[0].subject,
        "ev.11111111-1111-1111-1111-111111111111.ban"
    );
}
