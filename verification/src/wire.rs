//! Trusted boundary around the wire client's header map. Everything the
//! library states about a wire header map goes through `header_entries`,
//! the map from each header name present to its first value.
use vstd::prelude::*;

verus! {

#[verifier::external_type_specification]
#[verifier::external_body]
pub struct ExHeaderMap(async_nats::HeaderMap);

/// Contents of a wire header map: for every header name present, the first
/// value stored under it.
pub uninterp spec fn header_entries(m: async_nats::HeaderMap) -> Map<Seq<char>, Seq<char>>;

/// Header names the wire client accepts: printable ASCII without colons.
/// Anything else makes its name conversion panic.
pub open spec fn header_name_ok(s: Seq<char>) -> bool {
    forall|i: int|
        0 <= i < s.len() ==> 0x21 <= (#[trigger] s[i]) as int <= 0x7e && s[i] != ':'
}

/// Header values the wire client accepts: no carriage return or line feed.
/// Anything else makes its value conversion panic.
pub open spec fn header_value_ok(s: Seq<char>) -> bool {
    forall|i: int| 0 <= i < s.len() ==> (#[trigger] s[i]) != '\r' && s[i] != '\n'
}

/// An empty set of wire header entries.
pub open spec fn no_entries() -> Map<Seq<char>, Seq<char>> {
    Map::<Seq<char>, Seq<char>>::empty()
}

/// Relies on async_nats::HeaderMap::new: a fresh map has no entries.
#[verifier::external_body]
pub fn header_map_new() -> (m: async_nats::HeaderMap)
    ensures
        header_entries(m) == no_entries(),
{
    async_nats::HeaderMap::new()
}

/// Relies on async_nats::HeaderMap::insert: stores the value as the only
/// one under the name, replacing whatever was there.
#[verifier::external_body]
pub fn header_insert(m: &mut async_nats::HeaderMap, name: &str, value: &str)
    requires
        header_name_ok(name@),
        header_value_ok(value@),
    ensures
        header_entries(*final(m)) == header_entries(*old(m)).insert(name@, value@),
{
    m.insert(name, value)
}

/// Relies on async_nats::HeaderMap::get: the first value stored under the
/// name, or nothing when the name is absent.
#[verifier::external_body]
pub fn header_get(m: &async_nats::HeaderMap, name: &str) -> (r: Option<String>)
    requires
        header_name_ok(name@),
    ensures
        match r {
            Some(v) => header_entries(*m).contains_key(name@) && v@ == header_entries(*m)[name@],
            None => !header_entries(*m).contains_key(name@),
        },
{
    m.get(name).map(|v| v.as_str().to_owned())
}

/// The six header names this library writes or reads are acceptable wire
/// header names, and they are pairwise distinct.
pub proof fn lemma_wire_names_ok()
    ensures
        header_name_ok("Nats-Msg-Id"@),
        header_name_ok("Entity-Event-Type"@),
        header_name_ok("Entity-Event-Sequence-Id"@),
        header_name_ok("Sender-Agent-Id"@),
        header_name_ok("Is-Internal"@),
        header_name_ok("Receiver-Agent-Id"@),
        "Nats-Msg-Id"@ != "Entity-Event-Type"@,
        "Nats-Msg-Id"@ != "Entity-Event-Sequence-Id"@,
        "Nats-Msg-Id"@ != "Sender-Agent-Id"@,
        "Nats-Msg-Id"@ != "Is-Internal"@,
        "Nats-Msg-Id"@ != "Receiver-Agent-Id"@,
        "Entity-Event-Type"@ != "Entity-Event-Sequence-Id"@,
        "Entity-Event-Type"@ != "Sender-Agent-Id"@,
        "Entity-Event-Type"@ != "Is-Internal"@,
        "Entity-Event-Type"@ != "Receiver-Agent-Id"@,
        "Entity-Event-Sequence-Id"@ != "Sender-Agent-Id"@,
        "Entity-Event-Sequence-Id"@ != "Is-Internal"@,
        "Entity-Event-Sequence-Id"@ != "Receiver-Agent-Id"@,
        "Sender-Agent-Id"@ != "Is-Internal"@,
        "Sender-Agent-Id"@ != "Receiver-Agent-Id"@,
        "Is-Internal"@ != "Receiver-Agent-Id"@,
{
    reveal_strlit("Nats-Msg-Id");
    reveal_strlit("Entity-Event-Type");
    reveal_strlit("Entity-Event-Sequence-Id");
    reveal_strlit("Sender-Agent-Id");
    reveal_strlit("Is-Internal");
    reveal_strlit("Receiver-Agent-Id");
    assert("Nats-Msg-Id"@[0] != "Is-Internal"@[0]);
    assert("Entity-Event-Type"@[0] != "Receiver-Agent-Id"@[0]);
}

} // verus!
