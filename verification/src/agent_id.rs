//! Agent identity. On the wire an agent id is an opaque non-empty string
//! owned by an external identity scheme; this library carries it verbatim
//! and never inspects its inner structure.
use vstd::prelude::*;

verus! {

/// An agent id is acceptable when it is non-empty.
pub open spec fn agent_id_ok(s: Seq<char>) -> bool {
    s.len() > 0
}

/// Opaque agent identifier, kept in its string form.
#[derive(Debug, Clone)]
pub struct AgentId {
    pub text: String,
}

impl View for AgentId {
    type V = Seq<char>;

    open spec fn view(&self) -> Seq<char> {
        self.text@
    }
}

impl AgentId {
    /// Accepts any non-empty string as an agent id.
    pub fn parse(s: &str) -> (r: Option<AgentId>)
        ensures
            match r {
                Some(a) => agent_id_ok(s@) && a@ == s@,
                None => !agent_id_ok(s@),
            },
    {
        if s.unicode_len() == 0 {
            None
        } else {
            Some(AgentId { text: s.to_owned() })
        }
    }

    pub fn as_str(&self) -> (r: &str)
        ensures
            r@ == self@,
    {
        self.text.as_str()
    }

    /// The string form, as it travels on the wire.
    pub fn to_string(&self) -> (r: String)
        ensures
            r@ == self@,
    {
        self.text.clone()
    }
}

} // verus!
