use vstd::prelude::*;

verus! {

/// Identifier of an outbound query/response session, allocated by
/// `Behaviour::send_query`, locally unique for the process lifetime.
#[derive(Debug, Default, Copy, Clone, Eq, PartialEq, Hash, Structural)]
pub struct OutboundSessionId {
    pub value: u64,
}

/// Identifier of an inbound query/response session, allocated on receipt of a
/// remote query, locally unique for the process lifetime.
#[derive(Debug, Default, Copy, Clone, Eq, PartialEq, Hash, Structural)]
pub struct InboundSessionId {
    pub value: u64,
}

} // verus!
