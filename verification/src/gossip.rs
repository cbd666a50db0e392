//! Gossip records and batches.
//!
//! A gossip record is a single peer advertisement: an opaque
//! identity/topology payload together with the peer's advertised endpoint,
//! if it has one. Wrapping and unwrapping a profile performs no validation;
//! classification is always explicit and on demand through
//! [`Gossip::has_valid_address`] and [`Gossip::is_global`].

use vstd::prelude::*;

use crate::addr::Address;
use crate::addr::spec_global_socket;
use crate::addr::spec_to_socket_addr;
use crate::addr::spec_valid_socket;
use crate::codec::EncodeError;
use crate::codec::SIZE_LIMIT;
use crate::codec::encode;
use crate::codec::spec_encoding;

verus! {

/// A peer profile as this core sees it: the identity and topology metadata
/// (opaque bytes, owned by the external topology component and never
/// interpreted here) and the optional advertised endpoint.
#[derive(Clone, Debug, Hash, PartialEq, Eq)]
pub struct Profile {
    /// Opaque identity/topology metadata; carried through unread.
    pub payload: Vec<u8>,
    /// The advertised endpoint, if the profile carries one.
    pub addr: Option<Address>,
}

/// A single peer advertisement: a zero-cost wrapper around a profile.
#[derive(Clone, Debug, Hash, PartialEq, Eq)]
pub struct Gossip {
    pub profile: Profile,
}

/// Whether an optional endpoint resolves to a structurally acceptable
/// socket address; fails closed when absent or unresolvable.
pub open spec fn spec_addr_valid(a: Option<Address>) -> bool {
    match a {
        Some(addr) => match spec_to_socket_addr(addr) {
            Some(sa) => spec_valid_socket(sa),
            None => false,
        },
        None => false,
    }
}

/// Whether an optional endpoint resolves to a globally routable socket
/// address; fails closed when absent or unresolvable.
pub open spec fn spec_addr_global(a: Option<Address>) -> bool {
    match a {
        Some(addr) => match spec_to_socket_addr(addr) {
            Some(sa) => spec_global_socket(sa),
            None => false,
        },
        None => false,
    }
}

impl Gossip {
    /// Wrap a profile; no validation is performed.
    pub fn from_profile(profile: Profile) -> (r: Gossip)
        ensures
            r.profile == profile,
    {
        Gossip { profile }
    }

    /// Unwrap the profile; no validation is performed.
    pub fn into_profile(self) -> (r: Profile)
        ensures
            r == self.profile,
    {
        self.profile
    }

    /// The endpoint advertised by this record, if any.
    pub fn address(&self) -> (r: Option<Address>)
        ensures
            r == self.profile.addr,
    {
        self.profile.addr
    }

    /// Whether this record advertises a structurally acceptable address:
    /// present, resolvable to a socket address, and passing the structural
    /// checks (not unspecified, broadcast, multicast or a documentation
    /// range). Fails closed.
    pub fn has_valid_address(&self) -> (r: bool)
        ensures
            r == spec_addr_valid(self.profile.addr),
    {
        let sa = match self.address() {
            None => return false,
            Some(addr) => match addr.to_socket_addr() {
                None => return false,
                Some(sa) => sa,
            },
        };
        sa.is_valid()
    }

    /// Whether this record advertises a globally routable address. Returns
    /// false whenever `has_valid_address` does. For IPv6, only the loopback
    /// is rejected directly; an embedded IPv4 address (compatible or mapped
    /// form) is held to the IPv4 rules, and a native IPv6 address passes
    /// once valid — native IPv6 private and link-local ranges are not
    /// filtered by this check.
    pub fn is_global(&self) -> (r: bool)
        ensures
            r == spec_addr_global(self.profile.addr),
    {
        if !self.has_valid_address() {
            return false;
        }
        let sa = match self.address() {
            None => return false,
            Some(addr) => match addr.to_socket_addr() {
                None => return false,
                Some(sa) => sa,
            },
        };
        sa.is_global()
    }
}

/// Global routability is the stricter judgement: an endpoint that fails
/// the structural check is never global, so `is_global` returns false
/// whenever `has_valid_address` does.
pub proof fn lemma_global_implies_valid(a: Option<Address>)
    ensures
        spec_addr_global(a) ==> spec_addr_valid(a),
{
}

/// The wire form of one record: what `spec_decode` inverts.
pub open spec fn spec_record_enc(g: Gossip) -> Seq<u8> {
    spec_encoding(g.profile.payload@, g.profile.addr)
}

/// An ordered batch of gossip records for one bulk exchange; insertion
/// order is wire order. No uniqueness is imposed here — deduplication, if
/// any, is the topology component's business.
#[derive(Clone, Debug, PartialEq, Eq)]
pub struct Gossips {
    pub records: Vec<Gossip>,
}

/// The wire container for a batch: each record individually encoded, in
/// batch order. Framing of the container itself (length prefixes, counts)
/// belongs to the transport layer, not to this core.
#[derive(Clone, Debug, PartialEq, Eq)]
pub struct WireGossip {
    pub nodes: Vec<Vec<u8>>,
}

impl Gossips {
    /// Wrap an ordered sequence of records; no validation is performed.
    pub fn from_records(records: Vec<Gossip>) -> (r: Gossips)
        ensures
            r.records == records,
    {
        Gossips { records }
    }

    /// Unwrap the ordered sequence of records.
    pub fn into_records(self) -> (r: Vec<Gossip>)
        ensures
            r == self.records,
    {
        self.records
    }

    /// Convert the batch to its wire container by encoding each record in
    /// order. All-or-nothing: if any one record fails to encode, the whole
    /// conversion fails and no partial container is produced.
    pub fn to_wire(&self) -> (r: Result<WireGossip, EncodeError>)
        ensures
            r is Ok <==> (forall|i: int|
                0 <= i < self.records@.len() ==> #[trigger] spec_record_enc(
                    self.records@[i],
                ).len() <= SIZE_LIMIT),
            r matches Ok(w) ==> {
                &&& w.nodes@.len() == self.records@.len()
                &&& forall|i: int|
                    0 <= i < self.records@.len() ==> #[trigger] w.nodes@[i]@ == spec_record_enc(
                        self.records@[i],
                    )
            },
            r matches Err(e) ==> e == EncodeError::TooLarge,
    {
        let mut nodes: Vec<Vec<u8>> = Vec::new();
        let mut i: usize = 0;
        let count = self.records.len();
        while i < count
            invariant
                i <= count,
                count == self.records@.len(),
                nodes@.len() == i as int,
                forall|j: int|
                    0 <= j < i as int ==> #[trigger] spec_record_enc(self.records@[j]).len()
                        <= SIZE_LIMIT,
                forall|j: int|
                    0 <= j < i as int ==> #[trigger] nodes@[j]@ == spec_record_enc(
                        self.records@[j],
                    ),
            decreases count - i,
        {
            match encode(&self.records[i]) {
                Ok(b) => {
                    nodes.push(b);
                },
                Err(e) => {
                    proof {
                        assert(spec_record_enc(self.records@[i as int]).len() > SIZE_LIMIT);
                    }
                    return Err(e);
                },
            }
            i = i + 1;
        }
        Ok(WireGossip { nodes })
    }
}

} // verus!
