//! Node ids: the keys that name transport endpoints.

use vstd::prelude::*;
use vstd::string::*;

use crate::text::{hex_of, hex_text};

verus! {

/// The node id that a text stands for, if it stands for one.
pub uninterp spec fn parsed_node(text: Seq<char>) -> Option<Seq<u8>>;

/// `FromStr` of `iroh`'s `EndpointId`, which takes sixty-four lower-case hexadecimal
/// digits or base32 and wants a point on the curve. The hexadecimal text of an id
/// that it read parses to that id again.
#[verifier::external_body]
fn parse_node(text: &str) -> (r: Option<[u8; 32]>)
    ensures
        r is Some <==> parsed_node(text@) is Some,
        r matches Some(b) ==> parsed_node(text@) == Some(b@),
        r matches Some(b) ==> parsed_node(hex_text(b@)) == Some(b@),
{
    text.parse::<iroh_base::EndpointId>().ok().map(|id| *id.as_bytes())
}

/// The id of a transport endpoint.
#[derive(Clone, Copy, Debug, PartialEq, Eq)]
pub struct NodeId {
    bytes: [u8; 32],
}

impl View for NodeId {
    type V = Seq<u8>;

    closed spec fn view(&self) -> Seq<u8> {
        self.bytes@
    }
}

/// A node id is thirty-two bytes.
pub proof fn node_ids_are_short(id: NodeId)
    ensures
        id@.len() == 32,
{
}

/// The view of an optional node id.
pub open spec fn node_view(node: Option<NodeId>) -> Option<Seq<u8>> {
    match node {
        Some(node) => Some(node@),
        None => None,
    }
}

impl NodeId {
    #[verifier::type_invariant]
    spec fn well_formed(self) -> bool {
        parsed_node(hex_text(self.bytes@)) == Some(self.bytes@)
    }

    /// Reads a node id from its text.
    pub fn parse(text: &str) -> (r: Option<NodeId>)
        ensures
            r is Some <==> parsed_node(text@) is Some,
            r matches Some(id) ==> parsed_node(text@) == Some(id@),
    {
        match parse_node(text) {
            Some(bytes) => Some(NodeId { bytes }),
            None => None,
        }
    }

    /// The node id with the given bytes, if they are one.
    pub fn from_bytes(bytes: &[u8; 32]) -> (r: Option<NodeId>)
        ensures
            r is Some <==> parsed_node(hex_text(bytes@)) is Some,
            r matches Some(id) ==> parsed_node(hex_text(bytes@)) == Some(id@),
    {
        NodeId::parse(hex_of(bytes).as_str())
    }

    /// The id as sixty-four lower-case hexadecimal digits, which parse to it again.
    pub fn to_text(&self) -> (r: String)
        ensures
            r@ == hex_text(self@),
            parsed_node(r@) == Some(self@),
    {
        proof {
            use_type_invariant(self);
        }
        hex_of(&self.bytes)
    }

    /// Whether two ids are the same.
    pub fn same(&self, other: &NodeId) -> (r: bool)
        ensures
            r == (self@ == other@),
    {
        let mut i: usize = 0;
        while i < 32
            invariant
                i <= 32,
                forall|j: int| 0 <= j < i ==> self.bytes@[j] == other.bytes@[j],
            decreases 32 - i,
        {
            if self.bytes[i] != other.bytes[i] {
                return false;
            }
            i += 1;
        }
        assert(self@ =~= other@);
        true
    }
}

} // verus!
