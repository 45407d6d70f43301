//! Resolving a channel address and a message identifier into a message link.

use vstd::prelude::*;

verus! {

/// The text that describes a link that could not be formed from an address
/// and a message identifier.
pub open spec fn link_failure_text(address: Seq<char>, identifier: Seq<char>) -> Seq<char> {
    "Failed to create Address from "@ + address + ":"@ + identifier
}

/// A channel address and a message identifier that do not form a link.
pub struct LinkError {
    pub address: String,
    pub identifier: String,
}

impl LinkError {
    /// The human-readable description of the error.
    pub fn message(&self) -> (text: String)
        ensures
            text@ == link_failure_text(self.address@, self.identifier@),
    {
        let mut text = String::from_str("Failed to create Address from ");
        text.append(self.address.as_str());
        text.append(":");
        text.append(self.identifier.as_str());
        proof {
            reveal_strlit("Failed to create Address from ");
            reveal_strlit(":");
        }
        text
    }
}

/// Turns the outcome of parsing `address` and `message_identifier` into a
/// link (`parsed`) into the link itself, or into the error that names both
/// parts when they did not form one.
pub fn find_message_link_opt_sequence<L>(
    address: &String,
    message_identifier: &String,
    parsed: Option<L>,
) -> (res: Result<L, LinkError>)
    ensures
        parsed matches Some(l) ==> res == Ok::<L, LinkError>(l),
        parsed is None ==> (res matches Err(e) && e.address@ == address@ && e.identifier@
            == message_identifier@),
{
    match parsed {
        Some(l) => Ok(l),
        None => Err(LinkError { address: address.clone(), identifier: message_identifier.clone() }),
    }
}

} // verus!
