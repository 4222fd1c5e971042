//! The record that describes one token.

use crate::ledger::Address;
use vstd::prelude::*;

verus! {

/// What is known of a token: its identifier, who holds it, and where its
/// image and the notes on its generation lie.
#[derive(Clone, Debug, PartialEq, Eq)]
pub struct NftMetadata {
    pub token_id: String,
    pub owner: Address,
    pub image_url: String,
    pub metadata: String,
}

} // verus!
