//! Connection settings of the brokerage account.

use vstd::prelude::*;

verus! {

/// Where the brokerage API lives and the key pair that signs each call to it.
#[derive(Clone, Debug)]
pub struct AlpacaSettings {
    pub base_url: String,
    pub key_id: String,
    pub secret_key: String,
}

} // verus!
