//! Services whose work is all storage or networking; what is left of them
//! here is their name and the calls that need no store.

use vstd::prelude::*;

verus! {

/// The store of the digital-id service.
pub struct DB {}

impl DB {
    pub fn say_hello() {
    }
}

/// Reads the environment settings (there are none to read yet).
pub fn get_env() {
}

/// The key-value store of accounts, blocks and logs.
pub struct KVService {}

/// A node of the network.
pub struct Node {}

/// Handles communication from other sources to the ledger.
pub struct Handler {}

/// Information about a remote wallet.
pub struct WalletRIInfo {}

} // verus!
