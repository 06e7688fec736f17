//! The records that the ledger stores and the messages that clients and
//! nodes exchange.

use vstd::prelude::*;
use crate::amount::Amount;

verus! {

/// One transfer as it is recorded in the chain of an account.
#[derive(Clone, Debug)]
pub struct TBlock {
    pub id: String,
    pub sender: String,
    pub receiver: String,
    pub timestamp: u64,
    pub amount: Amount,
}

/// An account (wallet) of the ledger, keyed by its address.
#[derive(Clone, Debug)]
pub struct Account {
    pub id: String,
    pub address: String,
    pub wallet_name: String,
    pub public_key: String,
    pub nonce: u64,
    pub chain: Vec<TBlock>,
    pub created_at: String,
    pub balance: Amount,
}

/// A transfer of `amount` from `sender` to `receiver`.
#[derive(Clone, Debug)]
pub struct Transaction {
    pub id: String,
    pub sender: String,
    pub receiver: String,
    pub amount: Amount,
    pub signature: String,
    pub timestamp: u64,
    pub nonce: u64,
}

/// A transfer request as a client sends it; the amount is still text.
#[derive(Clone, Debug)]
pub struct TransferReq {
    pub sender: String,
    pub amount: String,
    pub receiver: String,
    pub id: String,
    pub timestamp: u64,
    pub signature: String,
    pub nonce: u64,
}

#[derive(Clone, Debug)]
pub struct GetBalanceReq {
    pub address: String,
}

#[derive(Clone, Debug)]
pub struct GetUserTransactionsReq {
    pub address: String,
}

#[derive(Clone, Debug)]
pub struct GetWalletReq {
    pub address: String,
}

#[derive(Clone, Debug)]
pub struct VerifyWalletReq {
    pub address: String,
    pub message: String,
    pub signature: String,
}

#[derive(Clone, Debug)]
pub struct CreateUserIDReq {
    pub user_name: String,
    pub password: String,
}

#[derive(Clone, Debug)]
pub struct ValidateUserIDReq {
    pub user_name: String,
    pub password: String,
}

#[derive(Clone, Debug)]
pub struct CreateWalletReq {
    pub address: String,
    pub wallet_name: String,
    pub public_key: String,
}

#[derive(Clone, Debug)]
pub struct GetAccountReq {
    pub address: String,
}

/// A request of some action, with its data.
pub struct NRequest<T> {
    pub action: String,
    pub data: T,
}

#[derive(Clone, Debug)]
pub struct AddNodeReq {
    pub id: String,
    pub ip_address: String,
    pub public_key: String,
    pub http_address: String,
}

#[derive(Clone, Debug)]
pub struct GetNodeListReq {}

#[derive(Clone, Debug)]
pub struct HttpMessage {
    pub message: String,
}

#[derive(Clone, Debug)]
pub struct GenericResponse {
    pub message: String,
    pub code: i32,
}

#[derive(Clone, Debug)]
pub struct WalletNamesRespC {
    pub names: Vec<String>,
}

/// A reply: `status` is 0 on failure and 1 on success.
#[derive(Clone, Debug)]
pub struct NResponse<T> {
    pub status: i32,
    pub message: String,
    pub data: Option<T>,
}

/// A user identity of the digital-id service.
#[derive(Clone, Debug)]
pub struct UserID {
    pub id: String,
    pub user_name: String,
    pub password_hash: String,
    pub date_created: String,
    pub recovery_answer: String,
    pub recovery_question: String,
    pub is_image_verification_linked: bool,
}

/// The period over which a wallet's transaction limit applies.
#[derive(Clone, Copy, Debug, PartialEq, Eq, Structural)]
pub enum LimitPeriod {
    Daily,
    Weekly,
    Monthly,
    Yearly,
}

/// Transactions waiting to be processed, by sender address.
#[derive(Clone, Debug)]
pub struct Mempool {
    pub transactions: Vec<(String, Vec<Transaction>)>,
}

/// All the transactions of the pool's entries, entry by entry.
pub open spec fn pooled(entries: Seq<(String, Vec<Transaction>)>) -> Seq<Transaction>
    decreases entries.len(),
{
    if entries.len() == 0 {
        Seq::empty()
    } else {
        pooled(entries.drop_last()) + entries.last().1@
    }
}

impl Mempool {
    /// Each sender address has at most one entry.
    pub open spec fn well_formed(&self) -> bool {
        forall|i: int, j: int|
            0 <= i < j < self.transactions@.len() ==> (#[trigger] self.transactions@[i]).0@
                != (#[trigger] self.transactions@[j]).0@
    }

    /// An empty pool.
    pub fn new() -> (m: Mempool)
        ensures
            m.transactions@.len() == 0,
            m.well_formed(),
    {
        Mempool { transactions: Vec::new() }
    }

}

/// A wallet as the wallet directory stores it.
#[derive(Clone, Debug)]
pub struct MongoWalletX {
    pub id: String,
    pub address: String,
    pub wallet_name: String,
    pub password_hash: String,
}

impl MongoWalletX {
    /// A wallet whose fields are all empty.
    pub fn default() -> (w: MongoWalletX)
        ensures
            w.id@ == Seq::<char>::empty(),
            w.address@ == Seq::<char>::empty(),
            w.wallet_name@ == Seq::<char>::empty(),
            w.password_hash@ == Seq::<char>::empty(),
    {
        MongoWalletX {
            id: String::new(),
            address: String::new(),
            wallet_name: String::new(),
            password_hash: String::new(),
        }
    }
}

} // verus!
