//! Transfers: the transaction hash, and the rules that decide whether a
//! transaction is applied to the sender's and the receiver's accounts.

use vstd::prelude::*;
use vstd::utf8::encode_utf8;
use crate::amount::{Amount, normalized, normalizable, canonical, same_number, lemma_normalized_canonical, lemma_canonical_unique, lemma_same_number_sym, lemma_same_number_trans, decimal_text, decimal_normalized, decimal_to_string, scaled};
use crate::account::{ledger, ledger_scale, balance_of, lemma_balance_at_scale};
use crate::crypto::{hex_lower, sha256_of, sha256_digest, hex_encode, lemma_hex_lower_ascii};
use crate::errors::AppError;
use crate::models::{Account, Mempool, TBlock, Transaction, pooled};
use crate::wallet::{Wallet, funds_ok};

verus! {

pub struct Transfer {}

/// Byte `i` (`0 <= i < 8`, most significant first) of `x`.
pub open spec fn be_byte(x: u64, i: int) -> u8 {
    ((x >> ((56 - 8 * i) as u64)) & 0xff) as u8
}

/// The big-endian bytes of `x`, as `u64::to_be_bytes` gives them.
pub open spec fn be_bytes(x: u64) -> Seq<u8> {
    Seq::new(8, |i: int| be_byte(x, i))
}

/// The bytes a transaction's id is the hash of: the timestamp (big-endian),
/// the sender, the receiver and the text of the normalized amount.
pub open spec fn hash_input(tx: Transaction) -> Seq<u8> {
    be_bytes(tx.timestamp) + encode_utf8(tx.sender@) + encode_utf8(tx.receiver@) + encode_utf8(
        decimal_text(normalized(tx.amount@).0, normalized(tx.amount@).1),
    )
}

/// The id of a transaction: hex of the SHA-256 digest of its hash input.
pub open spec fn transaction_hash(tx: Transaction) -> Seq<char> {
    hex_lower(sha256_of(hash_input(tx)))
}

/// `b` records the transaction `tx`.
pub open spec fn block_of(b: TBlock, tx: Transaction) -> bool {
    &&& b.id@ == tx.id@
    &&& b.sender@ == tx.sender@
    &&& b.receiver@ == tx.receiver@
    &&& b.timestamp == tx.timestamp
    &&& b.amount@ == tx.amount@
}

/// `new` is `old` with one block, recording `tx`, added at the end of its chain.
pub open spec fn appended(new: Account, old: Account, tx: Transaction) -> bool {
    &&& new.id == old.id
    &&& new.address == old.address
    &&& new.wallet_name == old.wallet_name
    &&& new.public_key == old.public_key
    &&& new.nonce == old.nonce
    &&& new.created_at == old.created_at
    &&& new.balance == old.balance
    &&& new.chain@.len() == old.chain@.len() + 1
    &&& new.chain@.drop_last() == old.chain@
    &&& block_of(new.chain@.last(), tx)
}

/// Some block of the chain has the id.
pub open spec fn chain_has_id(chain: Seq<TBlock>, id: Seq<char>) -> bool {
    exists|i: int| 0 <= i < chain.len() && (#[trigger] chain[i]).id@ == id
}

/// The transaction is applied: both accounts exist, the sender affords it, its
/// amount can be normalized (its id is computed from the normalized amount),
/// its id is its hash and is not in the sender's chain yet.
pub open spec fn transfer_accepted(sender: Option<Account>, receiver: Option<Account>, tx: Transaction) -> bool {
    &&& funds_ok(sender, receiver, tx)
    &&& normalizable(tx.amount)
    &&& transaction_hash(tx) == tx.id@
    &&& !chain_has_id(sender->0.chain@, tx.id@)
}

/// Appends the bytes to the vector.
fn append_bytes(v: &mut Vec<u8>, b: &[u8])
    ensures
        final(v)@ == old(v)@ + b@,
{
    let mut i: usize = 0;
    let ghost start = v@;
    while i < b.len()
        invariant
            0 <= i <= b@.len(),
            v@ == start + b@.take(i as int),
        decreases b.len() - i,
    {
        v.push(b[i]);
        assert(b@.take(i + 1) =~= b@.take(i as int).push(b@[i as int]));
        i = i + 1;
    }
    assert(b@.take(b@.len() as int) =~= b@);
}

/// The big-endian bytes of `x`.
fn u64_be_bytes(x: u64) -> (res: Vec<u8>)
    ensures
        res@ == be_bytes(x),
{
    let mut v: Vec<u8> = Vec::new();
    let mut i: u64 = 0;
    while i < 8
        invariant
            0 <= i <= 8,
            v@.len() == i,
            forall|j: int| 0 <= j < i ==> v@[j] == be_byte(x, j),
        decreases 8 - i,
    {
        v.push(((x >> (56 - 8 * i)) & 0xff) as u8);
        i = i + 1;
    }
    assert(v@ =~= be_bytes(x));
    v
}

/// A block recording the transaction.
fn make_block(tx: &Transaction) -> (b: TBlock)
    ensures
        block_of(b, *tx),
{
    TBlock {
        id: tx.id.clone(),
        sender: tx.sender.clone(),
        receiver: tx.receiver.clone(),
        timestamp: tx.timestamp,
        amount: tx.amount.duplicate(),
    }
}

/// Whether some block of the chain has the id.
fn chain_contains_id(chain: &Vec<TBlock>, id: &String) -> (res: bool)
    ensures
        res == chain_has_id(chain@, id@),
        res <==> exists|i: int| 0 <= i < chain@.len() && (#[trigger] chain@[i]).id@ == id@,
{
    let mut i: usize = 0;
    while i < chain.len()
        invariant
            0 <= i <= chain@.len(),
            forall|j: int| 0 <= j < i ==> (#[trigger] chain@[j]).id@ != id@,
        decreases chain.len() - i,
    {
        if chain[i].id == *id {
            return true;
        }
        i = i + 1;
    }
    false
}

impl Transfer {
    /// All the transactions waiting in the pool.
    pub fn get_all_transactions(pool: Mempool) -> (res: Vec<Transaction>)
        ensures
            res@ == pooled(pool.transactions@),
    {
        let mut all: Vec<Transaction> = Vec::new();
        let ghost es = pool.transactions@;
        for e in it: pool.transactions
            invariant
                it.seq() == es,
                all@ == pooled(es.take(it.index())),
        {
            let ghost k = it.index();
            assert(es.take(k + 1).drop_last() =~= es.take(k));
            assert(es.take(k + 1).last() == e);
            let (_, mut txs) = e;
            all.append(&mut txs);
        }
        assert(es.take(es.len() as int) =~= es);
        all
    }

    /// The id a transaction must carry: lower-case hex of the SHA-256 digest of
    /// its timestamp (big-endian), sender, receiver and normalized amount text.
    pub fn get_transaction_hash(tx: &Transaction) -> (res: String)
        requires
            normalizable(tx.amount),
        ensures
            res@ == transaction_hash(*tx),
            res@.len() == 64,
            // the amount is hashed as the text of its own normalized value
            res@ == hex_lower(sha256_of(be_bytes(tx.timestamp) + encode_utf8(tx.sender@) + encode_utf8(
                tx.receiver@,
            ) + encode_utf8(decimal_text(normalized(tx.amount@).0, normalized(tx.amount@).1)))),
    {
        let mut data = u64_be_bytes(tx.timestamp);
        append_bytes(&mut data, tx.sender.as_str().as_bytes());
        append_bytes(&mut data, tx.receiver.as_str().as_bytes());
        let norm = decimal_normalized(&tx.amount);
        let text = decimal_to_string(&norm);
        append_bytes(&mut data, text.as_str().as_bytes());
        let digest = sha256_digest(data.as_slice());
        proof {
            lemma_hex_lower_ascii(digest@);
        }
        hex_encode(digest.as_slice())
    }

    /// Applies a transaction to the sender's and the receiver's accounts (as
    /// read from the store; `None` where there is none): both must exist, the
    /// sender must afford it, its id must be its hash and must not be in the
    /// sender's chain yet. An amount whose trailing zeros cannot be stripped
    /// without taking its scale below `i64::MIN` has no hash (bigdecimal's
    /// normalization overflows there); it is refused with `UnexpectedError`
    /// where the hash is needed. On success both accounts get the block at the
    /// end of their chains, and are returned for the store to save together.
    pub fn process_single_bf_transaction(sender: Option<Account>, receiver: Option<Account>, tx: Transaction) -> (res: Result<(Account, Account), AppError>)
        ensures
            sender is None ==> (res matches Err(AppError::AccountNotFound(a)) && a@ == tx.sender@),
            sender is Some && receiver is None ==> (res matches Err(AppError::AccountNotFound(a))
                && a@ == tx.receiver@),
            sender is Some && receiver is Some && !funds_ok(sender, receiver, tx) ==> (res matches Err(
                AppError::InsufficientFunds,
            )),
            funds_ok(sender, receiver, tx) && !normalizable(tx.amount) ==> (res matches Err(
                AppError::UnexpectedError(_),
            )),
            funds_ok(sender, receiver, tx) && normalizable(tx.amount) && transaction_hash(tx)
                != tx.id@ ==> (res matches Err(AppError::IDMismatch)),
            funds_ok(sender, receiver, tx) && normalizable(tx.amount) && transaction_hash(tx)
                == tx.id@ && chain_has_id(
                sender->0.chain@,
                tx.id@,
            ) ==> (res matches Err(AppError::TransactionAlreadyExists)),
            res is Ok <==> transfer_accepted(sender, receiver, tx),
            // a transaction whose id is in the sender's chain, at any position, is refused
            forall|i: int|
                sender is Some && 0 <= i < sender->0.chain@.len() && (#[trigger] sender->0.chain@[i]).id@
                    == tx.id@ ==> res is Err,
            res matches Ok((s, r)) ==> appended(s, sender->0, tx) && appended(r, receiver->0, tx),
    {
        let is_valid_amount = Wallet::verify_transaction_amount(&sender, &receiver, &tx);
        let mut sender_account = match sender {
            Some(a) => a,
            None => return Err(AppError::AccountNotFound(tx.sender.clone())),
        };
        let mut receiver_account = match receiver {
            Some(a) => a,
            None => return Err(AppError::AccountNotFound(tx.receiver.clone())),
        };
        if !is_valid_amount {
            return Err(AppError::InsufficientFunds);
        }
        if !tx.amount.is_normalizable() {
            return Err(AppError::UnexpectedError(String::from_str("amount cannot be normalized")));
        }
        let derived_tx_id = Self::get_transaction_hash(&tx);
        if derived_tx_id != tx.id {
            return Err(AppError::IDMismatch);
        }
        if chain_contains_id(&sender_account.chain, &derived_tx_id) {
            return Err(AppError::TransactionAlreadyExists);
        }
        let ghost old_sender = sender_account;
        let ghost old_receiver = receiver_account;
        sender_account.chain.push(make_block(&tx));
        receiver_account.chain.push(make_block(&tx));
        assert(sender_account.chain@.drop_last() =~= old_sender.chain@);
        assert(receiver_account.chain@.drop_last() =~= old_receiver.chain@);
        Ok((sender_account, receiver_account))
    }
}

/// Law: a transfer moves exactly its amount. When a transaction has been
/// appended to the sender's and the receiver's chains (their addresses being
/// the transaction's sender and receiver, which differ), the sender's balance
/// drops by the amount and the receiver's rises by it, counted at any scale;
/// so the two balances together are unchanged.
pub proof fn lemma_transfer_moves_amount(
    old_sender: Account,
    old_receiver: Account,
    new_sender: Account,
    new_receiver: Account,
    tx: Transaction,
    s: int,
)
    requires
        appended(new_sender, old_sender, tx),
        appended(new_receiver, old_receiver, tx),
        old_sender.address@ == tx.sender@,
        old_receiver.address@ == tx.receiver@,
        tx.sender@ != tx.receiver@,
    ensures
        ledger(new_sender.chain@, new_sender.address@, s) == ledger(
            old_sender.chain@,
            old_sender.address@,
            s,
        ) - scaled(tx.amount, s),
        ledger(new_receiver.chain@, new_receiver.address@, s) == ledger(
            old_receiver.chain@,
            old_receiver.address@,
            s,
        ) + scaled(tx.amount, s),
        ledger(new_sender.chain@, new_sender.address@, s) + ledger(
            new_receiver.chain@,
            new_receiver.address@,
            s,
        ) == ledger(old_sender.chain@, old_sender.address@, s) + ledger(
            old_receiver.chain@,
            old_receiver.address@,
            s,
        ),
{
    assert(new_sender.chain@.len() > 0);
    assert(new_receiver.chain@.len() > 0);
}

/// Law: a transaction is applied at most once. Once a transaction has been
/// appended to the sender's chain, the same transaction is no longer accepted
/// against the updated sender account, whatever the receiver.
pub proof fn lemma_no_replay(new_sender: Account, old_sender: Account, receiver: Option<Account>, tx: Transaction)
    requires
        appended(new_sender, old_sender, tx),
    ensures
        chain_has_id(new_sender.chain@, tx.id@),
        !transfer_accepted(Some(new_sender), receiver, tx),
{
    let k = new_sender.chain@.len() - 1;
    assert(new_sender.chain@[k] == new_sender.chain@.last());
}

/// Law: a transaction whose id is the id of any block of the sender's chain
/// (not only the last) is not accepted, whatever the receiver.
pub proof fn lemma_recorded_id_refused(sender: Account, receiver: Option<Account>, tx: Transaction, i: int)
    requires
        0 <= i < sender.chain@.len(),
        sender.chain@[i].id@ == tx.id@,
    ensures
        !transfer_accepted(Some(sender), receiver, tx),
{
    assert(chain_has_id(sender.chain@, tx.id@));
}

/// Law: balances move by exactly the amount of a transfer. With the balances
/// of the sender and the receiver as `get_balance` computes them before and
/// after the transaction is appended to both chains, counted at any scale as
/// fine as every amount in the new chains, the sender's drops by the amount,
/// the receiver's rises by it, and their sum is unchanged.
pub proof fn lemma_transfer_moves_balances(
    old_sender: Account,
    old_receiver: Account,
    new_sender: Account,
    new_receiver: Account,
    tx: Transaction,
    sender_before: Amount,
    sender_after: Amount,
    receiver_before: Amount,
    receiver_after: Amount,
    l: int,
)
    requires
        appended(new_sender, old_sender, tx),
        appended(new_receiver, old_receiver, tx),
        old_sender.address@ == tx.sender@,
        old_receiver.address@ == tx.receiver@,
        tx.sender@ != tx.receiver@,
        balance_of(sender_before, old_sender.chain@, old_sender.address@),
        balance_of(sender_after, new_sender.chain@, new_sender.address@),
        balance_of(receiver_before, old_receiver.chain@, old_receiver.address@),
        balance_of(receiver_after, new_receiver.chain@, new_receiver.address@),
        l >= ledger_scale(new_sender.chain@, new_sender.address@),
        l >= ledger_scale(new_receiver.chain@, new_receiver.address@),
    ensures
        scaled(sender_after, l) == scaled(sender_before, l) - scaled(tx.amount, l),
        scaled(receiver_after, l) == scaled(receiver_before, l) + scaled(tx.amount, l),
        scaled(sender_after, l) + scaled(receiver_after, l) == scaled(sender_before, l) + scaled(
            receiver_before,
            l,
        ),
{
    assert(new_sender.chain@.len() > 0);
    assert(new_receiver.chain@.len() > 0);
    assert(ledger_scale(old_sender.chain@, old_sender.address@) <= ledger_scale(new_sender.chain@, new_sender.address@));
    assert(ledger_scale(old_receiver.chain@, old_receiver.address@) <= ledger_scale(new_receiver.chain@, new_receiver.address@));
    lemma_balance_at_scale(sender_before, old_sender.chain@, old_sender.address@, l);
    lemma_balance_at_scale(sender_after, new_sender.chain@, new_sender.address@, l);
    lemma_balance_at_scale(receiver_before, old_receiver.chain@, old_receiver.address@, l);
    lemma_balance_at_scale(receiver_after, new_receiver.chain@, new_receiver.address@, l);
    lemma_transfer_moves_amount(old_sender, old_receiver, new_sender, new_receiver, tx, l);
}

/// Law: a transaction's id is the hex SHA-256 digest of its timestamp
/// (big-endian), sender, receiver and the text of the canonical decimal
/// `(m, s)` (no trailing zero; zero as `(0, 0)`) of its amount's value.
pub proof fn lemma_id_hashes_canonical_amount(t: Transaction, m: int, s: int)
    requires
        canonical((m, s)),
        same_number((m, s), t.amount@),
    ensures
        transaction_hash(t) == hex_lower(sha256_of(be_bytes(t.timestamp) + encode_utf8(t.sender@)
            + encode_utf8(t.receiver@) + encode_utf8(decimal_text(m, s)))),
{
    lemma_normalized_canonical(t.amount@);
    let n = normalized(t.amount@);
    lemma_same_number_sym((m, s), t.amount@);
    lemma_same_number_trans(n, t.amount@, (m, s));
    lemma_canonical_unique(n, (m, s));
}

/// Law: a transaction's id depends on its amount only through the normalized
/// amount: transactions with the same timestamp, sender and receiver whose
/// amounts normalize alike (such as `1.0` and `1.00`) have the same id,
/// whatever their ids and signatures.
pub proof fn lemma_id_of_normalized_amount(t1: Transaction, t2: Transaction)
    requires
        t1.timestamp == t2.timestamp,
        t1.sender@ == t2.sender@,
        t1.receiver@ == t2.receiver@,
        normalized(t1.amount@) == normalized(t2.amount@),
    ensures
        transaction_hash(t1) == transaction_hash(t2),
{
}

} // verus!
