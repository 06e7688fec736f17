//! The rules of the wallet endpoints: how each request is decided from what
//! the store holds, and which message each outcome is answered with.

use vstd::prelude::*;
use vstd::utf8::encode_utf8;
use crate::amount::{Amount, amount_of_text, parse_amount, normalizable};
use crate::account::{balance_of, scales_compatible};
use crate::errors::AppError;
use crate::models::{Account, CreateWalletReq, Transaction, TransferReq};
use crate::text::{alphabetic, lowercase, whitespace, chars_of, char_is_alphabetic, char_is_lowercase, char_is_whitespace};
use crate::transfer::{Transfer, appended, transaction_hash, transfer_accepted};
use crate::wallet::{
    SignatureFault, Wallet, funds_ok, opening_balance, public_key_of, signature_verdict,
    transfer_message,
};

verus! {

/// Why a new wallet's address is refused.
#[derive(Clone, Copy, Debug, PartialEq, Eq, Structural)]
pub enum AddressFault {
    /// It holds a letter that is not lower case.
    NotLowercase,
    /// It holds white space.
    ContainsWhitespace,
}

/// Why a transfer request is refused before any lookup.
#[derive(Clone, Copy, Debug, PartialEq, Eq, Structural)]
pub enum TransferRejection {
    /// Sender and receiver are the same address.
    SelfTransfer,
    /// The amount is no decimal number.
    InvalidAmount,
}

/// The text holds a letter that is not lower case.
pub open spec fn has_non_lowercase_letter(s: Seq<char>) -> bool {
    exists|i: int| 0 <= i < s.len() && alphabetic(#[trigger] s[i]) && !lowercase(s[i])
}

/// The text holds white space.
pub open spec fn has_whitespace(s: Seq<char>) -> bool {
    exists|i: int| 0 <= i < s.len() && whitespace(#[trigger] s[i])
}

/// The verdict on a new wallet's address: letters must be lower case, and
/// there must be no white space.
pub open spec fn address_verdict(address: Seq<char>) -> Result<(), AddressFault> {
    if has_non_lowercase_letter(address) {
        Err(AddressFault::NotLowercase)
    } else if has_whitespace(address) {
        Err(AddressFault::ContainsWhitespace)
    } else {
        Ok(())
    }
}

/// The amount (mantissa, scale) of a transfer request, when its text is a
/// decimal number.
pub open spec fn transfer_amount(text: Seq<char>) -> Option<(int, int)> {
    amount_of_text(text)
}

/// An amount with the given (mantissa, scale).
pub open spec fn amount_with(v: (int, int)) -> Amount {
    choose|a: Amount| a@ == v
}

/// The transaction a request asks for carries the request's fields.
pub open spec fn transaction_of(tx: Transaction, req: TransferReq, amount: (int, int)) -> bool {
    &&& tx.id == req.id
    &&& tx.sender == req.sender
    &&& tx.receiver == req.receiver
    &&& tx.amount@ == amount
    &&& tx.signature == req.signature
    &&& tx.timestamp == req.timestamp
    &&& tx.nonce == req.nonce
}

/// Checks the address of a wallet to be created.
pub fn check_wallet_address(address: &str) -> (res: Result<(), AddressFault>)
    ensures
        res == address_verdict(address@),
        // a letter that is not lower case, at any position, is refused
        forall|i: int|
            0 <= i < address@.len() && alphabetic(#[trigger] address@[i]) && !lowercase(address@[i])
                ==> res == Err::<(), AddressFault>(AddressFault::NotLowercase),
        // accepted: every letter lower case, no white space anywhere
        res is Ok <==> forall|i: int|
            0 <= i < address@.len() ==> !(alphabetic(#[trigger] address@[i]) && !lowercase(address@[i]))
                && !whitespace(address@[i]),
{
    let cs = chars_of(address);
    let mut i: usize = 0;
    while i < cs.len()
        invariant
            0 <= i <= cs@.len(),
            cs@ == address@,
            forall|j: int| 0 <= j < i ==> !(alphabetic(#[trigger] cs@[j]) && !lowercase(cs@[j])),
        decreases cs.len() - i,
    {
        if char_is_alphabetic(cs[i]) && !char_is_lowercase(cs[i]) {
            return Err(AddressFault::NotLowercase);
        }
        i = i + 1;
    }
    let mut k: usize = 0;
    while k < cs.len()
        invariant
            0 <= k <= cs@.len(),
            cs@ == address@,
            !has_non_lowercase_letter(address@),
            forall|j: int| 0 <= j < k ==> !whitespace(#[trigger] cs@[j]),
        decreases cs.len() - k,
    {
        if char_is_whitespace(cs[k]) {
            return Err(AddressFault::ContainsWhitespace);
        }
        k = k + 1;
    }
    Ok(())
}

/// Law: an address with a letter that is not lower case, at any position, is
/// refused as not lower case.
pub proof fn lemma_uppercase_anywhere_refused(address: Seq<char>, i: int)
    requires
        0 <= i < address.len(),
        alphabetic(address[i]),
        !lowercase(address[i]),
    ensures
        address_verdict(address) == Err::<(), AddressFault>(AddressFault::NotLowercase),
{
}

/// Law: an address whose letters are all lower case but which holds white
/// space, at any position, is refused for the white space.
pub proof fn lemma_whitespace_anywhere_refused(address: Seq<char>, i: int)
    requires
        0 <= i < address.len(),
        whitespace(address[i]),
        forall|j: int| 0 <= j < address.len() ==> !(alphabetic(#[trigger] address[j]) && !lowercase(address[j])),
    ensures
        address_verdict(address) == Err::<(), AddressFault>(AddressFault::ContainsWhitespace),
{
}

/// Law: an address is accepted exactly when every letter in it is lower case
/// and it holds no white space.
pub proof fn lemma_address_accepted(address: Seq<char>)
    ensures
        address_verdict(address) is Ok <==> forall|i: int|
            0 <= i < address.len() ==> !(alphabetic(#[trigger] address[i]) && !lowercase(address[i]))
                && !whitespace(address[i]),
{
}

impl AddressFault {
    /// The answer to a refused address.
    pub fn message(&self) -> (res: String)
        ensures
            res@ == match *self {
                AddressFault::NotLowercase => "address must be lowercase"@,
                AddressFault::ContainsWhitespace => "address contains white space"@,
            },
    {
        match self {
            AddressFault::NotLowercase => String::from_str("address must be lowercase"),
            AddressFault::ContainsWhitespace => String::from_str("address contains white space"),
        }
    }
}

impl TransferRejection {
    /// The answer to a refused transfer request.
    pub fn message(&self) -> (res: String)
        ensures
            res@ == match *self {
                TransferRejection::SelfTransfer => "cannot send to self"@,
                TransferRejection::InvalidAmount => "Invalid amount"@,
            },
    {
        match self {
            TransferRejection::SelfTransfer => String::from_str("cannot send to self"),
            TransferRejection::InvalidAmount => String::from_str("Invalid amount"),
        }
    }
}

/// The transaction a transfer request asks for, or why it is refused: a
/// transfer to oneself, or an amount that is no number.
pub fn prepare_transfer(req: &TransferReq) -> (res: Result<Transaction, TransferRejection>)
    ensures
        req.sender@ == req.receiver@ ==> res == Err::<Transaction, TransferRejection>(
            TransferRejection::SelfTransfer,
        ),
        req.sender@ != req.receiver@ && transfer_amount(req.amount@) is None ==> res == Err::<
            Transaction,
            TransferRejection,
        >(TransferRejection::InvalidAmount),
        req.sender@ != req.receiver@ && transfer_amount(req.amount@) is Some ==> (res matches Ok(
            tx,
        ) && transaction_of(tx, *req, transfer_amount(req.amount@)->0)),
{
    if req.sender == req.receiver {
        return Err(TransferRejection::SelfTransfer);
    }
    let amount = match parse_amount(req.amount.as_str()) {
        Some(a) => a,
        None => return Err(TransferRejection::InvalidAmount),
    };
    Ok(
        Transaction {
            id: req.id.clone(),
            sender: req.sender.clone(),
            receiver: req.receiver.clone(),
            amount,
            signature: req.signature.clone(),
            timestamp: req.timestamp,
            nonce: req.nonce,
        },
    )
}

/// The answer to a transfer whose signature check did not pass: `None` when
/// it passed.
pub fn signature_check_message(check: &Result<bool, SignatureFault>) -> (res: Option<String>)
    ensures
        match *check {
            Ok(true) => res is None,
            Ok(false) => res matches Some(m) && m@ == "Error verifying signature"@,
            Err(_) => res matches Some(m) && m@ == "Error verifying transaction signature"@,
        },
{
    match check {
        Ok(true) => None,
        Ok(false) => Some(String::from_str("Error verifying signature")),
        Err(_) => Some(String::from_str("Error verifying transaction signature")),
    }
}

/// The answer to a transfer that failed with the error.
pub open spec fn failure_text(err: AppError) -> Seq<char> {
    match err {
        AppError::InsufficientFunds => "insufficient funds!"@,
        AppError::IDMismatch => "Invalid transaction!"@,
        AppError::TransactionAlreadyExists => "Transaction already exists!"@,
        AppError::AccountNotFound(_) => "Account not found!"@,
        _ => "Error transferring coin"@,
    }
}

/// The answer to a transfer that was not applied.
pub fn transfer_failure_message(err: &AppError) -> (res: String)
    ensures
        res@ == failure_text(*err),
{
    match err {
        AppError::InsufficientFunds => String::from_str("insufficient funds!"),
        AppError::IDMismatch => String::from_str("Invalid transaction!"),
        AppError::TransactionAlreadyExists => String::from_str("Transaction already exists!"),
        AppError::AccountNotFound(_) => String::from_str("Account not found!"),
        _ => String::from_str("Error transferring coin"),
    }
}

/// The answer to an account verification: whether it succeeded, and its
/// message.
pub fn verify_account_answer(check: &Result<bool, SignatureFault>) -> (res: (bool, String))
    ensures
        match *check {
            Ok(true) => res.0 && res.1@ == "Ok!"@,
            Ok(false) => !res.0 && res.1@ == "Verification failed."@,
            Err(_) => !res.0 && res.1@ == "Error verifying signature"@,
        },
{
    match check {
        Ok(true) => (true, String::from_str("Ok!")),
        Ok(false) => (false, String::from_str("Verification failed.")),
        Err(_) => (false, String::from_str("Error verifying signature")),
    }
}

/// A request that is not carried out: whether the request itself is at fault
/// (answered as a bad request) rather than the node, and the message it is
/// answered with.
#[derive(Clone, Debug)]
pub struct Refusal {
    pub bad_request: bool,
    pub message: String,
}

/// The transaction a transfer request asks for, with the amount read from its
/// text.
pub open spec fn request_transaction(req: TransferReq, amount: (int, int)) -> Transaction {
    Transaction {
        id: req.id,
        sender: req.sender,
        receiver: req.receiver,
        amount: amount_with(amount),
        signature: req.signature,
        timestamp: req.timestamp,
        nonce: req.nonce,
    }
}

/// The message for a signed transaction that is not applied.
pub open spec fn not_applied_message(sender: Option<Account>, receiver: Option<Account>, tx: Transaction) -> Seq<char> {
    if sender is None || receiver is None {
        "Account not found!"@
    } else if !funds_ok(sender, receiver, tx) {
        "insufficient funds!"@
    } else if !normalizable(tx.amount) {
        "Error transferring coin"@
    } else if transaction_hash(tx) != tx.id@ {
        "Invalid transaction!"@
    } else {
        "Transaction already exists!"@
    }
}

/// The answer to a failed lookup of the sender's account, which the
/// signature check needs.
pub open spec fn sender_lookup_text(err: AppError) -> Seq<char> {
    match err {
        AppError::AccountNotFound(_) => "Account not found"@,
        _ => "Error verifying transaction signature"@,
    }
}

/// The account a lookup found, if any.
pub open spec fn found(lookup: Result<Option<Account>, AppError>) -> Option<Account> {
    match lookup {
        Ok(a) => a,
        Err(_) => None,
    }
}

/// How a transfer request is decided, given the lookups of its sender's and
/// its receiver's accounts in the store: the transaction to apply, or whether
/// the request is at fault and the message. The checks come in this order: a
/// transfer to oneself, the amount, the sender's signature (which needs the
/// sender's account), then the transfer rules (which need the receiver's).
pub open spec fn transfer_outcome(
    req: TransferReq,
    sender: Result<Option<Account>, AppError>,
    receiver: Result<Option<Account>, AppError>,
) -> Result<Transaction, (bool, Seq<char>)> {
    if req.sender@ == req.receiver@ {
        Err((true, "cannot send to self"@))
    } else {
        match transfer_amount(req.amount@) {
            None => Err((true, "Invalid amount"@)),
            Some(amount) => match sender {
                Err(e) => Err((false, sender_lookup_text(e))),
                Ok(s) => match signature_verdict(
                    public_key_of(s),
                    req.signature@,
                    encode_utf8(transfer_message(req)),
                ) {
                    Err(_) => Err((false, "Error verifying transaction signature"@)),
                    Ok(false) => Err((false, "Error verifying signature"@)),
                    Ok(true) => match receiver {
                        Err(e) => if s is None {
                            Err((false, "Account not found!"@))
                        } else {
                            Err((false, failure_text(e)))
                        },
                        Ok(r) => {
                            let tx = request_transaction(req, amount);
                            if transfer_accepted(s, r, tx) {
                                Ok(tx)
                            } else {
                                Err((false, not_applied_message(s, r, tx)))
                            }
                        },
                    },
                },
            },
        }
    }
}

/// Decides a transfer request, given the lookups of its sender's and its
/// receiver's accounts in the store (`Ok(None)` where there is no account).
/// Where it is carried out, both accounts come back with the transaction's
/// block at the end of their chains, for the store to save together.
pub fn transfer_request(
    req: &TransferReq,
    sender: Result<Option<Account>, AppError>,
    receiver: Result<Option<Account>, AppError>,
) -> (res: Result<(Account, Account), Refusal>)
    ensures
        match transfer_outcome(*req, sender, receiver) {
            Ok(tx) => (res matches Ok((s, r)) && appended(s, found(sender)->0, tx) && appended(
                r,
                found(receiver)->0,
                tx,
            )),
            Err((bad, message)) => (res matches Err(e) && e.bad_request == bad && e.message@ == message),
        },
{
    let tx = match prepare_transfer(req) {
        Ok(tx) => tx,
        Err(rejection) => return Err(Refusal { bad_request: true, message: rejection.message() }),
    };
    let ghost t2 = request_transaction(*req, transfer_amount(req.amount@)->0);
    assert(t2.amount@ == tx.amount@);
    assert(transaction_hash(t2) == transaction_hash(tx));
    let sender = match sender {
        Ok(s) => s,
        Err(e) => {
            let message = match e {
                AppError::AccountNotFound(_) => String::from_str("Account not found"),
                _ => String::from_str("Error verifying transaction signature"),
            };
            return Err(Refusal { bad_request: false, message });
        },
    };
    assert(funds_ok(sender, found(receiver), t2) == funds_ok(sender, found(receiver), tx));
    let check = Wallet::verify_transaction_signature(&sender, req);
    match signature_check_message(&check) {
        Some(message) => return Err(Refusal { bad_request: false, message }),
        None => {},
    }
    let receiver = match receiver {
        Ok(r) => r,
        Err(e) => {
            if sender.is_none() {
                return Err(Refusal { bad_request: false, message: String::from_str("Account not found!") });
            }
            return Err(Refusal { bad_request: false, message: transfer_failure_message(&e) });
        },
    };
    match Transfer::process_single_bf_transaction(sender, receiver, tx) {
        Ok(pair) => Ok(pair),
        Err(e) => Err(Refusal { bad_request: false, message: transfer_failure_message(&e) }),
    }
}

/// How a request for a new wallet is decided, given the lookup of an account
/// with its address: the address is checked first, then whether the lookup
/// failed or found an account.
pub open spec fn wallet_outcome(req: CreateWalletReq, lookup: Result<Option<Account>, AppError>) -> Result<(), (bool, Seq<char>)> {
    match address_verdict(req.address@) {
        Err(AddressFault::NotLowercase) => Err((true, "address must be lowercase"@)),
        Err(AddressFault::ContainsWhitespace) => Err((true, "address contains white space"@)),
        Ok(()) => match lookup {
            Err(_) => Err((false, "error gettting account"@)),
            Ok(Some(_)) => Err((true, "Account already exists"@)),
            Ok(None) => Ok(()),
        },
    }
}

/// Decides a request for a new wallet, given the lookup of an account with its
/// address in the store: the new account (with the id and creation time
/// given), or the refusal.
pub fn wallet_request(req: CreateWalletReq, lookup: &Result<Option<Account>, AppError>, id: String, created_at: String) -> (res: Result<Account, Refusal>)
    ensures
        match wallet_outcome(req, *lookup) {
            Ok(()) => (res matches Ok(acc) && acc.id == id && acc.address == req.address
                && acc.wallet_name == req.wallet_name && acc.public_key == req.public_key
                && acc.nonce == 0 && acc.chain@.len() == 0 && acc.created_at == created_at
                && acc.balance@ == opening_balance(req.address@)),
            Err((bad, message)) => (res matches Err(e) && e.bad_request == bad && e.message@ == message),
        },
{
    match check_wallet_address(req.address.as_str()) {
        Err(fault) => return Err(Refusal { bad_request: true, message: fault.message() }),
        Ok(()) => {},
    }
    match lookup {
        Err(_) => return Err(Refusal { bad_request: false, message: String::from_str("error gettting account") }),
        Ok(Some(_)) => return Err(Refusal { bad_request: true, message: String::from_str("Account already exists") }),
        Ok(None) => {},
    }
    Ok(Wallet::create_wallet_r(req, id, created_at))
}

/// `new` is `old` with its balance recomputed from its chain.
pub open spec fn balance_recomputed(new: Account, old: Account) -> bool {
    &&& new.id == old.id
    &&& new.address == old.address
    &&& new.wallet_name == old.wallet_name
    &&& new.public_key == old.public_key
    &&& new.nonce == old.nonce
    &&& new.chain == old.chain
    &&& new.created_at == old.created_at
    &&& balance_of(new.balance, old.chain@, old.address@)
}

/// Answers a request for an account (or its balance), given the lookup of the
/// account in the store: the account with its balance recomputed from its
/// chain, or the refusal (a failed lookup is the node's fault, a missing
/// account the request's).
pub fn account_request(lookup: Result<Option<Account>, AppError>) -> (res: Result<Account, Refusal>)
    requires
        lookup matches Ok(Some(a)) ==> scales_compatible(a.chain@, a.address@),
    ensures
        match lookup {
            Err(_) => (res matches Err(e) && !e.bad_request && e.message@ == "error gettting account"@),
            Ok(None) => (res matches Err(e) && e.bad_request && e.message@ == "Account does not ecist"@),
            Ok(Some(a)) => (res matches Ok(acc) && balance_recomputed(acc, a)),
        },
{
    match lookup {
        Err(_) => Err(Refusal { bad_request: false, message: String::from_str("error gettting account") }),
        Ok(None) => Err(Refusal { bad_request: true, message: String::from_str("Account does not ecist") }),
        Ok(Some(mut a)) => {
            a.get_balance();
            Ok(a)
        },
    }
}

} // verus!
