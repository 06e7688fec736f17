use vhenncoin::amount::Amount;
use vhenncoin::chain::ChainX;
use vhenncoin::controllers::{
    check_wallet_address, prepare_transfer, signature_check_message, transfer_failure_message,
    account_request, transfer_request, verify_account_answer, wallet_request, AddressFault,
    TransferRejection,
};
use vhenncoin::errors::{AppError, MyError, MyErrorTypes, TransferError};
use vhenncoin::identity::DigitalID;
use vhenncoin::models::{
    Account, CreateWalletReq, LimitPeriod, Mempool, MongoWalletX, TBlock, Transaction, TransferReq,
    UserID,
};
use vhenncoin::transfer::Transfer;
use vhenncoin::wallet::{SignatureFault, Wallet};

use k256::ecdsa::signature::DigestSigner;
use k256::ecdsa::{Signature, SigningKey};
use sha2::{Digest, Sha256};

fn amt(m: i64, s: i64) -> Amount {
    Amount::new(m, s)
}

fn parts(a: &Amount) -> (i128, i64) {
    let mut v: i128 = 0;
    for b in a.magnitude.iter().rev() {
        v = v * 256 + *b as i128;
    }
    (if a.negative { -v } else { v }, a.scale)
}

fn block(id: &str, sender: &str, receiver: &str, m: i64, s: i64) -> TBlock {
    TBlock {
        id: id.to_string(),
        sender: sender.to_string(),
        receiver: receiver.to_string(),
        timestamp: 7,
        amount: amt(m, s),
    }
}

fn account(address: &str, public_key: &str, balance: Amount, chain: Vec<TBlock>) -> Account {
    Account {
        id: format!("id-{}", address),
        address: address.to_string(),
        wallet_name: format!("{} wallet", address),
        public_key: public_key.to_string(),
        nonce: 0,
        chain,
        created_at: "01/01/2025 00:00:00".to_string(),
        balance,
    }
}

fn expected_hash(timestamp: u64, sender: &str, receiver: &str, amount_text: &str) -> String {
    let mut h = Sha256::new();
    h.update(timestamp.to_be_bytes());
    h.update(sender.as_bytes());
    h.update(receiver.as_bytes());
    h.update(amount_text.as_bytes());
    hex::encode(h.finalize())
}

fn signing_key() -> SigningKey {
    let bytes = [7u8; 32];
    SigningKey::from_bytes(k256::FieldBytes::from_slice(&bytes)).unwrap()
}

fn public_key_hex(sk: &SigningKey) -> String {
    hex::encode(sk.verifying_key().to_encoded_point(true).as_bytes())
}

fn sign(sk: &SigningKey, message: &str) -> String {
    let mut d = Sha256::new();
    d.update(message.as_bytes());
    let sig: Signature = sk.sign_digest(d);
    hex::encode(sig.to_bytes())
}

fn tx_between(sender: &str, receiver: &str, amount: Amount, timestamp: u64) -> Transaction {
    let mut tx = Transaction {
        id: String::new(),
        sender: sender.to_string(),
        receiver: receiver.to_string(),
        amount,
        signature: "00".to_string(),
        timestamp,
        nonce: 0,
    };
    tx.id = Transfer::get_transaction_hash(&tx);
    tx
}

#[test]
fn amount_parse_gives_digits_and_scale() {
    let a = Amount::parse("10.50").unwrap();
    assert_eq!(parts(&a), (1050, 2));
    let b = Amount::parse("-3").unwrap();
    assert_eq!(parts(&b), (-3, 0));
    assert!(Amount::parse("ten").is_none());
    assert!(Amount::parse("").is_none());
}

#[test]
fn amount_text_is_bigdecimal_display() {
    assert_eq!(amt(1050, 2).to_text(), "10.50");
    assert_eq!(amt(5, 0).to_text(), "5");
    let z = Amount::zero();
    assert_eq!(parts(&z), (0, 0));
}

#[test]
fn balance_sums_credits_and_debits() {
    let chain = vec![
        block("a", "genesis", "alice", 1000, 1),
        block("b", "alice", "bob", 250, 2),
        block("c", "carol", "dave", 5, 0),
        block("d", "bob", "alice", 1, 0),
    ];
    let mut acc = account("alice", "", Amount::zero(), chain);
    let r = acc.get_balance();
    // 100.0 - 2.50 + 1 = 98.50
    assert_eq!(parts(&r), (9850, 2));
    assert_eq!(parts(&acc.balance).0, 9850);
    assert_eq!(acc.chain.len(), 4);
}

#[test]
fn balance_of_empty_chain_is_zero() {
    let mut acc = account("alice", "", amt(12, 0), vec![]);
    let r = acc.get_balance();
    assert_eq!(parts(&r), (0, 0));
}

#[test]
fn balance_beyond_machine_integers_is_exact() {
    let big = Amount::parse("170141183460469231731687303715884105727").unwrap();
    let chain = vec![
        TBlock { id: "a".to_string(), sender: "x".to_string(), receiver: "alice".to_string(), timestamp: 7, amount: big.clone() },
        TBlock { id: "b".to_string(), sender: "y".to_string(), receiver: "alice".to_string(), timestamp: 7, amount: big },
        block("c", "alice", "z", 4, 0),
    ];
    let mut acc = account("alice", "", amt(3, 0), chain);
    assert!(acc.balance_computable());
    let r = acc.get_balance();
    assert_eq!(r.to_text(), "340282366920938463463374607431768211450");
    assert_eq!(acc.balance.to_text(), "340282366920938463463374607431768211450");
}

#[test]
fn balance_needs_close_scales() {
    let chain = vec![block("a", "x", "alice", 1, i64::MIN), block("b", "alice", "y", 1, 5)];
    let acc = account("alice", "", amt(3, 0), chain);
    assert!(!acc.balance_computable());
    let ok = account("alice", "", amt(3, 0), vec![block("a", "x", "alice", 1, -7), block("b", "alice", "y", 1, 5)]);
    assert!(ok.balance_computable());
}

#[test]
fn self_transfer_block_counts_as_credit() {
    let mut acc = account("alice", "", Amount::zero(), vec![block("a", "alice", "alice", 4, 0)]);
    let r = acc.get_balance();
    assert_eq!(parts(&r).0 * 10i128.pow((0 - r.scale) as u32), 4);
}

#[test]
fn transaction_hash_is_sha256_of_fields() {
    let tx = tx_between("alice", "bob", amt(1050, 2), 1700000000);
    // the amount is normalized: 10.50 -> 10.5
    assert_eq!(tx.id, expected_hash(1700000000, "alice", "bob", "10.5"));
    let tx2 = tx_between("alice", "bob", amt(500, 2), 1);
    assert_eq!(tx2.id, expected_hash(1, "alice", "bob", "5"));
}

#[test]
fn transfer_appends_block_to_both_chains() {
    let tx = tx_between("alice", "bob", amt(25, 0), 9);
    let sender = account("alice", "", amt(100, 0), vec![]);
    let receiver = account("bob", "", Amount::zero(), vec![]);
    let (s, r) = Transfer::process_single_bf_transaction(Some(sender), Some(receiver), tx.clone()).unwrap();
    assert_eq!(s.chain.len(), 1);
    assert_eq!(r.chain.len(), 1);
    assert_eq!(s.chain[0].id, tx.id);
    assert_eq!(parts(&r.chain[0].amount).0, 25);
    let mut s2 = s.clone();
    let mut r2 = r.clone();
    assert_eq!(parts(&s2.get_balance()).0, -25);
    assert_eq!(parts(&r2.get_balance()).0, 25);
    // the same transaction cannot be applied again
    let again = Transfer::process_single_bf_transaction(Some(s), Some(r), tx);
    assert!(matches!(again, Err(AppError::TransactionAlreadyExists)));
}

#[test]
fn transfer_errors() {
    let tx = tx_between("alice", "bob", amt(25, 0), 9);
    let rich = account("alice", "", amt(100, 0), vec![]);
    let poor = account("alice", "", amt(10, 0), vec![]);
    let bob = account("bob", "", Amount::zero(), vec![]);
    match Transfer::process_single_bf_transaction(None, Some(bob.clone()), tx.clone()) {
        Err(AppError::AccountNotFound(a)) => assert_eq!(a, "alice"),
        _ => panic!("expected missing sender"),
    }
    match Transfer::process_single_bf_transaction(Some(rich.clone()), None, tx.clone()) {
        Err(AppError::AccountNotFound(a)) => assert_eq!(a, "bob"),
        _ => panic!("expected missing receiver"),
    }
    assert!(matches!(
        Transfer::process_single_bf_transaction(Some(poor), Some(bob.clone()), tx.clone()),
        Err(AppError::InsufficientFunds)
    ));
    let mut forged = tx.clone();
    forged.id = "abc".to_string();
    assert!(matches!(
        Transfer::process_single_bf_transaction(Some(rich.clone()), Some(bob.clone()), forged),
        Err(AppError::IDMismatch)
    ));
    let mut wrong_nonce = tx.clone();
    wrong_nonce.nonce = 1;
    assert!(matches!(
        Transfer::process_single_bf_transaction(Some(rich), Some(bob), wrong_nonce),
        Err(AppError::InsufficientFunds)
    ));
}

#[test]
fn amount_equal_to_balance_is_affordable() {
    let tx = tx_between("alice", "bob", amt(1000, 1), 3);
    let sender = account("alice", "", amt(100, 0), vec![]);
    let receiver = account("bob", "", Amount::zero(), vec![]);
    assert!(Wallet::verify_transaction_amount(&Some(sender.clone()), &Some(receiver.clone()), &tx));
    let mut more = tx.clone();
    more.amount = amt(10001, 2);
    assert!(!Wallet::verify_transaction_amount(&Some(sender.clone()), &Some(receiver), &more));
    assert!(!Wallet::verify_transaction_amount(&Some(sender), &None, &tx));
}

#[test]
fn transfer_signature_is_checked() {
    let sk = signing_key();
    let pk = public_key_hex(&sk);
    let sender = account("alice", &pk, amt(100, 0), vec![]);
    let mut req = TransferReq {
        sender: "alice".to_string(),
        amount: "12.5".to_string(),
        receiver: "bob".to_string(),
        id: "x".to_string(),
        timestamp: 1,
        signature: String::new(),
        nonce: 3,
    };
    assert_eq!(Wallet::transaction_data(&req), "alicebob12.53");
    req.signature = sign(&sk, "alicebob12.53");
    assert_eq!(Wallet::verify_transaction_signature(&Some(sender.clone()), &req), Ok(true));
    let mut other = req.clone();
    other.amount = "13".to_string();
    assert_eq!(Wallet::verify_transaction_signature(&Some(sender.clone()), &other), Ok(false));
    let mut bad_hex = req.clone();
    bad_hex.signature = "zz".to_string();
    assert_eq!(
        Wallet::verify_transaction_signature(&Some(sender.clone()), &bad_hex),
        Err(SignatureFault::SignatureHex)
    );
    let mut short = req.clone();
    short.signature = "abcd".to_string();
    assert_eq!(
        Wallet::verify_transaction_signature(&Some(sender), &short),
        Err(SignatureFault::Signature)
    );
    assert_eq!(Wallet::verify_transaction_signature(&None, &req), Err(SignatureFault::PublicKey));
    let odd = account("alice", "abc", amt(100, 0), vec![]);
    assert_eq!(
        Wallet::verify_transaction_signature(&Some(odd), &bad_hex),
        Err(SignatureFault::PublicKeyHex)
    );
    let not_a_point = account("alice", "0011", amt(100, 0), vec![]);
    assert_eq!(
        Wallet::verify_transaction_signature(&Some(not_a_point), &bad_hex),
        Err(SignatureFault::PublicKey)
    );
}

#[test]
fn message_signature_is_checked() {
    let sk = signing_key();
    let acc = account("alice", &public_key_hex(&sk), Amount::zero(), vec![]);
    let sig = sign(&sk, "hello");
    assert_eq!(Wallet::verify_signature(&Some(acc.clone()), "hello", &sig), Ok(true));
    assert_eq!(Wallet::verify_signature(&Some(acc), "hullo", &sig), Ok(false));
}

#[test]
fn compressed_pubkey_from_seed() {
    let seed = "marryana# welinton park boys";
    let hash = Sha256::digest(seed.as_bytes());
    let sk = SigningKey::from_bytes(&hash).unwrap();
    let expected = public_key_hex(&sk);
    assert_eq!(Wallet::generate_compressed_pubkey(seed), Some(expected.clone()));
    assert_eq!(expected.len(), 66);
}

#[test]
fn genesis_wallet_gets_supply() {
    let req = CreateWalletReq {
        address: "genesis".to_string(),
        wallet_name: "g".to_string(),
        public_key: "pk".to_string(),
    };
    let acc = Wallet::create_wallet_r(req, "id1".to_string(), "now".to_string());
    assert_eq!(parts(&acc.balance), (99900000000000, 0));
    assert_eq!(acc.nonce, 0);
    assert!(acc.chain.is_empty());
    let req2 = CreateWalletReq {
        address: "kennyblock_345#".to_string(),
        wallet_name: "k".to_string(),
        public_key: "pk".to_string(),
    };
    let acc2 = Wallet::create_wallet_r(req2, "id2".to_string(), "now".to_string());
    assert_eq!(parts(&acc2.balance), (0, 0));
    assert_eq!(acc2.address, "kennyblock_345#");
    assert_eq!(acc2.id, "id2");
}

#[test]
fn wallet_address_rules() {
    assert_eq!(check_wallet_address("kennyblock_345#"), Ok(()));
    assert_eq!(check_wallet_address("denny_jones_groups_mmg3"), Ok(()));
    assert_eq!(check_wallet_address("Denny"), Err(AddressFault::NotLowercase));
    assert_eq!(check_wallet_address("denny jones"), Err(AddressFault::ContainsWhitespace));
    assert_eq!(check_wallet_address("Denny jones"), Err(AddressFault::NotLowercase));
    assert_eq!(AddressFault::NotLowercase.message(), "address must be lowercase");
    assert_eq!(AddressFault::ContainsWhitespace.message(), "address contains white space");
}

#[test]
fn transfer_request_precheck() {
    let req = TransferReq {
        sender: "alice".to_string(),
        amount: "1.25".to_string(),
        receiver: "bob".to_string(),
        id: "id".to_string(),
        timestamp: 5,
        signature: "sig".to_string(),
        nonce: 2,
    };
    let tx = prepare_transfer(&req).unwrap();
    assert_eq!(parts(&tx.amount), (125, 2));
    assert_eq!(tx.nonce, 2);
    assert_eq!(tx.signature, "sig");
    let mut same = req.clone();
    same.receiver = "alice".to_string();
    assert!(matches!(prepare_transfer(&same), Err(TransferRejection::SelfTransfer)));
    let mut bad = req.clone();
    bad.amount = "lots".to_string();
    assert!(matches!(prepare_transfer(&bad), Err(TransferRejection::InvalidAmount)));
    assert_eq!(TransferRejection::SelfTransfer.message(), "cannot send to self");
    assert_eq!(TransferRejection::InvalidAmount.message(), "Invalid amount");
}

#[test]
fn answers_to_outcomes() {
    assert_eq!(transfer_failure_message(&AppError::InsufficientFunds), "insufficient funds!");
    assert_eq!(transfer_failure_message(&AppError::IDMismatch), "Invalid transaction!");
    assert_eq!(transfer_failure_message(&AppError::TransactionAlreadyExists), "Transaction already exists!");
    assert_eq!(transfer_failure_message(&AppError::AccountNotFound("x".to_string())), "Account not found!");
    assert_eq!(transfer_failure_message(&AppError::ValidationError), "Error transferring coin");
    assert_eq!(signature_check_message(&Ok(true)), None);
    assert_eq!(signature_check_message(&Ok(false)), Some("Error verifying signature".to_string()));
    assert_eq!(
        signature_check_message(&Err(SignatureFault::PublicKey)),
        Some("Error verifying transaction signature".to_string())
    );
    assert_eq!(verify_account_answer(&Ok(true)), (true, "Ok!".to_string()));
    assert_eq!(verify_account_answer(&Ok(false)), (false, "Verification failed.".to_string()));
    assert_eq!(verify_account_answer(&Err(SignatureFault::Signature)), (false, "Error verifying signature".to_string()));
}

#[test]
fn password_validation() {
    let user = UserID {
        id: "1".to_string(),
        user_name: "kenny".to_string(),
        password_hash: sha256::digest("s3cret"),
        date_created: String::new(),
        recovery_answer: String::new(),
        recovery_question: String::new(),
        is_image_verification_linked: false,
    };
    assert!(DigitalID::validate_user(&user, "s3cret").is_ok());
    assert!(matches!(DigitalID::validate_user(&user, "guess"), Err(AppError::ValidationError)));
    assert_eq!(
        sha256::digest("hello"),
        "2cf24dba5fb0a30e26e83b2ac5b9e29e1b161e5c1fa7425e73043362938b9824"
    );
}

#[test]
fn block_hash_is_hex_sha256_of_text() {
    let h = ChainX::calculate_block_hash("hello");
    assert_eq!(h, "2cf24dba5fb0a30e26e83b2ac5b9e29e1b161e5c1fa7425e73043362938b9824");
}

#[test]
fn mempool_lists_all_transactions() {
    let empty = Mempool::new();
    assert!(Transfer::get_all_transactions(empty).is_empty());
    let t1 = tx_between("a", "b", amt(1, 0), 1);
    let t2 = tx_between("a", "c", amt(2, 0), 2);
    let t3 = tx_between("d", "c", amt(3, 0), 3);
    let pool = Mempool {
        transactions: vec![("a".to_string(), vec![t1, t2]), ("d".to_string(), vec![t3])],
    };
    let all = Transfer::get_all_transactions(pool);
    let amounts: Vec<i128> = all.iter().map(|t| parts(&t.amount).0).collect();
    assert_eq!(amounts, vec![1, 2, 3]);
}

#[test]
fn error_messages() {
    assert_eq!(AppError::ValidationError.message(), "Validation error");
    assert_eq!(AppError::OpenTableError("boom".to_string()).message(), "Database error boom");
    assert_eq!(TransferError::TransactionExistsInMempool.message(), "Trnasaction already exists in blockchain");
    let e = MyError { error: MyErrorTypes::TransferWalletNotFound };
    assert_eq!(e.message(), "Transfer wallet not found");
}

#[test]
fn default_wallet_record_is_empty() {
    let w = MongoWalletX::default();
    assert!(w.id.is_empty() && w.address.is_empty() && w.wallet_name.is_empty() && w.password_hash.is_empty());
    assert_eq!(LimitPeriod::Daily, LimitPeriod::Daily);
}

fn signed_request(sk: &SigningKey, sender: &str, receiver: &str, amount: &str, timestamp: u64) -> TransferReq {
    let parsed = Amount::parse(amount).unwrap();
    let tx = tx_between(sender, receiver, parsed, timestamp);
    let mut req = TransferReq {
        sender: sender.to_string(),
        amount: amount.to_string(),
        receiver: receiver.to_string(),
        id: tx.id,
        timestamp,
        signature: String::new(),
        nonce: 0,
    };
    req.signature = sign(sk, &Wallet::transaction_data(&req));
    req
}

#[test]
fn transfer_request_carried_out_end_to_end() {
    let sk = signing_key();
    let alice = account("alice", &public_key_hex(&sk), amt(100, 0), vec![]);
    let bob = account("bob", "", Amount::zero(), vec![]);
    let req = signed_request(&sk, "alice", "bob", "12.5", 9);
    let (s, r) = transfer_request(&req, Ok(Some(alice.clone())), Ok(Some(bob.clone()))).unwrap();
    assert_eq!(s.chain.len(), 1);
    assert_eq!(r.chain.len(), 1);
    assert_eq!(s.chain[0].id, req.id);
    assert_eq!(parts(&s.chain[0].amount), (125, 1));
    // the same request again is refused: its id is in the sender's chain now
    let again = transfer_request(&req, Ok(Some(s)), Ok(Some(r))).unwrap_err();
    assert!(!again.bad_request);
    assert_eq!(again.message, "Transaction already exists!");
}

#[test]
fn transfer_request_refusals() {
    let sk = signing_key();
    let alice = account("alice", &public_key_hex(&sk), amt(100, 0), vec![]);
    let bob = account("bob", "", Amount::zero(), vec![]);
    let req = signed_request(&sk, "alice", "bob", "12.5", 9);

    let mut to_self = req.clone();
    to_self.receiver = "alice".to_string();
    let e = transfer_request(&to_self, Ok(Some(alice.clone())), Ok(Some(bob.clone()))).unwrap_err();
    assert_eq!((e.bad_request, e.message.as_str()), (true, "cannot send to self"));

    let mut no_number = req.clone();
    no_number.amount = "twelve".to_string();
    let e = transfer_request(&no_number, Ok(Some(alice.clone())), Ok(Some(bob.clone()))).unwrap_err();
    assert_eq!((e.bad_request, e.message.as_str()), (true, "Invalid amount"));

    let mut forged = req.clone();
    forged.signature = sign(&sk, "something else");
    let e = transfer_request(&forged, Ok(Some(alice.clone())), Ok(Some(bob.clone()))).unwrap_err();
    assert_eq!((e.bad_request, e.message.as_str()), (false, "Error verifying signature"));

    let e = transfer_request(&req, Ok(None), Ok(Some(bob.clone()))).unwrap_err();
    assert_eq!((e.bad_request, e.message.as_str()), (false, "Error verifying transaction signature"));

    let e = transfer_request(&req, Ok(Some(alice.clone())), Ok(None)).unwrap_err();
    assert_eq!((e.bad_request, e.message.as_str()), (false, "Account not found!"));

    let poor = account("alice", &public_key_hex(&sk), amt(1, 0), vec![]);
    let e = transfer_request(&req, Ok(Some(poor)), Ok(Some(bob.clone()))).unwrap_err();
    assert_eq!((e.bad_request, e.message.as_str()), (false, "insufficient funds!"));

    let mut wrong_id = signed_request(&sk, "alice", "bob", "12.5", 9);
    wrong_id.id = "not-the-hash".to_string();
    let e = transfer_request(&wrong_id, Ok(Some(alice)), Ok(Some(bob))).unwrap_err();
    assert_eq!((e.bad_request, e.message.as_str()), (false, "Invalid transaction!"));
}

#[test]
fn wallet_request_decisions() {
    let req = CreateWalletReq {
        address: "genesis".to_string(),
        wallet_name: "g".to_string(),
        public_key: "pk".to_string(),
    };
    let acc = wallet_request(req.clone(), &Ok(None), "id1".to_string(), "now".to_string()).unwrap();
    assert_eq!(parts(&acc.balance), (99900000000000, 0));
    assert_eq!(acc.created_at, "now");
    let existing: Result<Option<Account>, AppError> = Ok(Some(acc));
    let e = wallet_request(req, &existing, "id2".to_string(), "now".to_string()).unwrap_err();
    assert_eq!((e.bad_request, e.message.as_str()), (true, "Account already exists"));
    let upper = CreateWalletReq {
        address: "Genesis".to_string(),
        wallet_name: "g".to_string(),
        public_key: "pk".to_string(),
    };
    let e = wallet_request(upper, &existing, "id3".to_string(), "now".to_string()).unwrap_err();
    assert_eq!((e.bad_request, e.message.as_str()), (true, "address must be lowercase"));
    let spaced = CreateWalletReq {
        address: "gen esis".to_string(),
        wallet_name: "g".to_string(),
        public_key: "pk".to_string(),
    };
    let e = wallet_request(spaced, &Ok(None), "id4".to_string(), "now".to_string()).unwrap_err();
    assert_eq!((e.bad_request, e.message.as_str()), (true, "address contains white space"));
}

#[test]
fn transfer_of_amount_beyond_machine_integers() {
    let sk = signing_key();
    let rich = Amount::parse("1000000000000000000000000000000000000000000").unwrap();
    let alice = account("alice", &public_key_hex(&sk), rich, vec![]);
    let bob = account("bob", "", Amount::zero(), vec![]);
    let req = signed_request(&sk, "alice", "bob", "999999999999999999999999999999999999999999.5", 4);
    let (s, r) = transfer_request(&req, Ok(Some(alice)), Ok(Some(bob))).unwrap();
    assert_eq!(s.chain[0].amount.to_text(), "999999999999999999999999999999999999999999.5");
    assert_eq!(r.chain.len(), 1);
}

#[test]
fn ids_and_keys_have_fixed_lengths() {
    let tx = tx_between("alice", "bob", amt(1, 0), 1);
    assert_eq!(tx.id.len(), 64);
    assert_eq!(ChainX::calculate_block_hash("{}").len(), 64);
    let key = Wallet::generate_compressed_pubkey("marryana# welinton park boys").unwrap();
    assert_eq!(key.len(), 66);
    assert!(key.starts_with("02") || key.starts_with("03"));
}

#[test]
fn account_request_answers() {
    let chain = vec![block("a", "genesis", "alice", 10, 0), block("b", "alice", "bob", 3, 0)];
    let acc = account("alice", "", amt(99, 0), chain);
    let found = account_request(Ok(Some(acc))).unwrap();
    assert_eq!(parts(&found.balance), (7, 0));
    assert_eq!(found.chain.len(), 2);
    let e = account_request(Ok(None)).unwrap_err();
    assert_eq!((e.bad_request, e.message.as_str()), (true, "Account does not ecist"));
    let e = account_request(Err(AppError::OpenTableError("x".to_string()))).unwrap_err();
    assert_eq!((e.bad_request, e.message.as_str()), (false, "error gettting account"));
}

#[test]
fn unnormalizable_amount_is_refused_where_the_id_is_computed() {
    let sk = signing_key();
    let huge = Amount::parse("1000e9223372036854775807").unwrap();
    let alice = account("alice", &public_key_hex(&sk), huge, vec![]);
    let bob = account("bob", "", Amount::zero(), vec![]);
    let mut req = TransferReq {
        sender: "alice".to_string(),
        amount: "100e9223372036854775807".to_string(),
        receiver: "bob".to_string(),
        id: "any".to_string(),
        timestamp: 1,
        signature: String::new(),
        nonce: 0,
    };
    // the amount parses, so the signature is checked first
    req.signature = sign(&sk, "something else");
    let e = transfer_request(&req, Ok(Some(alice.clone())), Ok(Some(bob.clone()))).unwrap_err();
    assert_eq!((e.bad_request, e.message.as_str()), (false, "Error verifying signature"));
    // signed and affordable: refused where the id would be computed
    req.signature = sign(&sk, &Wallet::transaction_data(&req));
    let e = transfer_request(&req, Ok(Some(alice.clone())), Ok(Some(bob.clone()))).unwrap_err();
    assert_eq!((e.bad_request, e.message.as_str()), (false, "Error transferring coin"));
    // not affordable: the funds rule answers first
    let poor = account("alice", &public_key_hex(&sk), amt(1, 0), vec![]);
    let e = transfer_request(&req, Ok(Some(poor)), Ok(Some(bob))).unwrap_err();
    assert_eq!((e.bad_request, e.message.as_str()), (false, "insufficient funds!"));
}

#[test]
fn lookup_failures_are_answered_in_order() {
    let sk = signing_key();
    let alice = account("alice", &public_key_hex(&sk), amt(100, 0), vec![]);
    let req = signed_request(&sk, "alice", "bob", "12.5", 9);
    let failed = || AppError::OpenTableError("down".to_string());
    let e = transfer_request(&req, Err(failed()), Ok(None)).unwrap_err();
    assert_eq!((e.bad_request, e.message.as_str()), (false, "Error verifying transaction signature"));
    let e = transfer_request(&req, Ok(Some(alice)), Err(failed())).unwrap_err();
    assert_eq!((e.bad_request, e.message.as_str()), (false, "Error transferring coin"));
    let mut to_self = req.clone();
    to_self.receiver = "alice".to_string();
    let e = transfer_request(&to_self, Err(failed()), Err(failed())).unwrap_err();
    assert_eq!((e.bad_request, e.message.as_str()), (true, "cannot send to self"));

    let bad = CreateWalletReq { address: "Bad".to_string(), wallet_name: "b".to_string(), public_key: "pk".to_string() };
    let e = wallet_request(bad, &Err(failed()), "i".to_string(), "now".to_string()).unwrap_err();
    assert_eq!((e.bad_request, e.message.as_str()), (true, "address must be lowercase"));
    let good = CreateWalletReq { address: "good".to_string(), wallet_name: "g".to_string(), public_key: "pk".to_string() };
    let e = wallet_request(good, &Err(failed()), "i".to_string(), "now".to_string()).unwrap_err();
    assert_eq!((e.bad_request, e.message.as_str()), (false, "error gettting account"));
}

#[test]
fn no_account_means_no_key() {
    assert_eq!(Wallet::verify_signature(&None, "hello", "00"), Err(SignatureFault::PublicKey));
}
