//! The errors of the ledger and their messages.

use vstd::prelude::*;

verus! {

/// The errors that the ledger's operations report.
#[derive(Clone, Debug)]
pub enum AppError {
    ValidationError,
    CreateDatabaseError(String),
    DatabaseInsertError(String),
    OpenTableError(String),
    ErrorInsertingData(String),
    HexDecodeError(String),
    VerifyKeyError(String),
    SignatureError(String),
    SerializationError(String),
    BigDecimalConversionError(String),
    UnexpectedError(String),
    AccountNotFound(String),
    InsufficientFunds,
    IDMismatch,
    TransactionAlreadyExists,
}

/// Errors of a transfer.
#[derive(Clone, Copy, Debug, PartialEq, Eq, Structural)]
pub enum TransferError {
    InvalidSignature,
    ErrorWhileVerifyingTransaction,
    TransactionExistsInMempool,
}

#[derive(Clone, Copy, Debug, PartialEq, Eq, Structural)]
pub enum MyErrorTypes {
    TransferWalletNotFound,
}

#[derive(Clone, Copy, Debug)]
pub struct MyError {
    pub error: MyErrorTypes,
}

/// `prefix` followed by `payload`.
fn prefixed(prefix: &str, payload: &String) -> (res: String)
    ensures
        res@ == prefix@ + payload@,
{
    let mut s = String::from_str(prefix);
    s.append(payload.as_str());
    s
}

/// The message of an error.
pub open spec fn app_error_text(e: AppError) -> Seq<char> {
    match e {
        AppError::ValidationError => "Validation error"@,
        AppError::CreateDatabaseError(s) => "Error connecting to database "@ + s@,
        AppError::DatabaseInsertError(s) => "Error inserting data "@ + s@,
        AppError::OpenTableError(s) => "Database error "@ + s@,
        AppError::ErrorInsertingData(_) => "Error saving data"@,
        AppError::HexDecodeError(s) => "Hex decode error "@ + s@,
        AppError::VerifyKeyError(s) => "Verify key error "@ + s@,
        AppError::SignatureError(s) => "error with signature "@ + s@,
        AppError::SerializationError(s) => "Serialization Error "@ + s@,
        AppError::BigDecimalConversionError(s) => "Error with big decimal conversion "@ + s@,
        AppError::UnexpectedError(s) => "Error occurred "@ + s@,
        AppError::AccountNotFound(s) => "Account not found "@ + s@,
        AppError::InsufficientFunds => "Insufficient funds"@,
        AppError::IDMismatch => "Transaction id mismatch"@,
        AppError::TransactionAlreadyExists => "Transaction already exists"@,
    }
}

impl AppError {
    /// The message of the error.
    pub fn message(&self) -> (res: String)
        ensures
            res@ == app_error_text(*self),
    {
        match self {
            AppError::ValidationError => String::from_str("Validation error"),
            AppError::CreateDatabaseError(s) => prefixed("Error connecting to database ", s),
            AppError::DatabaseInsertError(s) => prefixed("Error inserting data ", s),
            AppError::OpenTableError(s) => prefixed("Database error ", s),
            AppError::ErrorInsertingData(_) => String::from_str("Error saving data"),
            AppError::HexDecodeError(s) => prefixed("Hex decode error ", s),
            AppError::VerifyKeyError(s) => prefixed("Verify key error ", s),
            AppError::SignatureError(s) => prefixed("error with signature ", s),
            AppError::SerializationError(s) => prefixed("Serialization Error ", s),
            AppError::BigDecimalConversionError(s) => prefixed("Error with big decimal conversion ", s),
            AppError::UnexpectedError(s) => prefixed("Error occurred ", s),
            AppError::AccountNotFound(s) => prefixed("Account not found ", s),
            AppError::InsufficientFunds => String::from_str("Insufficient funds"),
            AppError::IDMismatch => String::from_str("Transaction id mismatch"),
            AppError::TransactionAlreadyExists => String::from_str("Transaction already exists"),
        }
    }
}

impl TransferError {
    /// The message of the error.
    pub fn message(&self) -> (res: String)
        ensures
            res@ == match *self {
                TransferError::InvalidSignature => "Error with transaction signature"@,
                TransferError::ErrorWhileVerifyingTransaction => "Error while verifying transaction"@,
                TransferError::TransactionExistsInMempool => "Trnasaction already exists in blockchain"@,
            },
    {
        match self {
            TransferError::InvalidSignature => String::from_str("Error with transaction signature"),
            TransferError::ErrorWhileVerifyingTransaction => String::from_str(
                "Error while verifying transaction",
            ),
            TransferError::TransactionExistsInMempool => String::from_str(
                "Trnasaction already exists in blockchain",
            ),
        }
    }
}

impl MyErrorTypes {
    /// The message of the error.
    pub fn message(&self) -> (res: String)
        ensures
            res@ == "Transfer wallet not found"@,
    {
        match self {
            MyErrorTypes::TransferWalletNotFound => String::from_str("Transfer wallet not found"),
        }
    }
}

impl MyError {
    /// The message of the error: that of its kind.
    pub fn message(&self) -> (res: String)
        ensures
            res@ == "Transfer wallet not found"@,
    {
        self.error.message()
    }
}

} // verus!
