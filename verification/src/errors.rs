//! The typed outcomes of the ledger's mutating operations. Each error type
//! has a view in which its message is a sequence of characters.

use vstd::prelude::*;
use vstd::string::StringExecFns;

verus! {

#[derive(Debug, PartialEq, Eq)]
pub enum TransferError {
    NonExistingTokenId,
    InvalidRecipient,
    Unauthorized,
    TooOld,
    CreatedInFuture { ledger_time: u64 },
    Duplicate { duplicate_of: u128 },
    GenericError { error_code: u128, message: String },
    GenericBatchError { error_code: u128, message: String },
}

#[verifier::ext_equal]
pub enum TransferErrorView {
    NonExistingTokenId,
    InvalidRecipient,
    Unauthorized,
    TooOld,
    CreatedInFuture { ledger_time: u64 },
    Duplicate { duplicate_of: u128 },
    GenericError { error_code: u128, message: Seq<char> },
    GenericBatchError { error_code: u128, message: Seq<char> },
}

impl View for TransferError {
    type V = TransferErrorView;

    open spec fn view(&self) -> TransferErrorView {
        match *self {
            TransferError::NonExistingTokenId => TransferErrorView::NonExistingTokenId,
            TransferError::InvalidRecipient => TransferErrorView::InvalidRecipient,
            TransferError::Unauthorized => TransferErrorView::Unauthorized,
            TransferError::TooOld => TransferErrorView::TooOld,
            TransferError::CreatedInFuture { ledger_time } => TransferErrorView::CreatedInFuture {
                ledger_time,
            },
            TransferError::Duplicate { duplicate_of } => TransferErrorView::Duplicate {
                duplicate_of,
            },
            TransferError::GenericError { error_code, message } => TransferErrorView::GenericError {
                error_code,
                message: message@,
            },
            TransferError::GenericBatchError {
                error_code,
                message,
            } => TransferErrorView::GenericBatchError { error_code, message: message@ },
        }
    }
}

impl DeepView for TransferError {
    type V = TransferErrorView;

    open spec fn deep_view(&self) -> TransferErrorView {
        self@
    }
}

impl Clone for TransferError {
    fn clone(&self) -> (r: TransferError)
        ensures
            r@ == self@,
    {
        match self {
            TransferError::NonExistingTokenId => TransferError::NonExistingTokenId,
            TransferError::InvalidRecipient => TransferError::InvalidRecipient,
            TransferError::Unauthorized => TransferError::Unauthorized,
            TransferError::TooOld => TransferError::TooOld,
            TransferError::CreatedInFuture { ledger_time } => TransferError::CreatedInFuture {
                ledger_time: *ledger_time,
            },
            TransferError::Duplicate { duplicate_of } => TransferError::Duplicate {
                duplicate_of: *duplicate_of,
            },
            TransferError::GenericError { error_code, message } => TransferError::GenericError {
                error_code: *error_code,
                message: message.clone(),
            },
            TransferError::GenericBatchError {
                error_code,
                message,
            } => TransferError::GenericBatchError {
                error_code: *error_code,
                message: message.clone(),
            },
        }
    }
}

#[derive(Debug, PartialEq, Eq)]
pub enum MintError {
    SupplyCapReached,
    Unauthorized,
    TokenIdAlreadyExist,
    TokenIdMinimumLimit,
    GenericError { error_code: u128, message: String },
    GenericBatchError { error_code: u128, message: String },
}

#[verifier::ext_equal]
pub enum MintErrorView {
    SupplyCapReached,
    Unauthorized,
    TokenIdAlreadyExist,
    TokenIdMinimumLimit,
    GenericError { error_code: u128, message: Seq<char> },
    GenericBatchError { error_code: u128, message: Seq<char> },
}

impl View for MintError {
    type V = MintErrorView;

    open spec fn view(&self) -> MintErrorView {
        match *self {
            MintError::SupplyCapReached => MintErrorView::SupplyCapReached,
            MintError::Unauthorized => MintErrorView::Unauthorized,
            MintError::TokenIdAlreadyExist => MintErrorView::TokenIdAlreadyExist,
            MintError::TokenIdMinimumLimit => MintErrorView::TokenIdMinimumLimit,
            MintError::GenericError { error_code, message } => MintErrorView::GenericError {
                error_code,
                message: message@,
            },
            MintError::GenericBatchError { error_code, message } => MintErrorView::GenericBatchError {
                error_code,
                message: message@,
            },
        }
    }
}

impl DeepView for MintError {
    type V = MintErrorView;

    open spec fn deep_view(&self) -> MintErrorView {
        self@
    }
}

impl Clone for MintError {
    fn clone(&self) -> (r: MintError)
        ensures
            r@ == self@,
    {
        match self {
            MintError::SupplyCapReached => MintError::SupplyCapReached,
            MintError::Unauthorized => MintError::Unauthorized,
            MintError::TokenIdAlreadyExist => MintError::TokenIdAlreadyExist,
            MintError::TokenIdMinimumLimit => MintError::TokenIdMinimumLimit,
            MintError::GenericError { error_code, message } => MintError::GenericError {
                error_code: *error_code,
                message: message.clone(),
            },
            MintError::GenericBatchError { error_code, message } => MintError::GenericBatchError {
                error_code: *error_code,
                message: message.clone(),
            },
        }
    }
}

#[derive(Debug, PartialEq, Eq)]
pub enum BurnError {
    Unauthorized,
    NonExistingTokenId,
    GenericError { error_code: u128, message: String },
    GenericBatchError { error_code: u128, message: String },
}

#[verifier::ext_equal]
pub enum BurnErrorView {
    Unauthorized,
    NonExistingTokenId,
    GenericError { error_code: u128, message: Seq<char> },
    GenericBatchError { error_code: u128, message: Seq<char> },
}

impl View for BurnError {
    type V = BurnErrorView;

    open spec fn view(&self) -> BurnErrorView {
        match *self {
            BurnError::Unauthorized => BurnErrorView::Unauthorized,
            BurnError::NonExistingTokenId => BurnErrorView::NonExistingTokenId,
            BurnError::GenericError { error_code, message } => BurnErrorView::GenericError {
                error_code,
                message: message@,
            },
            BurnError::GenericBatchError { error_code, message } => BurnErrorView::GenericBatchError {
                error_code,
                message: message@,
            },
        }
    }
}

impl DeepView for BurnError {
    type V = BurnErrorView;

    open spec fn deep_view(&self) -> BurnErrorView {
        self@
    }
}

impl Clone for BurnError {
    fn clone(&self) -> (r: BurnError)
        ensures
            r@ == self@,
    {
        match self {
            BurnError::Unauthorized => BurnError::Unauthorized,
            BurnError::NonExistingTokenId => BurnError::NonExistingTokenId,
            BurnError::GenericError { error_code, message } => BurnError::GenericError {
                error_code: *error_code,
                message: message.clone(),
            },
            BurnError::GenericBatchError { error_code, message } => BurnError::GenericBatchError {
                error_code: *error_code,
                message: message.clone(),
            },
        }
    }
}

#[derive(Debug, PartialEq, Eq)]
pub enum ApprovalError {
    Unauthorized { tokens_ids: Vec<u128> },
    NonExistingTokenId,
    InvalidSpender,
    GenericError { error_code: u128, message: String },
    GenericBatchError { error_code: u128, message: String },
}

#[verifier::ext_equal]
pub enum ApprovalErrorView {
    Unauthorized { tokens_ids: Seq<u128> },
    NonExistingTokenId,
    InvalidSpender,
    GenericError { error_code: u128, message: Seq<char> },
    GenericBatchError { error_code: u128, message: Seq<char> },
}

impl View for ApprovalError {
    type V = ApprovalErrorView;

    open spec fn view(&self) -> ApprovalErrorView {
        match *self {
            ApprovalError::Unauthorized { tokens_ids } => ApprovalErrorView::Unauthorized {
                tokens_ids: tokens_ids@,
            },
            ApprovalError::NonExistingTokenId => ApprovalErrorView::NonExistingTokenId,
            ApprovalError::InvalidSpender => ApprovalErrorView::InvalidSpender,
            ApprovalError::GenericError { error_code, message } => ApprovalErrorView::GenericError {
                error_code,
                message: message@,
            },
            ApprovalError::GenericBatchError {
                error_code,
                message,
            } => ApprovalErrorView::GenericBatchError { error_code, message: message@ },
        }
    }
}

impl DeepView for ApprovalError {
    type V = ApprovalErrorView;

    open spec fn deep_view(&self) -> ApprovalErrorView {
        self@
    }
}

impl Clone for ApprovalError {
    fn clone(&self) -> (r: ApprovalError)
        ensures
            r@ == self@,
    {
        match self {
            ApprovalError::Unauthorized { tokens_ids } => {
                let ids = tokens_ids.clone();
                assert(ids@ =~= tokens_ids@);
                ApprovalError::Unauthorized { tokens_ids: ids }
            },
            ApprovalError::NonExistingTokenId => ApprovalError::NonExistingTokenId,
            ApprovalError::InvalidSpender => ApprovalError::InvalidSpender,
            ApprovalError::GenericError { error_code, message } => ApprovalError::GenericError {
                error_code: *error_code,
                message: message.clone(),
            },
            ApprovalError::GenericBatchError {
                error_code,
                message,
            } => ApprovalError::GenericBatchError {
                error_code: *error_code,
                message: message.clone(),
            },
        }
    }
}

/// A mint error in words: the name of its kind, and for the generic kinds
/// the code and the message.
pub open spec fn mint_error_text(e: MintErrorView) -> Seq<char> {
    match e {
        MintErrorView::SupplyCapReached => "SupplyCapReached"@,
        MintErrorView::Unauthorized => "Unauthorized"@,
        MintErrorView::TokenIdAlreadyExist => "TokenIdAlreadyExist"@,
        MintErrorView::TokenIdMinimumLimit => "TokenIdMinimumLimit"@,
        MintErrorView::GenericError { error_code, message } => "GenericError { error_code: "@
            + crate::mint::decimal(error_code as nat) + ", message: \""@ + message + "\" }"@,
        MintErrorView::GenericBatchError {
            error_code,
            message,
        } => "GenericBatchError { error_code: "@ + crate::mint::decimal(error_code as nat)
            + ", message: \""@ + message + "\" }"@,
    }
}

impl MintError {
    /// The error in words.
    pub fn describe(&self) -> (text: String)
        ensures
            text@ == mint_error_text(self@),
    {
        match self {
            MintError::SupplyCapReached => "SupplyCapReached".to_string(),
            MintError::Unauthorized => "Unauthorized".to_string(),
            MintError::TokenIdAlreadyExist => "TokenIdAlreadyExist".to_string(),
            MintError::TokenIdMinimumLimit => "TokenIdMinimumLimit".to_string(),
            MintError::GenericError { error_code, message } => {
                let digits = crate::mint::decimal_text(*error_code);
                "GenericError { error_code: ".to_string().concat(digits.as_str()).concat(
                    ", message: \"",
                ).concat(message.as_str()).concat("\" }")
            },
            MintError::GenericBatchError { error_code, message } => {
                let digits = crate::mint::decimal_text(*error_code);
                "GenericBatchError { error_code: ".to_string().concat(digits.as_str()).concat(
                    ", message: \"",
                ).concat(message.as_str()).concat("\" }")
            },
        }
    }
}

/// Why moving log entries to the archive did not happen.
#[derive(Clone, Copy, Debug, PartialEq, Eq, Structural)]
pub enum InsertTransactionError {
    SyncPending,
    NotSetArchiveCanister,
    RemoteError,
}

} // verus!
