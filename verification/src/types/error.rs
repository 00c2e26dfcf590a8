//! The error type and its stable code catalogue.

use vstd::prelude::*;
use vstd::string::*;

verus! {

/// A stable identifier of a class of failure. Callers branch on the code, never on the message.
#[derive(Debug, Clone, Copy, PartialEq, Eq, Hash, Structural)]
#[non_exhaustive]
pub enum WalletErrorCode {
    /// A value could not be parsed or broke an encoding rule.
    InvalidInput,
    /// The requested wallet is not known to the engine.
    UnknownIdentity,
    /// Coin selection could not reach the requested value.
    InsufficientFunds,
    /// A spend failed validation before broadcast.
    SpendValidationFailed,
    /// The signer refused or failed to produce a signature.
    SigningFailed,
    /// The chain or peer transport failed.
    Transport,
    /// The local state store failed.
    Storage,
    /// A subscriber fell behind and lost events.
    SubscriberLagged,
    /// A capability that is defined but not available in this build.
    NotImplemented,
}

/// The stable text of each code.
pub open spec fn code_text(code: WalletErrorCode) -> Seq<char> {
    match code {
        WalletErrorCode::InvalidInput => "invalid_input"@,
        WalletErrorCode::UnknownIdentity => "unknown_identity"@,
        WalletErrorCode::InsufficientFunds => "insufficient_funds"@,
        WalletErrorCode::SpendValidationFailed => "spend_validation_failed"@,
        WalletErrorCode::SigningFailed => "signing_failed"@,
        WalletErrorCode::Transport => "transport"@,
        WalletErrorCode::Storage => "storage"@,
        WalletErrorCode::SubscriberLagged => "subscriber_lagged"@,
        WalletErrorCode::NotImplemented => "not_implemented"@,
    }
}

/// No two codes share a text, so that callers can branch on it.
pub proof fn codes_are_told_apart(a: WalletErrorCode, b: WalletErrorCode)
    ensures
        code_text(a) == code_text(b) ==> a == b,
{
    lemma_code_length(a);
    lemma_code_length(b);
}

/// A code's text is as long as [`code_length`] says.
proof fn lemma_code_length(code: WalletErrorCode)
    ensures
        code_text(code).len() == code_length(code),
{
    reveal_strlit("invalid_input");
    reveal_strlit("unknown_identity");
    reveal_strlit("insufficient_funds");
    reveal_strlit("spend_validation_failed");
    reveal_strlit("signing_failed");
    reveal_strlit("transport");
    reveal_strlit("storage");
    reveal_strlit("subscriber_lagged");
    reveal_strlit("not_implemented");
}

/// The length of each code's text; no two are of one length.
spec fn code_length(code: WalletErrorCode) -> int {
    match code {
        WalletErrorCode::InvalidInput => 13,
        WalletErrorCode::UnknownIdentity => 16,
        WalletErrorCode::InsufficientFunds => 18,
        WalletErrorCode::SpendValidationFailed => 23,
        WalletErrorCode::SigningFailed => 14,
        WalletErrorCode::Transport => 9,
        WalletErrorCode::Storage => 7,
        WalletErrorCode::SubscriberLagged => 17,
        WalletErrorCode::NotImplemented => 15,
    }
}

impl WalletErrorCode {
    /// The stable text form that logs and the wire use.
    pub fn as_str(self) -> (text: &'static str)
        ensures
            text@ == code_text(self),
    {
        match self {
            WalletErrorCode::InvalidInput => "invalid_input",
            WalletErrorCode::UnknownIdentity => "unknown_identity",
            WalletErrorCode::InsufficientFunds => "insufficient_funds",
            WalletErrorCode::SpendValidationFailed => "spend_validation_failed",
            WalletErrorCode::SigningFailed => "signing_failed",
            WalletErrorCode::Transport => "transport",
            WalletErrorCode::Storage => "storage",
            WalletErrorCode::SubscriberLagged => "subscriber_lagged",
            WalletErrorCode::NotImplemented => "not_implemented",
        }
    }

    /// The name of the code as it stands in a rendered error.
    fn name(self) -> (text: &'static str)
        ensures
            text@ == code_name(self),
    {
        match self {
            WalletErrorCode::InvalidInput => "InvalidInput",
            WalletErrorCode::UnknownIdentity => "UnknownIdentity",
            WalletErrorCode::InsufficientFunds => "InsufficientFunds",
            WalletErrorCode::SpendValidationFailed => "SpendValidationFailed",
            WalletErrorCode::SigningFailed => "SigningFailed",
            WalletErrorCode::Transport => "Transport",
            WalletErrorCode::Storage => "Storage",
            WalletErrorCode::SubscriberLagged => "SubscriberLagged",
            WalletErrorCode::NotImplemented => "NotImplemented",
        }
    }
}

/// The name of each code in a rendered error.
pub open spec fn code_name(code: WalletErrorCode) -> Seq<char> {
    match code {
        WalletErrorCode::InvalidInput => "InvalidInput"@,
        WalletErrorCode::UnknownIdentity => "UnknownIdentity"@,
        WalletErrorCode::InsufficientFunds => "InsufficientFunds"@,
        WalletErrorCode::SpendValidationFailed => "SpendValidationFailed"@,
        WalletErrorCode::SigningFailed => "SigningFailed"@,
        WalletErrorCode::Transport => "Transport"@,
        WalletErrorCode::Storage => "Storage"@,
        WalletErrorCode::SubscriberLagged => "SubscriberLagged"@,
        WalletErrorCode::NotImplemented => "NotImplemented"@,
    }
}

/// An error: a stable code with a message for a reader.
#[derive(Debug, Clone, PartialEq, Eq)]
pub struct WalletError {
    /// The stable classification.
    pub code: WalletErrorCode,
    /// Context for a reader; callers do not branch on it.
    pub message: String,
}

/// What a [`WalletError`] says.
pub struct WalletErrorView {
    /// The code.
    pub code: WalletErrorCode,
    /// The message.
    pub message: Seq<char>,
}

impl View for WalletError {
    type V = WalletErrorView;

    open spec fn view(&self) -> WalletErrorView {
        WalletErrorView { code: self.code, message: self.message@ }
    }
}

/// An error of the class [`WalletErrorCode::InvalidInput`].
pub open spec fn invalid(message: Seq<char>) -> WalletErrorView {
    WalletErrorView { code: WalletErrorCode::InvalidInput, message }
}

/// An error of the class [`WalletErrorCode::SpendValidationFailed`].
pub open spec fn spend_fault(message: Seq<char>) -> WalletErrorView {
    WalletErrorView { code: WalletErrorCode::SpendValidationFailed, message }
}

/// An error of the class [`WalletErrorCode::InsufficientFunds`].
pub open spec fn short_of_funds(message: Seq<char>) -> WalletErrorView {
    WalletErrorView { code: WalletErrorCode::InsufficientFunds, message }
}

impl WalletError {
    /// An error from a code and a message.
    pub fn new(code: WalletErrorCode, message: String) -> (error: Self)
        ensures
            error == (WalletError { code, message }),
    {
        WalletError { code, message }
    }

    /// An [`WalletErrorCode::InvalidInput`] error.
    pub fn invalid_input(message: String) -> (error: Self)
        ensures
            error == (WalletError { code: WalletErrorCode::InvalidInput, message }),
    {
        WalletError::new(WalletErrorCode::InvalidInput, message)
    }

    /// A [`WalletErrorCode::NotImplemented`] error.
    pub fn not_implemented(what: String) -> (error: Self)
        ensures
            error == (WalletError { code: WalletErrorCode::NotImplemented, message: what }),
    {
        WalletError::new(WalletErrorCode::NotImplemented, what)
    }

    /// The error rendered for a reader: the name of the code, a colon and the message.
    pub fn text(&self) -> (text: String)
        ensures
            text@ == code_name(self.code) + ": "@ + self.message@,
    {
        let mut text = self.code.name().to_owned();
        text.append(": ");
        text.append(self.message.as_str());
        text
    }
}

/// The result of an engine operation.
pub type WalletResult<T> = Result<T, WalletError>;

} // verus!
