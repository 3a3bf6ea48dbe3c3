//! Errors of vault operations.

use vstd::prelude::*;

verus! {

/// Errors from vault operations; each carries a detail text.
#[derive(Debug)]
pub enum VaultError {
    NotFound(String),
    AccessDenied(String),
    Unavailable(String),
    AuthFailed(String),
    RotationFailed(String),
    InvalidScope(String),
    TokenMintFailed(String),
    Internal(String),
}

/// The value of a vault error.
pub enum VaultErrorView {
    NotFound(Seq<char>),
    AccessDenied(Seq<char>),
    Unavailable(Seq<char>),
    AuthFailed(Seq<char>),
    RotationFailed(Seq<char>),
    InvalidScope(Seq<char>),
    TokenMintFailed(Seq<char>),
    Internal(Seq<char>),
}

impl View for VaultError {
    type V = VaultErrorView;

    open spec fn view(&self) -> VaultErrorView {
        match self {
            VaultError::NotFound(s) => VaultErrorView::NotFound(s@),
            VaultError::AccessDenied(s) => VaultErrorView::AccessDenied(s@),
            VaultError::Unavailable(s) => VaultErrorView::Unavailable(s@),
            VaultError::AuthFailed(s) => VaultErrorView::AuthFailed(s@),
            VaultError::RotationFailed(s) => VaultErrorView::RotationFailed(s@),
            VaultError::InvalidScope(s) => VaultErrorView::InvalidScope(s@),
            VaultError::TokenMintFailed(s) => VaultErrorView::TokenMintFailed(s@),
            VaultError::Internal(s) => VaultErrorView::Internal(s@),
        }
    }
}

/// The message that describes an error: a phrase for its kind, a colon, a
/// space and the detail.
pub open spec fn error_message(e: VaultErrorView) -> Seq<char> {
    match e {
        VaultErrorView::NotFound(s) => "credential not found: "@ + s,
        VaultErrorView::AccessDenied(s) => "access denied: "@ + s,
        VaultErrorView::Unavailable(s) => "backend unavailable: "@ + s,
        VaultErrorView::AuthFailed(s) => "authentication failed: "@ + s,
        VaultErrorView::RotationFailed(s) => "rotation failed: "@ + s,
        VaultErrorView::InvalidScope(s) => "invalid scope: "@ + s,
        VaultErrorView::TokenMintFailed(s) => "token minting failed: "@ + s,
        VaultErrorView::Internal(s) => "internal error: "@ + s,
    }
}

impl VaultError {
    /// The message that describes this error.
    pub fn message(&self) -> (m: String)
        ensures
            m@ == error_message(self@),
    {
        match self {
            VaultError::NotFound(s) => String::from_str("credential not found: ").concat(s.as_str()),
            VaultError::AccessDenied(s) => String::from_str("access denied: ").concat(s.as_str()),
            VaultError::Unavailable(s) => String::from_str("backend unavailable: ").concat(s.as_str()),
            VaultError::AuthFailed(s) => String::from_str("authentication failed: ").concat(
                s.as_str(),
            ),
            VaultError::RotationFailed(s) => String::from_str("rotation failed: ").concat(
                s.as_str(),
            ),
            VaultError::InvalidScope(s) => String::from_str("invalid scope: ").concat(s.as_str()),
            VaultError::TokenMintFailed(s) => String::from_str("token minting failed: ").concat(
                s.as_str(),
            ),
            VaultError::Internal(s) => String::from_str("internal error: ").concat(s.as_str()),
        }
    }
}

} // verus!
