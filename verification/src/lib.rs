//! Scoped, auditable credential access: credential metadata, runtime handles,
//! workload tokens and an audit trail, over pluggable vault backends.
//! No operation of this library hands out a raw secret value.

pub mod types;
pub mod error;
pub mod text;
pub mod clock;
pub mod json;
pub mod adk_vault;
pub mod backend;
pub mod hashicorp;
pub mod aws;
pub mod gcp;
pub mod azure;
pub mod adk_platform;
pub mod server;

pub use crate::error::VaultError;
pub use crate::types::{
    AuditAction, AuditEvent, AuditOutcome, BackendType, Credential, CredentialHandle,
    CredentialStatus, RiskLevel, RotationPolicy, RuntimeSecretHandle, Timestamp, WorkloadToken,
};
