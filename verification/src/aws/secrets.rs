//! Secrets Manager secrets as the browser shows them.
use vstd::prelude::*;
use crate::text::{owned, str_contains, seq_contains};

verus! {

/// A row of the secret list.
#[derive(Debug, Clone)]
pub struct SecretInfo {
    pub name: String,
    pub arn: String,
    pub description: String,
    pub last_accessed: String,
    pub last_changed: String,
    pub created: String,
}

/// The description of one secret, with its value where it could be read.
#[derive(Debug, Clone)]
pub struct SecretDetail {
    pub name: String,
    pub arn: String,
    pub description: String,
    pub kms_key_id: Option<String>,
    pub rotation_enabled: bool,
    pub rotation_lambda_arn: Option<String>,
    pub rotation_days: Option<i64>,
    pub last_rotated: Option<String>,
    pub last_accessed: Option<String>,
    pub last_changed: Option<String>,
    pub created: Option<String>,
    pub deleted_date: Option<String>,
    pub tags: Vec<(String, String)>,
    pub version_ids: Vec<(String, Vec<String>)>,
    pub secret_value: Option<String>,
    pub secret_binary: bool,
}

/// What reading a secret's value gave.
pub enum SecretValueOutcome {
    /// A text value.
    Text(String),
    /// A binary value.
    Binary,
    /// Neither a text nor a binary value.
    Empty,
    /// The read failed with this error text.
    Failed(String),
}

/// The note shown in place of a value that the caller may not read.
pub open spec fn denied_note() -> Seq<char> {
    "(access denied — missing secretsmanager:GetSecretValue permission)"@
}

/// The message shown when a Secrets Manager call fails.
pub fn format_aws_error(op: &str, msg: &str) -> (r: String)
    ensures
        r@ == crate::aws::errors::aws_error_text(op@, msg@),
{
    crate::aws::errors::format_aws_error(op, msg)
}

/// Adds what reading the value gave to a described secret: a text value is
/// kept, a binary one is only marked, a read refused for want of permission
/// leaves a note in place of the value, anything else leaves the detail as
/// it was.
pub fn apply_secret_value(detail: &mut SecretDetail, outcome: SecretValueOutcome)
    ensures
        match outcome {
            SecretValueOutcome::Text(s) => *final(detail) == (SecretDetail { secret_value: Some(s), ..*old(detail) }),
            SecretValueOutcome::Binary => *final(detail) == (SecretDetail { secret_binary: true, ..*old(detail) }),
            SecretValueOutcome::Empty => *final(detail) == *old(detail),
            SecretValueOutcome::Failed(msg) => if seq_contains(msg@, "AccessDenied"@) {
                final(detail).secret_value is Some && final(detail).secret_value->0@ == denied_note()
                    && *final(detail) == (SecretDetail { secret_value: final(detail).secret_value, ..*old(detail) })
            } else {
                *final(detail) == *old(detail)
            },
        },
{
    match outcome {
        SecretValueOutcome::Text(s) => {
            detail.secret_value = Some(s);
        },
        SecretValueOutcome::Binary => {
            detail.secret_binary = true;
        },
        SecretValueOutcome::Empty => {},
        SecretValueOutcome::Failed(msg) => {
            if str_contains(msg.as_str(), "AccessDenied") {
                detail.secret_value = Some(
                    owned("(access denied — missing secretsmanager:GetSecretValue permission)"),
                );
            }
        },
    }
}

} // verus!
