//! Messages shown when an AWS call fails.
use vstd::prelude::*;
use crate::text::{owned, push_str, seq_contains, str_contains};

verus! {

/// The message tells of missing or expired credentials.
pub open spec fn credentials_problem(msg: Seq<char>) -> bool {
    seq_contains(msg, "dispatch failure"@) || seq_contains(msg, "no credentials"@)
        || seq_contains(msg, "expired"@)
}

/// The message tells of denied access.
pub open spec fn access_denied(msg: Seq<char>) -> bool {
    seq_contains(msg, "AccessDenied"@)
}

/// The message shown when the operation `op` failed with `msg`, as S3,
/// Lambda and Secrets Manager word it.
pub open spec fn aws_error_text(op: Seq<char>, msg: Seq<char>) -> Seq<char> {
    if credentials_problem(msg) {
        "AWS credentials expired or missing (r to retry)"@
    } else if access_denied(msg) {
        "Access denied for "@ + op + ". Check your IAM permissions."@
    } else {
        "Failed to "@ + op + ": "@ + msg
    }
}

/// Whether the error message tells of missing or expired credentials.
pub fn is_credentials_problem(msg: &str) -> (r: bool)
    ensures
        r == credentials_problem(msg@),
{
    str_contains(msg, "dispatch failure") || str_contains(msg, "no credentials") || str_contains(
        msg,
        "expired",
    )
}

/// Whether the error message tells of denied access.
pub fn is_access_denied(msg: &str) -> (r: bool)
    ensures
        r == access_denied(msg@),
{
    str_contains(msg, "AccessDenied")
}

/// `"Access denied for {op}. Check your IAM permissions."`
pub fn access_denied_text(op: &str) -> (r: String)
    ensures
        r@ == "Access denied for "@ + op@ + ". Check your IAM permissions."@,
{
    let mut r = owned("Access denied for ");
    push_str(&mut r, op);
    push_str(&mut r, ". Check your IAM permissions.");
    r
}

/// `"Failed to {op}: {msg}"`
pub fn failed_text(op: &str, msg: &str) -> (r: String)
    ensures
        r@ == "Failed to "@ + op@ + ": "@ + msg@,
{
    let mut r = owned("Failed to ");
    push_str(&mut r, op);
    push_str(&mut r, ": ");
    push_str(&mut r, msg);
    r
}

/// The message shown when the operation `op` failed with the error text
/// `msg` (S3, Lambda and Secrets Manager).
pub fn format_aws_error(op: &str, msg: &str) -> (r: String)
    ensures
        r@ == aws_error_text(op@, msg@),
{
    if is_credentials_problem(msg) {
        owned("AWS credentials expired or missing (r to retry)")
    } else if is_access_denied(msg) {
        access_denied_text(op)
    } else {
        failed_text(op, msg)
    }
}

} // verus!
