//! The caller's identity and the ARNs derived from it.

use vstd::prelude::*;

verus! {

/// The account that the credentials in use belong to.
#[derive(Debug, Clone)]
pub struct CallerIdentity {
    pub account: String,
}

/// The ARN prefix of the state machines of `account` in `region`.
pub open spec fn state_arn_prefix(region: Seq<char>, account: Seq<char>) -> Seq<char> {
    "arn:aws:states:"@ + region + ":"@ + account + ":stateMachine:"@
}

/// The ARN prefix of the state machines of the caller's account in
/// `aws_region`; a state machine's ARN is this prefix followed by its name.
pub fn build_state_arn_prefix(aws_region: &str, caller_identity: &CallerIdentity) -> (r: String)
    ensures
        r@ == state_arn_prefix(aws_region@, caller_identity.account@),
{
    String::from_str("arn:aws:states:").concat(aws_region).concat(":").concat(
        caller_identity.account.as_str(),
    ).concat(":stateMachine:")
}

/// The ARN of the state machine `name` under `prefix`.
pub fn state_arn(prefix: &str, name: &str) -> (r: String)
    ensures
        r@ == prefix@ + name@,
{
    String::from_str(prefix).concat(name)
}

} // verus!
