use vstd::prelude::*;

verus! {

/// The two settlement endpoints.
#[derive(Clone, Copy, Debug, PartialEq, Eq, Structural)]
pub enum Endpoint {
    Primary,
    Fallback,
}

/// What came of sending a registration to an endpoint.
#[derive(Clone, Copy, Debug, PartialEq, Eq, Structural)]
pub enum SendResult {
    /// The transaction was accepted for inclusion.
    Sent,
    /// The contract rejected it.
    Reverted,
    /// Any other failure: the endpoint could not be reached, or similar.
    Failed,
}

/// What to do after a send.
#[derive(Clone, Copy, Debug, PartialEq, Eq, Structural)]
pub enum SendAction {
    /// Wait, up to the configured time, for the transaction's receipt.
    AwaitInclusion,
    /// Send the same registration to the fallback endpoint.
    SendToFallback,
    /// Stop: the contract rejected the registration; retrying cannot help.
    StopReverted,
    /// Stop this attempt; a later retry may succeed.
    StopTransient,
}

/// The step after sending to `endpoint`: a reverted registration is never
/// sent again, a failed one on the primary endpoint goes to the fallback.
pub fn next_send_action(endpoint: Endpoint, result: SendResult) -> (r: SendAction)
    ensures
        result == SendResult::Sent ==> r == SendAction::AwaitInclusion,
        result == SendResult::Reverted ==> r == SendAction::StopReverted,
        result == SendResult::Failed && endpoint == Endpoint::Primary ==> r == SendAction::SendToFallback,
        result == SendResult::Failed && endpoint == Endpoint::Fallback ==> r == SendAction::StopTransient,
{
    match result {
        SendResult::Sent => SendAction::AwaitInclusion,
        SendResult::Reverted => SendAction::StopReverted,
        SendResult::Failed => match endpoint {
            Endpoint::Primary => SendAction::SendToFallback,
            Endpoint::Fallback => SendAction::StopTransient,
        },
    }
}

/// The delay before retry `attempt` (counting from zero): the minimum delay
/// multiplied by the factor once per earlier attempt, capped at the maximum.
pub open spec fn backoff_delay(min_delay: nat, factor: nat, attempt: nat, max_delay: nat) -> nat
    decreases attempt,
{
    if attempt == 0 {
        if min_delay <= max_delay {
            min_delay
        } else {
            max_delay
        }
    } else {
        let d = backoff_delay(min_delay, factor, (attempt - 1) as nat, max_delay) * factor;
        if d <= max_delay {
            d
        } else {
            max_delay
        }
    }
}

/// The delay before retry `attempt`.
pub fn retry_delay(min_delay: u64, factor: u64, attempt: u32, max_delay: u64) -> (r: u64)
    ensures
        r == backoff_delay(min_delay as nat, factor as nat, attempt as nat, max_delay as nat),
{
    let mut d: u64 = if min_delay <= max_delay {
        min_delay
    } else {
        max_delay
    };
    let mut k: u32 = 0;
    while k < attempt
        invariant
            k <= attempt,
            d == backoff_delay(min_delay as nat, factor as nat, k as nat, max_delay as nat),
            d <= max_delay,
        decreases attempt - k,
    {
        d = match d.checked_mul(factor) {
            Some(v) => if v <= max_delay {
                v
            } else {
                max_delay
            },
            None => max_delay,
        };
        k = k + 1;
    }
    d
}

} // verus!
