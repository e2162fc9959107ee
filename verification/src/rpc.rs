//! Acceptance of remote-call outcomes. The transport layer hands the core an
//! `RpcOutcome` per call; the core decides: a decoded result is taken, an
//! `error` object becomes `RpcError`, a null result `NotFoundError`, and a
//! malformed result payload `DecodeError` — never a silently substituted
//! default value. Every error context names the operation and its target.

use vstd::prelude::*;
use crate::types::AccountState;
use crate::types::RpcOutcome;
use crate::types::WitnessError;

verus! {

/// What the error of a failed outcome must look like: the variant matching
/// the outcome, with a context naming the operation and its target.
pub open spec fn matches_outcome_error<T>(
    e: WitnessError,
    op: Seq<char>,
    target: Seq<char>,
    outcome: RpcOutcome<T>,
) -> bool {
    match outcome {
        RpcOutcome::Decoded(_) => false,
        RpcOutcome::NullResult => e matches WitnessError::NotFoundError { context } && context@
            == op + " for "@ + target + ": no result"@,
        RpcOutcome::ErrorObject(m) => e matches WitnessError::RpcError { context } && context@ == op
            + " for "@ + target + ": "@ + m@,
        RpcOutcome::Malformed(m) => e matches WitnessError::DecodeError { context } && context@
            == op + " for "@ + target + ": "@ + m@,
    }
}

/// A call target naming an address together with the height it was queried
/// at.
pub open spec fn at_height_spec(address: Seq<char>, height: Seq<char>) -> Seq<char> {
    address + " at "@ + height
}

/// Formats a call target from an address and the height it is queried at.
pub fn at_height(address: &str, height: &str) -> (r: String)
    ensures
        r@ == at_height_spec(address@, height@),
{
    let mut out = String::new();
    out.append(address);
    out.append(" at ");
    out.append(height);
    out
}

/// Accepts one remote-call outcome, or turns it into the witness error it
/// calls for. Succeeds exactly on a decoded result, and returns it unchanged.
pub fn require_result<T>(op: &str, target: &str, outcome: RpcOutcome<T>) -> (r: Result<
    T,
    WitnessError,
>)
    ensures
        match r {
            Ok(v) => outcome == RpcOutcome::Decoded(v),
            Err(e) => !(outcome is Decoded) && matches_outcome_error(e, op@, target@, outcome),
        },
{
    match outcome {
        RpcOutcome::Decoded(v) => Ok(v),
        RpcOutcome::NullResult => {
            let mut context = String::new();
            context.append(op);
            context.append(" for ");
            context.append(target);
            context.append(": no result");
            Err(WitnessError::NotFoundError { context })
        },
        RpcOutcome::ErrorObject(m) => {
            let mut context = String::new();
            context.append(op);
            context.append(" for ");
            context.append(target);
            context.append(": ");
            context.append(m.as_str());
            Err(WitnessError::RpcError { context })
        },
        RpcOutcome::Malformed(m) => {
            let mut context = String::new();
            context.append(op);
            context.append(" for ");
            context.append(target);
            context.append(": ");
            context.append(m.as_str());
            Err(WitnessError::DecodeError { context })
        },
    }
}

/// The operation behind each slot of a five-read account state batch:
/// balance at the previous and current height, transaction count at both,
/// code at the current height.
pub open spec fn batch_op(i: int) -> Seq<char> {
    if i == 0 || i == 1 {
        "eth_getBalance"@
    } else if i == 2 || i == 3 {
        "eth_getTransactionCount"@
    } else {
        "eth_getCode"@
    }
}

/// The height each slot of the batch was queried at.
pub open spec fn batch_height(i: int, prev: Seq<char>, curr: Seq<char>) -> Seq<char> {
    if i == 0 || i == 2 {
        prev
    } else {
        curr
    }
}

/// Whether a five-slot batch answer decoded in every slot.
pub open spec fn batch_ok(rs: Seq<RpcOutcome<String>>) -> bool {
    rs.len() == 5 && forall|i: int| 0 <= i < 5 ==> rs[i] is Decoded
}

/// The first slot of a five-slot batch that did not decode.
pub open spec fn first_undecoded(rs: Seq<RpcOutcome<String>>) -> int {
    if !(rs[0] is Decoded) {
        0
    } else if !(rs[1] is Decoded) {
        1
    } else if !(rs[2] is Decoded) {
        2
    } else if !(rs[3] is Decoded) {
        3
    } else {
        4
    }
}

/// The account state a fully decoded batch answer denotes.
pub open spec fn batch_state(rs: Seq<RpcOutcome<String>>) -> AccountState {
    AccountState {
        balance_before: rs[0]->Decoded_0,
        balance_after: rs[1]->Decoded_0,
        nonce_before: rs[2]->Decoded_0,
        nonce_after: rs[3]->Decoded_0,
        code: rs[4]->Decoded_0,
    }
}

/// Builds one account's state delta from the answers to its batched reads:
/// balance at the previous height, balance at the current height, nonce at
/// both, and code at the current height, in that order. Succeeds exactly
/// when all five slots decoded; otherwise the first undecoded slot decides
/// the error, naming its operation, the address and the height involved.
pub fn account_state_from_batch(
    address: &str,
    prev_height: &str,
    curr_height: &str,
    responses: Vec<RpcOutcome<String>>,
) -> (r: Result<AccountState, WitnessError>)
    ensures
        match r {
            Ok(st) => batch_ok(responses@) && st == batch_state(responses@),
            Err(e) => !batch_ok(responses@) && if responses@.len() != 5 {
                e matches WitnessError::DecodeError { context } && context@
                    == "account state batch for "@ + address@ + ": expected five results"@
            } else {
                matches_outcome_error(
                    e,
                    batch_op(first_undecoded(responses@)),
                    at_height_spec(
                        address@,
                        batch_height(first_undecoded(responses@), prev_height@, curr_height@),
                    ),
                    responses@[first_undecoded(responses@)],
                )
            },
        },
{
    let ghost rs = responses@;
    let mut responses = responses;
    if responses.len() != 5 {
        let mut context = String::new();
        context.append("account state batch for ");
        context.append(address);
        context.append(": expected five results");
        return Err(WitnessError::DecodeError { context });
    }
    let r0 = responses.remove(0);
    let r1 = responses.remove(0);
    let r2 = responses.remove(0);
    let r3 = responses.remove(0);
    let r4 = responses.remove(0);
    proof {
        assert(r0 == rs[0] && r1 == rs[1] && r2 == rs[2] && r3 == rs[3] && r4 == rs[4]);
    }
    let target_prev = at_height(address, prev_height);
    let target_curr = at_height(address, curr_height);
    let balance_before = match require_result("eth_getBalance", target_prev.as_str(), r0) {
        Ok(v) => v,
        Err(e) => {
            return Err(e);
        },
    };
    let balance_after = match require_result("eth_getBalance", target_curr.as_str(), r1) {
        Ok(v) => v,
        Err(e) => {
            return Err(e);
        },
    };
    let nonce_before = match require_result("eth_getTransactionCount", target_prev.as_str(), r2) {
        Ok(v) => v,
        Err(e) => {
            return Err(e);
        },
    };
    let nonce_after = match require_result("eth_getTransactionCount", target_curr.as_str(), r3) {
        Ok(v) => v,
        Err(e) => {
            return Err(e);
        },
    };
    let code = match require_result("eth_getCode", target_curr.as_str(), r4) {
        Ok(v) => v,
        Err(e) => {
            return Err(e);
        },
    };
    Ok(AccountState { balance_before, balance_after, nonce_before, nonce_after, code })
}

} // verus!
