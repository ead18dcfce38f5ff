//! The token validator: the funds check over all tokens, and for each proof
//! the binding of its hash lock and time lock to the invoice.

use crate::error::{
    error_response, header_ready, status_of, ErrorKind, ErrorKindView, ErrorResponse, ErrorView,
};
use crate::laws::lemma_status_by_kind;
use crate::secret::{condition_of, spending_condition, ConditionView, SpendingCondition};
use crate::token::{total, total_value, ProofView, Token, TokenView};
use vstd::prelude::*;

verus! {

/// The seconds that a token's lock must outlast the moment of its check: the
/// slack that the gateway has to pay the invoice and redeem the token.
pub const LOCKTIME_MARGIN: u64 = 900;

/// Whether a lock time, if there is one, leaves the margin after `now`.
pub open spec fn locktime_ok(locktime: Option<u64>, now: u64) -> bool {
    match locktime {
        Some(t) => t >= now + LOCKTIME_MARGIN,
        None => true,
    }
}

/// What is wrong with a proof, if anything: its secret must state an HTLC on
/// the invoice's payment hash whose lock time leaves the margin.
pub open spec fn proof_fault(secret: Seq<char>, hash: Seq<char>, now: u64) -> Option<
    ErrorKindView,
> {
    match condition_of(secret) {
        Err(details) => Some(ErrorKindView::TokenVerificationFailed { details: Some(details) }),
        Ok(ConditionView::P2pk) => Some(ErrorKindView::TokenVerificationFailed { details: None }),
        Ok(ConditionView::Htlc { hash: locked_to, locktime }) => if locked_to != hash {
            Some(ErrorKindView::HashMismatch)
        } else if !locktime_ok(locktime, now) {
            Some(ErrorKindView::LocktimeTooShort)
        } else {
            None
        },
    }
}

/// The fault of the first faulty proof from index `from` on.
pub open spec fn first_fault(proofs: Seq<ProofView>, from: int, hash: Seq<char>, now: u64) -> Option<
    ErrorKindView,
>
    decreases proofs.len() - from,
{
    if from < 0 || from >= proofs.len() {
        None
    } else {
        match proof_fault(proofs[from].secret, hash, now) {
            Some(fault) => Some(fault),
            None => first_fault(proofs, from + 1, hash, now),
        }
    }
}

/// What is wrong with a token, if anything: the fault of its first faulty
/// proof.
pub open spec fn token_fault(token: TokenView, hash: Seq<char>, now: u64) -> Option<ErrorKindView> {
    first_fault(token.proofs, 0, hash, now)
}

/// Whether a secret states an HTLC on the given hash.
pub open spec fn bound_to(secret: Seq<char>, hash: Seq<char>) -> bool {
    condition_of(secret) matches Ok(ConditionView::Htlc { hash: locked_to, .. }) && locked_to
        == hash
}

/// Whether a secret states a lock time that does not leave the margin after
/// `now`.
pub open spec fn expires_early(secret: Seq<char>, now: u64) -> bool {
    condition_of(secret) matches Ok(ConditionView::Htlc { locktime, .. }) && !locktime_ok(
        locktime,
        now,
    )
}

/// Whether a token is accepted: no proof of it has a fault.
pub open spec fn accepted(token: TokenView, hash: Seq<char>, now: u64) -> bool {
    forall|i: int| 0 <= i < token.proofs.len() ==> proof_fault(
        #[trigger] token.proofs[i].secret,
        hash,
        now,
    ) is None
}

/// The outcome of the funds check: the total value of the tokens, or why the
/// request goes no further.
pub open spec fn funds_spec(tokens: Seq<TokenView>, required: u64, hint: Option<Seq<char>>) -> Result<
    u64,
    ErrorView,
> {
    let provided = total_value(tokens);
    if provided > u64::MAX {
        Err(
            error_response(
                ErrorKindView::Internal { details: "Token value out of range"@ },
                None,
            ),
        )
    } else if provided < required {
        Err(
            error_response(
                ErrorKindView::InsufficientFunds { required, provided: provided as u64 },
                hint,
            ),
        )
    } else {
        Ok(provided as u64)
    }
}

pub open spec fn funds_result_view(r: Result<u64, ErrorResponse>) -> Result<u64, ErrorView> {
    match r {
        Ok(v) => Ok(v),
        Err(e) => Err(e@),
    }
}

pub open spec fn fault_view(r: Option<ErrorKind>) -> Option<ErrorKindView> {
    match r {
        Some(kind) => Some(kind@),
        None => None,
    }
}

/// Checks one proof against the invoice's payment hash at time `now`.
pub fn check_proof(secret: &str, hash: &String, now: u64) -> (r: Option<ErrorKind>)
    ensures
        fault_view(r) == proof_fault(secret@, hash@, now),
{
    match spending_condition(secret) {
        Err(details) => Some(ErrorKind::TokenVerificationFailed { details: Some(details) }),
        Ok(SpendingCondition::P2pk) => Some(ErrorKind::TokenVerificationFailed { details: None }),
        Ok(SpendingCondition::Htlc { hash: locked_to, locktime }) => {
            if locked_to != *hash {
                return Some(ErrorKind::HashMismatch);
            }
            match locktime {
                Some(t) => {
                    let enough = match now.checked_add(LOCKTIME_MARGIN) {
                        Some(least) => t >= least,
                        None => false,
                    };
                    if enough {
                        None
                    } else {
                        Some(ErrorKind::LocktimeTooShort)
                    }
                },
                None => None,
            }
        },
    }
}

/// Checks the proofs of a token, in order, and reports the first fault.
pub fn check_token(token: &Token, hash: &String, now: u64) -> (r: Option<ErrorKind>)
    ensures
        fault_view(r) == token_fault(token@, hash@, now),
        r is None <==> accepted(token@, hash@, now),
{
    let ghost proofs = token@.proofs;
    let mut i: usize = 0;
    while i < token.proofs.len()
        invariant
            i <= token.proofs.len(),
            proofs == token.proofs.deep_view(),
            first_fault(proofs, 0, hash@, now) == first_fault(proofs, i as int, hash@, now),
            forall|j: int| 0 <= j < i ==> proof_fault(#[trigger] proofs[j].secret, hash@, now) is None,
        decreases token.proofs.len() - i,
    {
        assert(proofs[i as int] == token.proofs@[i as int]@);
        let fault = check_proof(token.proofs[i].secret.as_str(), hash, now);
        if fault.is_some() {
            return fault;
        }
        i += 1;
    }
    None
}

/// The funds check, made once over all decoded tokens: their total value must
/// reach the required amount.
pub fn check_funds(tokens: &Vec<Token>, required: u64, hint: &Option<String>) -> (r: Result<
    u64,
    ErrorResponse,
>)
    ensures
        funds_result_view(r) == funds_spec(tokens.deep_view(), required, hint.deep_view()),
        header_ready(hint.deep_view()) ==> (r matches Err(e) ==> header_ready(e@.payment_request)),
        hint is Some ==> (r matches Err(e) ==> (status_of(e@) == 402 ==> e@.payment_request
            is Some)),
{
    proof {
        lemma_status_by_kind(
            ErrorKindView::Internal { details: "Token value out of range"@ },
            None,
        );
    }
    match total(tokens) {
        None => Err(
            ErrorResponse::new(
                &ErrorKind::Internal { details: "Token value out of range".to_owned() },
                &None,
            ),
        ),
        Some(provided) => {
            if provided < required {
                Err(ErrorResponse::new(&ErrorKind::InsufficientFunds { required, provided }, hint))
            } else {
                Ok(provided)
            }
        },
    }
}

/// A fault in any proof of a token is a fault of the token.
pub proof fn lemma_fault_found(proofs: Seq<ProofView>, from: int, hash: Seq<char>, now: u64, at: int)
    requires
        0 <= from <= at < proofs.len(),
        proof_fault(proofs[at].secret, hash, now) is Some,
    ensures
        first_fault(proofs, from, hash, now) is Some,
    decreases at - from,
{
    if from < at && proof_fault(proofs[from].secret, hash, now) is None {
        lemma_fault_found(proofs, from + 1, hash, now, at);
    }
}

} // verus!
