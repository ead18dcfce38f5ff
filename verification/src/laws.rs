//! What holds of the gateway as a whole: statements that relate the decoder,
//! the validator, the swap and the shape of errors, each proved from their
//! definitions.

use crate::codec::{invoice_of, payment_request_of};
use crate::decoder::{decode_spec, unit, PlanView};
use crate::error::{
    body_of, error_response, header_of, header_text, status_of, ErrorKindView, ErrorView,
};
use crate::gateway_server::{MeltRequestView, PaymentMethod};
use crate::swap::{
    all_bound, begin_spec, change_amount, lemma_begin_well_formed, lemma_faultless_token_is_bound,
    lemma_step_well_formed, step, well_formed, ActionView, EventView, PhaseView, SwapView,
};
use crate::token::{decoded_all, distinct_mints, total_value, ProofView, TokenView};
use crate::validator::{
    bound_to, expires_early, first_fault, lemma_fault_found, proof_fault, token_fault,
};
use vstd::prelude::*;

verus! {

/// The HTTP status that each kind of error goes out with.
pub open spec fn status_by_kind(kind: ErrorKindView) -> u16 {
    match kind {
        ErrorKindView::MissingAmount
        | ErrorKindView::TokenVerificationFailed { .. }
        | ErrorKindView::InsufficientFunds { .. } => 402,
        ErrorKindView::InvalidInvoice
        | ErrorKindView::UnsupportedMethod
        | ErrorKindView::HashMismatch
        | ErrorKindView::LocktimeTooShort => 400,
        _ => 500,
    }
}

/// The status of an error follows from its kind alone: a missing amount, a
/// failed token verification and insufficient funds ask for payment (402); the
/// other faults of a request are bad requests (400); what fails after
/// validation is a server error (500).
pub proof fn lemma_status_by_kind(kind: ErrorKindView, hint: Option<Seq<char>>)
    ensures
        status_of(error_response(kind, hint)) == status_by_kind(kind),
{
    reveal_strlit("Insufficient funds");
    reveal_strlit("Missing amount");
    reveal_strlit("Token verification failed");
    reveal_strlit("Invalid BOLT11 invoice");
    reveal_strlit("Payment method not supported");
    reveal_strlit("Token hash does not match payment hash");
    reveal_strlit("Token lock time is not long enough");
    assert("Insufficient funds"@.len() == 18);
    assert("Missing amount"@.len() == 14);
    assert("Token verification failed"@.len() == 25);
    assert("Invalid BOLT11 invoice"@.len() == 22);
    assert("Payment method not supported"@.len() == 28);
    assert("Token hash does not match payment hash"@.len() == 38);
    assert("Token lock time is not long enough"@.len() == 34);
}

/// The body of an error never carries the hint, and the header carries it
/// only on a 402.
pub proof fn lemma_hint_travels_in_header_only(e: ErrorView)
    ensures
        body_of(e).payment_request is None,
        body_of(e).code == e.code,
        body_of(e).message == e.message,
        body_of(e).details == e.details,
        header_of(e) is Some ==> status_of(e) == 402 && header_of(e) == e.payment_request,
        status_of(e) != 402 ==> header_of(e) is None,
{
}

/// Tokens worth less than the amount to pay: the request is turned down at
/// once, with code 402 in the body and status 402, and with the payment
/// request for the required amount and the invoice's hash as its hint. The
/// header carries that hint wherever its text can stand in a header.
pub proof fn lemma_insufficient_funds(request: MeltRequestView, mints: Seq<Seq<char>>, plan: PlanView)
    requires
        decode_spec(request, mints) == Ok::<PlanView, ErrorView>(plan),
        total_value(decoded_all(request.tokens)) < plan.amount,
    ensures
        begin_spec(request, mints) matches Err(e) && {
            &&& e.code == 402
            &&& body_of(e).code == 402
            &&& status_of(e) == 402
            &&& e.message == "Insufficient funds"@
            &&& e.payment_request == payment_request_of(unit(), plan.amount, mints, plan.payment_hash)
            &&& (e.payment_request is Some && header_text(e.payment_request->0)) ==> header_of(e)
                == e.payment_request
        },
{
    let provided = total_value(decoded_all(request.tokens)) as u64;
    lemma_status_by_kind(
        ErrorKindView::InsufficientFunds { required: plan.amount, provided },
        plan.payment_request,
    );
}

/// An amount that the invoice embeds decides the amount to pay, whatever
/// amount the request names: it is the embedded amount in milli-satoshi
/// divided by a thousand, rounded down.
pub proof fn lemma_embedded_amount_takes_precedence(
    request: MeltRequestView,
    mints: Seq<Seq<char>>,
    hash: Seq<char>,
    msat: u64,
)
    requires
        request.method == PaymentMethod::Bolt11,
        invoice_of(request.request) == Some((hash, Some(msat))),
    ensures
        decode_spec(request, mints) matches Ok(plan) && plan.amount == msat / 1000
            && plan.payment_hash == hash,
{
}

/// Decoding is a function of the request: two requests with the same method,
/// invoice and amount decode alike, down to the text of the hint, whatever
/// tokens they carry.
pub proof fn lemma_decoder_is_a_function(a: MeltRequestView, b: MeltRequestView, mints: Seq<Seq<char>>)
    requires
        a.method == b.method,
        a.request == b.request,
        a.amount == b.amount,
    ensures
        decode_spec(a, mints) == decode_spec(b, mints),
{
}

/// Any method but BOLT11 fails as unsupported, with status 400 and no hint,
/// whatever else the request holds: neither the invoice nor a token is
/// looked at.
pub proof fn lemma_method_whitelist(request: MeltRequestView, mints: Seq<Seq<char>>)
    requires
        request.method != PaymentMethod::Bolt11,
    ensures
        decode_spec(request, mints) == Err::<PlanView, ErrorView>(
            error_response(ErrorKindView::UnsupportedMethod, None),
        ),
        begin_spec(request, mints) == Err::<(SwapView, ActionView), ErrorView>(
            error_response(ErrorKindView::UnsupportedMethod, None),
        ),
        error_response(ErrorKindView::UnsupportedMethod, None).message
            == "Payment method not supported"@,
        status_of(error_response(ErrorKindView::UnsupportedMethod, None)) == 400,
        header_of(error_response(ErrorKindView::UnsupportedMethod, None)) is None,
{
    lemma_status_by_kind(ErrorKindView::UnsupportedMethod, None);
}

/// The actions that a swap asks for as events arrive, each event with the
/// time of its arrival.
pub open spec fn run(s: SwapView, inputs: Seq<(EventView, u64)>) -> Seq<ActionView>
    decreases inputs.len(),
{
    if inputs.len() == 0 {
        Seq::empty()
    } else {
        let (next, action) = step(s, inputs[0].0, inputs[0].1);
        seq![action] + run(next, inputs.drop_first())
    }
}

/// Whether an action leaves the node and the tokens alone: it only asks for a
/// token's verification, or turns the client down.
pub open spec fn harmless(action: ActionView) -> bool {
    action is VerifyToken || action is Reject
}

/// Whether a proof is faulty at each of the times at which events arrive.
pub open spec fn faulty_throughout(secret: Seq<char>, hash: Seq<char>, inputs: Seq<(EventView, u64)>) -> bool {
    forall|i: int| 0 <= i < inputs.len() ==> proof_fault(secret, hash, (#[trigger] inputs[i]).1) is Some
}

pub proof fn lemma_run_len(s: SwapView, inputs: Seq<(EventView, u64)>)
    ensures
        run(s, inputs).len() == inputs.len(),
    decreases inputs.len(),
{
    if inputs.len() > 0 {
        lemma_run_len(step(s, inputs[0].0, inputs[0].1).0, inputs.drop_first());
    }
}

/// A finished swap only turns down what comes.
pub proof fn lemma_finished_stays(s: SwapView, inputs: Seq<(EventView, u64)>)
    requires
        s.phase is Finished,
    ensures
        forall|i: int| 0 <= i < run(s, inputs).len() ==> (#[trigger] run(s, inputs)[i]) is Reject,
    decreases inputs.len(),
{
    if inputs.len() > 0 {
        lemma_finished_stays(step(s, inputs[0].0, inputs[0].1).0, inputs.drop_first());
    }
}

/// A swap that still has to verify a token with a proof that is faulty
/// whenever an event arrives never gets past it: whatever the wallets and the
/// node report, it pays nothing, redeems nothing, mints nothing, and does not
/// answer with success.
pub proof fn lemma_faulty_token_stops_swap(
    s: SwapView,
    inputs: Seq<(EventView, u64)>,
    token: int,
    proof_index: int,
)
    requires
        s.phase is Finished || (s.phase matches PhaseView::Verifying { index } && 0 <= index
            <= token),
        0 <= token < s.tokens.len(),
        0 <= proof_index < s.tokens[token].proofs.len(),
        faulty_throughout(
            s.tokens[token].proofs[proof_index].secret,
            s.plan.payment_hash,
            inputs,
        ),
    ensures
        forall|i: int| 0 <= i < run(s, inputs).len() ==> harmless(#[trigger] run(s, inputs)[i]),
    decreases inputs.len(),
{
    if inputs.len() > 0 {
        let (next, action) = step(s, inputs[0].0, inputs[0].1);
        let rest = inputs.drop_first();
        assert(faulty_throughout(
            s.tokens[token].proofs[proof_index].secret,
            s.plan.payment_hash,
            rest,
        )) by {
            assert forall|i: int| 0 <= i < rest.len() implies proof_fault(
                s.tokens[token].proofs[proof_index].secret,
                s.plan.payment_hash,
                (#[trigger] rest[i]).1,
            ) is Some by {
                assert(rest[i] == inputs[i + 1]);
            }
        }
        if let PhaseView::Verifying { index } = s.phase {
            if index == token {
                assert(proof_fault(
                    s.tokens[token].proofs[proof_index].secret,
                    s.plan.payment_hash,
                    inputs[0].1,
                ) is Some);
                lemma_fault_found(
                    s.tokens[token].proofs,
                    0,
                    s.plan.payment_hash,
                    inputs[0].1,
                    proof_index,
                );
            }
        }
        assert(harmless(action));
        assert(next.tokens == s.tokens && next.plan == s.plan);
        lemma_faulty_token_stops_swap(next, rest, token, proof_index);
        assert forall|i: int| 0 <= i < run(s, inputs).len() implies harmless(
            #[trigger] run(s, inputs)[i],
        ) by {
            if i > 0 {
                assert(run(s, inputs)[i] == run(next, rest)[i - 1]);
            }
        }
    }
}

/// A proof that is not locked to the invoice's hash (it is locked to another
/// hash, or in another way, or its secret cannot be read): the request is
/// turned down at once, or its swap never pays the node, never redeems a
/// token and never answers with success, whatever the wallets report and
/// whenever.
pub proof fn lemma_hash_mismatch_is_never_paid(
    request: MeltRequestView,
    mints: Seq<Seq<char>>,
    inputs: Seq<(EventView, u64)>,
    token: int,
    proof_index: int,
)
    requires
        decode_spec(request, mints) is Ok,
        0 <= token < decoded_all(request.tokens).len(),
        0 <= proof_index < decoded_all(request.tokens)[token].proofs.len(),
        !bound_to(
            decoded_all(request.tokens)[token].proofs[proof_index].secret,
            decode_spec(request, mints)->Ok_0.payment_hash,
        ),
    ensures
        begin_spec(request, mints) matches Ok((swap, action)) ==> harmless(action) && forall|i: int|
            0 <= i < run(swap, inputs).len() ==> harmless(#[trigger] run(swap, inputs)[i]),
{
    if let Ok((swap, action)) = begin_spec(request, mints) {
        lemma_faulty_token_stops_swap(swap, inputs, token, proof_index);
    }
}

/// A proof whose lock time does not leave the margin when the request
/// arrives: as long as the clock does not go back, the request is turned down
/// at once, or its swap never pays the node, never redeems a token and never
/// answers with success.
pub proof fn lemma_early_expiry_is_never_paid(
    request: MeltRequestView,
    mints: Seq<Seq<char>>,
    arrival: u64,
    inputs: Seq<(EventView, u64)>,
    token: int,
    proof_index: int,
)
    requires
        decode_spec(request, mints) is Ok,
        0 <= token < decoded_all(request.tokens).len(),
        0 <= proof_index < decoded_all(request.tokens)[token].proofs.len(),
        expires_early(decoded_all(request.tokens)[token].proofs[proof_index].secret, arrival),
        forall|i: int| 0 <= i < inputs.len() ==> (#[trigger] inputs[i]).1 >= arrival,
    ensures
        begin_spec(request, mints) matches Ok((swap, action)) ==> harmless(action) && forall|i: int|
            0 <= i < run(swap, inputs).len() ==> harmless(#[trigger] run(swap, inputs)[i]),
{
    if let Ok((swap, action)) = begin_spec(request, mints) {
        lemma_faulty_token_stops_swap(swap, inputs, token, proof_index);
    }
}

/// An error that ends a swap carries the hint of the request where its kind
/// carries one, and no other hint.
pub proof fn lemma_rejection_carries_the_hint(s: SwapView, e: EventView, now: u64)
    ensures
        step(s, e, now).1 matches ActionView::Reject(error) ==> error.payment_request is None
            || error.payment_request == s.plan.payment_request,
        step(s, e, now).1 matches ActionView::Reject(error) ==> (status_of(error) == 402
            ==> error.payment_request == s.plan.payment_request),
{
    if let ActionView::Reject(error) = step(s, e, now).1 {
        if let PhaseView::Verifying { index } = s.phase {
            if 0 <= index < s.tokens.len() {
                if let Some(kind) = token_fault(s.tokens[index], s.plan.payment_hash, now) {
                    lemma_fault_kinds(s.tokens[index].proofs, 0, s.plan.payment_hash, now);
                    lemma_status_by_kind(kind, s.plan.payment_request);
                }
                if let EventView::TokenRefused { reason } = e {
                    lemma_status_by_kind(
                        ErrorKindView::TokenVerificationFailed {
                            details: Some("DLEQ verification error: "@ + reason),
                        },
                        s.plan.payment_request,
                    );
                }
                lemma_status_by_kind(
                    ErrorKindView::Internal {
                        details: "No wallet for mint "@ + s.tokens[index].mint_url,
                    },
                    s.plan.payment_request,
                );
            }
        }
        lemma_status_by_kind(
            ErrorKindView::Internal { details: "Event out of turn"@ },
            s.plan.payment_request,
        );
        if let PhaseView::Redeeming { index, .. } = s.phase {
            if 0 <= index < s.tokens.len() {
                lemma_status_by_kind(
                    ErrorKindView::Internal {
                        details: "No wallet for mint "@ + s.tokens[index].mint_url,
                    },
                    s.plan.payment_request,
                );
            }
        }
        if let PhaseView::Minting { index, .. } = s.phase {
            if 0 <= index < s.mints.len() {
                lemma_status_by_kind(
                    ErrorKindView::Internal { details: "No wallet for mint "@ + s.mints[index] },
                    s.plan.payment_request,
                );
            }
        }
        match e {
            EventView::PaymentFailed { reason } => lemma_status_by_kind(
                ErrorKindView::PaymentFailed { details: reason },
                s.plan.payment_request,
            ),
            EventView::ReceiveFailed { reason } => lemma_status_by_kind(
                ErrorKindView::TokenReceiveFailed { details: reason },
                s.plan.payment_request,
            ),
            EventView::ChangeFailed { reason } => lemma_status_by_kind(
                ErrorKindView::ChangeMintFailed { details: reason },
                s.plan.payment_request,
            ),
            _ => {},
        }
        lemma_status_by_kind(ErrorKindView::MissingPaymentProof, s.plan.payment_request);
    }
}

/// A swap whose request has a hint that can stand in a header: every error
/// that goes out as 402 carries that hint in its header.
pub proof fn lemma_payment_required_has_header(s: SwapView, e: EventView, now: u64)
    requires
        s.plan.payment_request is Some,
        header_text(s.plan.payment_request->0),
    ensures
        step(s, e, now).0.plan.payment_request == s.plan.payment_request,
        step(s, e, now).1 matches ActionView::Reject(error) ==> (status_of(error) == 402
            ==> header_of(error) == s.plan.payment_request),
{
    lemma_rejection_carries_the_hint(s, e, now);
}

/// The fault of a token is one of three kinds: a failed verification, a hash
/// mismatch, or a lock time that is too short.
pub proof fn lemma_fault_kinds(proofs: Seq<ProofView>, from: int, hash: Seq<char>, now: u64)
    ensures
        first_fault(proofs, from, hash, now) matches Some(kind) ==> kind
            is TokenVerificationFailed || kind is HashMismatch || kind is LocktimeTooShort,
    decreases proofs.len() - from,
{
    if 0 <= from < proofs.len() && proof_fault(proofs[from].secret, hash, now) is None {
        lemma_fault_kinds(proofs, from + 1, hash, now);
    }
}

/// The node is asked to pay only once every token is accepted and the tokens
/// cover the amount: the step that asks for payment is the one that accepts
/// the last token, and the invoice paid is the request's.
pub proof fn lemma_payment_follows_validation(s: SwapView, e: EventView, now: u64)
    requires
        well_formed(s),
        step(s, e, now).1 is Pay,
    ensures
        s.phase matches PhaseView::Verifying { index } && index == s.tokens.len() - 1
            && token_fault(s.tokens[index], s.plan.payment_hash, now) is None,
        e is TokenVerified,
        all_bound(s),
        total_value(s.tokens) >= s.plan.amount,
        step(s, e, now).1 == (ActionView::Pay { bolt11: s.plan.bolt11 }),
        step(s, e, now).0.phase is Paying,
{
    if let PhaseView::Verifying { index } = s.phase {
        lemma_faultless_token_is_bound(s.tokens[index], s.plan.payment_hash, now);
    }
}

/// Once the payment is asked for, it is never asked for again.
pub proof fn lemma_no_second_payment(s: SwapView, inputs: Seq<(EventView, u64)>)
    requires
        !(s.phase is Verifying),
    ensures
        forall|i: int| 0 <= i < run(s, inputs).len() ==> !((#[trigger] run(s, inputs)[i]) is Pay),
    decreases inputs.len(),
{
    if inputs.len() > 0 {
        let (next, action) = step(s, inputs[0].0, inputs[0].1);
        let rest = inputs.drop_first();
        lemma_no_second_payment(next, rest);
        assert forall|i: int| 0 <= i < run(s, inputs).len() implies !((#[trigger] run(s, inputs)[i])
            is Pay) by {
            if i > 0 {
                assert(run(s, inputs)[i] == run(next, rest)[i - 1]);
            }
        }
    }
}

/// The node is asked to pay at most once in the life of a swap.
pub proof fn lemma_pays_at_most_once(s: SwapView, inputs: Seq<(EventView, u64)>, first: int, second: int)
    requires
        0 <= first < second < inputs.len(),
        run(s, inputs)[first] is Pay,
    ensures
        !(run(s, inputs)[second] is Pay),
    decreases inputs.len(),
{
    let (next, action) = step(s, inputs[0].0, inputs[0].1);
    let rest = inputs.drop_first();
    lemma_run_len(next, rest);
    assert(run(s, inputs)[second] == run(next, rest)[second - 1]);
    if first == 0 {
        assert(action is Pay);
        lemma_no_second_payment(next, rest);
    } else {
        assert(run(s, inputs)[first] == run(next, rest)[first - 1]);
        lemma_pays_at_most_once(next, rest, first - 1, second - 1);
    }
}

/// A token is redeemed only with the preimage that the node's payment
/// revealed, which is not empty, and only once every token is bound to the
/// invoice's hash: the first right after the node reports the payment, each
/// further one after the one before is redeemed.
pub proof fn lemma_redemption_follows_payment(s: SwapView, e: EventView, now: u64)
    requires
        well_formed(s),
        step(s, e, now).1 is Receive,
    ensures
        step(s, e, now).1->Receive_preimage.len() > 0,
        all_bound(s),
        ({
            let used = step(s, e, now).1->Receive_preimage;
            ||| s.phase is Paying && e is Paid && e->payment_proof == Some(used)
            ||| s.phase is Redeeming && s.phase->Redeeming_preimage == used && e is Received
        }),
{
}

/// How far a swap has come: verifying, then paying and redeeming, then
/// minting change, then done.
pub open spec fn stage_of(s: SwapView) -> int {
    match s.phase {
        PhaseView::Verifying { .. } => 0,
        PhaseView::Paying => 1,
        PhaseView::Redeeming { .. } => 2,
        PhaseView::Minting { .. } => 3,
        PhaseView::Finished => 4,
    }
}

/// The stage that an action belongs to.
pub open spec fn stage_of_action(action: ActionView) -> int {
    match action {
        ActionView::VerifyToken { .. } => 0,
        ActionView::Pay { .. } => 1,
        ActionView::Receive { .. } => 2,
        ActionView::MintChange { .. } => 3,
        ActionView::Respond(_) => 4,
        ActionView::Reject(_) => 4,
    }
}

/// A step never goes back: its action belongs to the stage that the swap is
/// in afterwards, which is no earlier than the one before, and later where
/// the action is a payment.
pub proof fn lemma_step_goes_forward(s: SwapView, e: EventView, now: u64)
    ensures
        stage_of(step(s, e, now).0) == stage_of_action(step(s, e, now).1),
        stage_of(s) <= stage_of(step(s, e, now).0),
        step(s, e, now).1 is Pay ==> stage_of(s) < stage_of(step(s, e, now).0),
{
}

/// The stages of a swap follow each other in order: all verifications come
/// before the payment, the payment before every redemption, every redemption
/// before any change, and the answer last.
pub proof fn lemma_stages_in_order(s: SwapView, inputs: Seq<(EventView, u64)>, earlier: int, later: int)
    requires
        0 <= earlier <= later < inputs.len(),
    ensures
        stage_of(s) <= stage_of_action(run(s, inputs)[earlier]) <= stage_of_action(
            run(s, inputs)[later],
        ),
    decreases inputs.len(),
{
    let (next, action) = step(s, inputs[0].0, inputs[0].1);
    let rest = inputs.drop_first();
    lemma_run_len(next, rest);
    lemma_step_goes_forward(s, inputs[0].0, inputs[0].1);
    if earlier == 0 {
        if later > 0 {
            assert(run(s, inputs)[later] == run(next, rest)[later - 1]);
            lemma_stages_in_order(next, rest, later - 1, later - 1);
        }
    } else {
        assert(run(s, inputs)[earlier] == run(next, rest)[earlier - 1]);
        assert(run(s, inputs)[later] == run(next, rest)[later - 1]);
        lemma_stages_in_order(next, rest, earlier - 1, later - 1);
    }
}

/// The change that a sequence of actions asks the mints for, in all.
pub open spec fn change_requested(actions: Seq<ActionView>) -> nat
    decreases actions.len(),
{
    if actions.len() == 0 {
        0
    } else {
        let rest = change_requested(actions.drop_first());
        match actions[0] {
            ActionView::MintChange { amount, .. } => amount as nat + rest,
            _ => rest,
        }
    }
}

/// What the node reports to have spent: the amount in the first report of a
/// payment.
pub open spec fn spent_in(inputs: Seq<(EventView, u64)>) -> u64
    decreases inputs.len(),
{
    if inputs.len() == 0 {
        0
    } else {
        match inputs[0].0 {
            EventView::Paid { total_spent, .. } => total_spent,
            _ => spent_in(inputs.drop_first()),
        }
    }
}

/// The change of a swap: fixed once the node is paid, and before that what
/// the node's report will leave of the tokens' value.
pub open spec fn change_due(s: SwapView, inputs: Seq<(EventView, u64)>) -> u64 {
    match s.phase {
        PhaseView::Redeeming { change, .. } => change,
        PhaseView::Minting { change, .. } => change,
        _ => change_amount(s.total, spent_in(inputs)),
    }
}

/// The mints that a swap has yet to ask for change.
pub open spec fn mints_ahead(s: SwapView) -> int {
    match s.phase {
        PhaseView::Minting { index, .. } => s.mints.len() - index - 1,
        PhaseView::Finished => 0,
        _ => s.mints.len() as int,
    }
}

proof fn lemma_last_of_run(s: SwapView, inputs: Seq<(EventView, u64)>)
    requires
        inputs.len() > 1,
    ensures
        run(s, inputs).last() == run(
            step(s, inputs[0].0, inputs[0].1).0,
            inputs.drop_first(),
        ).last(),
{
    let next = step(s, inputs[0].0, inputs[0].1).0;
    lemma_run_len(s, inputs);
    lemma_run_len(next, inputs.drop_first());
}

proof fn lemma_change_requested_step(s: SwapView, inputs: Seq<(EventView, u64)>)
    requires
        inputs.len() > 0,
    ensures
        change_requested(run(s, inputs)) == change_requested(
            run(step(s, inputs[0].0, inputs[0].1).0, inputs.drop_first()),
        ) + (match step(s, inputs[0].0, inputs[0].1).1 {
            ActionView::MintChange { amount, .. } => amount as nat,
            _ => 0,
        }),
{
    let (next, action) = step(s, inputs[0].0, inputs[0].1);
    assert(run(s, inputs).drop_first() =~= run(next, inputs.drop_first()));
}

/// Where a swap ends with success, every mint still ahead was asked for the
/// change that is due, and the answer holds one change token for each mint
/// of the tokens; where no change is due, no mint was asked and the answer
/// holds no change.
pub proof fn lemma_change_of_successful_swap(s: SwapView, inputs: Seq<(EventView, u64)>)
    requires
        well_formed(s),
        inputs.len() > 0,
        run(s, inputs).last() is Respond,
    ensures
        change_due(s, inputs) > 0 ==> change_requested(run(s, inputs)) == mints_ahead(s)
            * change_due(s, inputs) && run(s, inputs).last()->Respond_0.change.len()
            == s.mints.len(),
        change_due(s, inputs) == 0 ==> change_requested(run(s, inputs)) == 0 && run(
            s,
            inputs,
        ).last()->Respond_0.change.len() == 0,
    decreases inputs.len(),
{
    let (next, action) = step(s, inputs[0].0, inputs[0].1);
    let rest = inputs.drop_first();
    let due = change_due(s, inputs);
    lemma_run_len(s, inputs);
    lemma_run_len(next, rest);
    lemma_step_well_formed(s, inputs[0].0, inputs[0].1);
    lemma_change_requested_step(s, inputs);
    if rest.len() == 0 {
        assert(run(next, rest) =~= Seq::<ActionView>::empty());
        assert(run(s, inputs) =~= seq![action]);
        assert(run(s, inputs).last() == action);
        assert(action is Respond);
        assert(change_requested(run(s, inputs)) == 0);
        lemma_answer_of_last_step(s, inputs[0].0, inputs[0].1);
        if due > 0 {
            assert(mints_ahead(s) == 0);
            assert(mints_ahead(s) * due == 0) by (nonlinear_arith)
                requires
                    mints_ahead(s) == 0,
            ;
        }
    } else {
        lemma_last_of_run(s, inputs);
        if next.phase is Finished {
            lemma_finished_stays(next, rest);
            assert(run(next, rest).last() is Reject);
        }
        lemma_change_of_successful_swap(next, rest);
        lemma_change_carries_over(s, inputs);
        assert(change_due(next, rest) == due);
        if due > 0 {
            if action is MintChange {
                assert(mints_ahead(s) == mints_ahead(next) + 1);
                assert(action->MintChange_amount == due);
                assert(mints_ahead(s) * due == mints_ahead(next) * due + due)
                    by (nonlinear_arith)
                    requires
                        mints_ahead(s) == mints_ahead(next) + 1,
                ;
            } else {
                assert(mints_ahead(s) == mints_ahead(next));
            }
        } else {
            assert(!(action is MintChange));
        }
    }
}

/// The step that answers with success: the change that is due is what the
/// state holds, or what the node's report leaves; no mint is left to ask; and
/// the answer holds a token for each mint where change is due, none where it
/// is not.
proof fn lemma_answer_of_last_step(s: SwapView, e: EventView, now: u64)
    requires
        well_formed(s),
        step(s, e, now).1 is Respond,
    ensures
        ({
            let due = change_due(s, seq![(e, now)]);
            let answer = step(s, e, now).1->Respond_0;
            &&& due > 0 ==> mints_ahead(s) == 0 && answer.change.len() == s.mints.len()
            &&& due == 0 ==> answer.change.len() == 0
        }),
{
    let inputs = seq![(e, now)];
    assert(inputs[0] == (e, now));
    match s.phase {
        PhaseView::Paying => {
            assert(e is Paid);
            assert(spent_in(inputs) == e->total_spent);
        },
        PhaseView::Redeeming { index, preimage, change } => {
            lemma_no_tokens_no_mints(s.tokens);
        },
        PhaseView::Minting { index, preimage, change, minted } => {},
        _ => {},
    }
}

/// A step that does not end the swap leaves the change that is due as it is,
/// and asks a mint for change only where change is due, and then for all of
/// it.
proof fn lemma_change_carries_over(s: SwapView, inputs: Seq<(EventView, u64)>)
    requires
        well_formed(s),
        inputs.len() > 0,
        !(step(s, inputs[0].0, inputs[0].1).0.phase is Finished),
    ensures
        ({
            let (next, action) = step(s, inputs[0].0, inputs[0].1);
            let due = change_due(s, inputs);
            &&& change_due(next, inputs.drop_first()) == due
            &&& action is MintChange ==> due > 0 && action->MintChange_amount == due
                && mints_ahead(s) == mints_ahead(next) + 1
            &&& !(action is MintChange) ==> mints_ahead(s) == mints_ahead(next)
        }),
{
    let e = inputs[0].0;
    match s.phase {
        PhaseView::Verifying { index } => {
            assert(e is TokenVerified);
            assert(spent_in(inputs) == spent_in(inputs.drop_first()));
        },
        PhaseView::Paying => {
            assert(e is Paid);
            assert(spent_in(inputs) == e->total_spent);
        },
        _ => {},
    }
}

/// No mint without a token.
pub proof fn lemma_no_tokens_no_mints(tokens: Seq<TokenView>)
    ensures
        distinct_mints(tokens).len() <= tokens.len(),
        tokens.len() > 0 ==> distinct_mints(tokens).len() > 0,
    decreases tokens.len(),
{
    if tokens.len() > 0 {
        lemma_no_tokens_no_mints(tokens.drop_last());
        let before = distinct_mints(tokens.drop_last());
        if before.contains(tokens.last().mint_url) {
            assert(before.len() > 0);
        }
    }
}

/// The mints of a list of tokens: each token's mint is among them, each of
/// them is some token's mint, and none stands twice.
pub proof fn lemma_distinct_mints(tokens: Seq<TokenView>)
    ensures
        forall|j: int| 0 <= j < tokens.len() ==> distinct_mints(tokens).contains(
            (#[trigger] tokens[j]).mint_url,
        ),
        forall|m: int|
            0 <= m < distinct_mints(tokens).len() ==> exists|j: int|
                0 <= j < tokens.len() && (#[trigger] tokens[j]).mint_url == #[trigger] distinct_mints(
                    tokens,
                )[m],
        distinct_mints(tokens).no_duplicates(),
    decreases tokens.len(),
{
    if tokens.len() > 0 {
        let front = tokens.drop_last();
        let before = distinct_mints(front);
        let all = distinct_mints(tokens);
        lemma_distinct_mints(front);
        assert forall|j: int| 0 <= j < tokens.len() implies all.contains(
            (#[trigger] tokens[j]).mint_url,
        ) by {
            if j < front.len() {
                assert(front[j] == tokens[j]);
                let m = choose|m: int| 0 <= m < before.len() && before[m] == front[j].mint_url;
                assert(all[m] == tokens[j].mint_url);
            } else if before.contains(tokens.last().mint_url) {
            } else {
                assert(all[before.len() as int] == tokens[j].mint_url);
            }
        }
        assert forall|m: int| 0 <= m < all.len() implies exists|j: int|
            0 <= j < tokens.len() && (#[trigger] tokens[j]).mint_url == #[trigger] all[m] by {
            if m < before.len() {
                assert(all[m] == before[m]);
                let j = choose|j: int|
                    0 <= j < front.len() && (#[trigger] front[j]).mint_url == before[m];
                assert(tokens[j] == front[j]);
            } else {
                assert(tokens[tokens.len() - 1].mint_url == all[m]);
            }
        }
    }
}

/// A request that goes through, from its beginning: the answer holds one
/// change token for each mint that a token came from, each asked for with
/// the whole change, which is what the node's spending leaves of the tokens'
/// value, or nothing where it leaves nothing.
pub proof fn lemma_change_of_request(
    request: MeltRequestView,
    mints: Seq<Seq<char>>,
    inputs: Seq<(EventView, u64)>,
)
    requires
        begin_spec(request, mints) is Ok,
        inputs.len() > 0,
        run(begin_spec(request, mints)->Ok_0.0, inputs).last() is Respond,
    ensures
        ({
            let tokens = decoded_all(request.tokens);
            let swap = begin_spec(request, mints)->Ok_0.0;
            let change = change_amount(total_value(tokens) as u64, spent_in(inputs));
            let answer = run(swap, inputs).last()->Respond_0;
            &&& total_value(tokens) <= u64::MAX
            &&& change > 0 ==> answer.change.len() == distinct_mints(tokens).len()
            &&& change == 0 ==> answer.change.len() == 0
            &&& change_requested(run(swap, inputs)) == answer.change.len() * change
        }),
{
    let swap = begin_spec(request, mints)->Ok_0.0;
    lemma_begin_well_formed(request, mints);
    lemma_change_of_successful_swap(swap, inputs);
    assert(!(swap.phase is Minting) && !(swap.phase is Redeeming) && !(swap.phase is Finished));
    let change = change_due(swap, inputs);
    if change == 0 {
        assert(0 * change == 0) by (nonlinear_arith);
    }
}

/// A request that goes through with tokens of a single mint: the change asked
/// for is exactly the tokens' value less what the node spent, or zero where
/// the node spent more.
pub proof fn lemma_change_is_exact_for_one_mint(
    request: MeltRequestView,
    mints: Seq<Seq<char>>,
    inputs: Seq<(EventView, u64)>,
)
    requires
        begin_spec(request, mints) is Ok,
        inputs.len() > 0,
        run(begin_spec(request, mints)->Ok_0.0, inputs).last() is Respond,
        distinct_mints(decoded_all(request.tokens)).len() <= 1,
    ensures
        ({
            let total = total_value(decoded_all(request.tokens));
            let spent = spent_in(inputs);
            let asked = change_requested(run(begin_spec(request, mints)->Ok_0.0, inputs));
            &&& spent <= total ==> asked == total - spent
            &&& spent > total ==> asked == 0
        }),
{
    let tokens = decoded_all(request.tokens);
    let swap = begin_spec(request, mints)->Ok_0.0;
    lemma_change_of_request(request, mints, inputs);
    lemma_no_tokens_no_mints(tokens);
    let change = change_amount(total_value(tokens) as u64, spent_in(inputs));
    let answer = run(swap, inputs).last()->Respond_0;
    if change > 0 {
        assert(tokens.len() > 0);
        assert(answer.change.len() == 1);
        assert(1 * change == change) by (nonlinear_arith);
    } else {
        assert(answer.change.len() * change == 0) by (nonlinear_arith)
            requires
                change == 0,
        ;
    }
}

} // verus!
