//! The swap itself, as a state machine. The gateway's own work (deciding
//! what comes next) is [`Swap::begin`] and [`Swap::advance`]; the work of the
//! wallets and the node is done by whoever drives the machine: it carries
//! out each [`Action`] and reports back with an [`Event`].
//!
//! A swap verifies each token, then pays the invoice, then redeems each token
//! with the preimage, then mints change at each mint that a token came from.
//!
//! Two things to know before relying on it. Each mint is asked for the whole
//! change, so a swap whose tokens come from several mints hands the change
//! out once per mint; only with a single mint is the change exactly what the
//! payment left. And once the node has paid, nothing is taken back: a token
//! that cannot be redeemed afterwards ends the swap with an error, and the
//! preimage is then in the hands of the driver alone, in the last
//! [`Action::Receive`] it was given.

use crate::codec::{mints_parse, unix_time};
use crate::decoder::{decode_request, decode_spec, PaymentPlan, PlanView};
use crate::error::{
    error_response, header_of, header_ready, status_of, ErrorKind, ErrorKindView, ErrorResponse,
    ErrorView,
};
use crate::gateway_server::{
    GatwayState, MeltRequest, MeltRequestView, MeltResponse, MeltResponseView,
};
use crate::token::{
    decode_all, decoded_all, distinct_mints, total_value, used_mints, Token, TokenView,
};
use crate::validator::{
    bound_to, check_funds, check_token, funds_spec, lemma_fault_found, proof_fault, token_fault,
};
use vstd::prelude::*;
use vstd::string::*;

verus! {

/// Where a swap stands.
#[derive(Debug, Clone)]
pub enum Phase {
    /// The tokens before `index` are accepted; the DLEQ check of the token at
    /// `index` is awaited.
    Verifying { index: usize },
    /// All tokens are accepted; the payment is awaited.
    Paying,
    /// The invoice is paid; the redemption of the token at `index` is awaited.
    Redeeming { index: usize, preimage: String, change: u64 },
    /// All tokens are redeemed; change from the mint at `index` is awaited.
    Minting { index: usize, preimage: String, change: u64, minted: Vec<String> },
    /// The client has its answer.
    Finished,
}

/// The mathematical value of a [`Phase`].
#[allow(inconsistent_fields)]
pub enum PhaseView {
    Verifying { index: int },
    Paying,
    Redeeming { index: int, preimage: Seq<char>, change: u64 },
    Minting { index: int, preimage: Seq<char>, change: u64, minted: Seq<Seq<char>> },
    Finished,
}

impl View for Phase {
    type V = PhaseView;

    open spec fn view(&self) -> PhaseView {
        match *self {
            Phase::Verifying { index } => PhaseView::Verifying { index: index as int },
            Phase::Paying => PhaseView::Paying,
            Phase::Redeeming { index, preimage, change } => PhaseView::Redeeming {
                index: index as int,
                preimage: preimage@,
                change,
            },
            Phase::Minting { index, preimage, change, minted } => PhaseView::Minting {
                index: index as int,
                preimage: preimage@,
                change,
                minted: minted.deep_view(),
            },
            Phase::Finished => PhaseView::Finished,
        }
    }
}

/// One melt request on its way.
#[derive(Debug, Clone)]
pub struct Swap {
    /// What the request asks for.
    pub plan: PaymentPlan,
    /// The tokens that decoded, in the order in which the client sent them.
    pub tokens: Vec<Token>,
    /// The total value of the tokens.
    pub total: u64,
    /// The mints of the tokens, each once, in the order of first appearance.
    pub mints: Vec<String>,
    pub phase: Phase,
}

/// The mathematical value of a [`Swap`].
pub struct SwapView {
    pub plan: PlanView,
    pub tokens: Seq<TokenView>,
    pub total: u64,
    pub mints: Seq<Seq<char>>,
    pub phase: PhaseView,
}

impl View for Swap {
    type V = SwapView;

    open spec fn view(&self) -> SwapView {
        SwapView {
            plan: self.plan@,
            tokens: self.tokens.deep_view(),
            total: self.total,
            mints: self.mints.deep_view(),
            phase: self.phase@,
        }
    }
}

/// What the driver of a swap is to do next.
#[derive(Debug, Clone)]
pub enum Action {
    /// Find the wallet of the mint and have it verify the token's DLEQ
    /// proofs.
    VerifyToken { mint_url: String, token: String },
    /// Have the node pay the invoice.
    Pay { bolt11: String },
    /// Have the wallet of the mint redeem the token with the preimage.
    Receive { mint_url: String, token: String, preimage: String },
    /// Have the wallet of the mint send a token of this amount.
    MintChange { mint_url: String, amount: u64 },
    /// Answer the client: the swap went through.
    Respond(MeltResponse),
    /// Answer the client: the swap failed.
    Reject(ErrorResponse),
}

/// The mathematical value of an [`Action`].
#[allow(inconsistent_fields)]
pub enum ActionView {
    VerifyToken { mint_url: Seq<char>, token: Seq<char> },
    Pay { bolt11: Seq<char> },
    Receive { mint_url: Seq<char>, token: Seq<char>, preimage: Seq<char> },
    MintChange { mint_url: Seq<char>, amount: u64 },
    Respond(MeltResponseView),
    Reject(ErrorView),
}

impl View for Action {
    type V = ActionView;

    open spec fn view(&self) -> ActionView {
        match *self {
            Action::VerifyToken { mint_url, token } => ActionView::VerifyToken {
                mint_url: mint_url@,
                token: token@,
            },
            Action::Pay { bolt11 } => ActionView::Pay { bolt11: bolt11@ },
            Action::Receive { mint_url, token, preimage } => ActionView::Receive {
                mint_url: mint_url@,
                token: token@,
                preimage: preimage@,
            },
            Action::MintChange { mint_url, amount } => ActionView::MintChange {
                mint_url: mint_url@,
                amount,
            },
            Action::Respond(response) => ActionView::Respond(response@),
            Action::Reject(error) => ActionView::Reject(error@),
        }
    }
}

/// What came of the last action.
#[derive(Debug, Clone)]
pub enum Event {
    /// The gateway has no wallet for the mint.
    WalletMissing,
    /// The token's DLEQ proofs hold.
    TokenVerified,
    /// The token's DLEQ proofs do not hold.
    TokenRefused { reason: String },
    /// The node paid. The proof is the preimage; an empty one counts as none.
    Paid { payment_proof: Option<String>, total_spent: u64 },
    /// The node did not pay.
    PaymentFailed { reason: String },
    /// The token is redeemed.
    Received,
    /// The token could not be redeemed.
    ReceiveFailed { reason: String },
    /// The wallet sent a token as change.
    ChangeMinted { token: String },
    /// The wallet could not send change.
    ChangeFailed { reason: String },
}

/// The mathematical value of an [`Event`].
pub enum EventView {
    WalletMissing,
    TokenVerified,
    TokenRefused { reason: Seq<char> },
    Paid { payment_proof: Option<Seq<char>>, total_spent: u64 },
    PaymentFailed { reason: Seq<char> },
    Received,
    ReceiveFailed { reason: Seq<char> },
    ChangeMinted { token: Seq<char> },
    ChangeFailed { reason: Seq<char> },
}

impl View for Event {
    type V = EventView;

    open spec fn view(&self) -> EventView {
        match *self {
            Event::WalletMissing => EventView::WalletMissing,
            Event::TokenVerified => EventView::TokenVerified,
            Event::TokenRefused { reason } => EventView::TokenRefused { reason: reason@ },
            Event::Paid { payment_proof, total_spent } => EventView::Paid {
                payment_proof: payment_proof.deep_view(),
                total_spent,
            },
            Event::PaymentFailed { reason } => EventView::PaymentFailed { reason: reason@ },
            Event::Received => EventView::Received,
            Event::ReceiveFailed { reason } => EventView::ReceiveFailed { reason: reason@ },
            Event::ChangeMinted { token } => EventView::ChangeMinted { token: token@ },
            Event::ChangeFailed { reason } => EventView::ChangeFailed { reason: reason@ },
        }
    }
}

/// What is left of the tokens' value once the node is paid: the difference,
/// or nothing where the node spent more.
pub open spec fn change_amount(total: u64, spent: u64) -> u64 {
    if total >= spent {
        (total - spent) as u64
    } else {
        0
    }
}

/// The swap, finished.
pub open spec fn finished(s: SwapView) -> SwapView {
    SwapView { phase: PhaseView::Finished, ..s }
}

/// The swap fails: the client gets the error, with the hint where the kind of
/// error carries one.
pub open spec fn reject(s: SwapView, kind: ErrorKindView) -> (SwapView, ActionView) {
    (finished(s), ActionView::Reject(error_response(kind, s.plan.payment_request)))
}

/// An event that the phase does not await ends the swap.
pub open spec fn out_of_turn(s: SwapView) -> (SwapView, ActionView) {
    reject(s, ErrorKindView::Internal { details: "Event out of turn"@ })
}

/// No wallet for a mint ends the swap.
pub open spec fn no_wallet(s: SwapView, mint_url: Seq<char>) -> (SwapView, ActionView) {
    reject(s, ErrorKindView::Internal { details: "No wallet for mint "@ + mint_url })
}

/// With the tokens before `index` accepted: verify the token at `index`, or
/// pay where none is left.
pub open spec fn verify_next(s: SwapView, index: int) -> (SwapView, ActionView) {
    if 0 <= index < s.tokens.len() {
        (
            SwapView { phase: PhaseView::Verifying { index }, ..s },
            ActionView::VerifyToken {
                mint_url: s.tokens[index].mint_url,
                token: s.tokens[index].encoded,
            },
        )
    } else {
        (SwapView { phase: PhaseView::Paying, ..s }, ActionView::Pay { bolt11: s.plan.bolt11 })
    }
}

/// With the tokens before `index` redeemed: redeem the token at `index`, or
/// turn to the change where none is left.
pub open spec fn redeem_next(s: SwapView, index: int, preimage: Seq<char>, change: u64) -> (
    SwapView,
    ActionView,
) {
    if 0 <= index < s.tokens.len() {
        (
            SwapView { phase: PhaseView::Redeeming { index, preimage, change }, ..s },
            ActionView::Receive {
                mint_url: s.tokens[index].mint_url,
                token: s.tokens[index].encoded,
                preimage,
            },
        )
    } else {
        mint_next(s, 0, preimage, change, Seq::empty())
    }
}

/// With change from the mints before `index` at hand: ask the mint at `index`
/// for the change, or answer the client where no mint is left or there is no
/// change to give.
pub open spec fn mint_next(
    s: SwapView,
    index: int,
    preimage: Seq<char>,
    change: u64,
    minted: Seq<Seq<char>>,
) -> (SwapView, ActionView) {
    if change > 0 && 0 <= index < s.mints.len() {
        (
            SwapView { phase: PhaseView::Minting { index, preimage, change, minted }, ..s },
            ActionView::MintChange { mint_url: s.mints[index], amount: change },
        )
    } else {
        (
            finished(s),
            ActionView::Respond(MeltResponseView { payment_proof: preimage, change: minted }),
        )
    }
}

/// One step of a swap: the state and the action that follow from a state and
/// an event that arrives at time `now`.
pub open spec fn step(s: SwapView, e: EventView, now: u64) -> (SwapView, ActionView) {
    match s.phase {
        PhaseView::Verifying { index } => if !(0 <= index < s.tokens.len()) {
            out_of_turn(s)
        } else {
            match e {
                EventView::WalletMissing => no_wallet(s, s.tokens[index].mint_url),
                EventView::TokenRefused { reason } => reject(
                    s,
                    ErrorKindView::TokenVerificationFailed {
                        details: Some("DLEQ verification error: "@ + reason),
                    },
                ),
                EventView::TokenVerified => match token_fault(
                    s.tokens[index],
                    s.plan.payment_hash,
                    now,
                ) {
                    Some(kind) => reject(s, kind),
                    None => verify_next(s, index + 1),
                },
                _ => out_of_turn(s),
            }
        },
        PhaseView::Paying => match e {
            EventView::PaymentFailed { reason } => reject(
                s,
                ErrorKindView::PaymentFailed { details: reason },
            ),
            EventView::Paid { payment_proof: None, .. } => reject(
                s,
                ErrorKindView::MissingPaymentProof,
            ),
            EventView::Paid { payment_proof: Some(preimage), total_spent } => if preimage.len()
                == 0 {
                reject(s, ErrorKindView::MissingPaymentProof)
            } else {
                redeem_next(s, 0, preimage, change_amount(s.total, total_spent))
            },
            _ => out_of_turn(s),
        },
        PhaseView::Redeeming { index, preimage, change } => if !(0 <= index < s.tokens.len()) {
            out_of_turn(s)
        } else {
            match e {
                EventView::WalletMissing => no_wallet(s, s.tokens[index].mint_url),
                EventView::ReceiveFailed { reason } => reject(
                    s,
                    ErrorKindView::TokenReceiveFailed { details: reason },
                ),
                EventView::Received => redeem_next(s, index + 1, preimage, change),
                _ => out_of_turn(s),
            }
        },
        PhaseView::Minting { index, preimage, change, minted } => if !(0 <= index
            < s.mints.len()) {
            out_of_turn(s)
        } else {
            match e {
                EventView::WalletMissing => no_wallet(s, s.mints[index]),
                EventView::ChangeFailed { reason } => reject(
                    s,
                    ErrorKindView::ChangeMintFailed { details: reason },
                ),
                EventView::ChangeMinted { token } => mint_next(
                    s,
                    index + 1,
                    preimage,
                    change,
                    minted.push(token),
                ),
                _ => out_of_turn(s),
            }
        },
        PhaseView::Finished => out_of_turn(s),
    }
}

/// How a swap begins: the request is decoded, the tokens are decoded and
/// their total is held against the amount; then the first token is to be
/// verified, or the invoice paid where there is no token.
pub open spec fn begin_spec(request: MeltRequestView, mints: Seq<Seq<char>>) -> Result<
    (SwapView, ActionView),
    ErrorView,
> {
    match decode_spec(request, mints) {
        Err(e) => Err(e),
        Ok(plan) => {
            let tokens = decoded_all(request.tokens);
            match funds_spec(tokens, plan.amount, plan.payment_request) {
                Err(e) => Err(e),
                Ok(total) => Ok(
                    verify_next(
                        SwapView {
                            plan,
                            tokens,
                            total,
                            mints: distinct_mints(tokens),
                            phase: PhaseView::Finished,
                        },
                        0,
                    ),
                ),
            }
        },
    }
}

pub open spec fn begin_result_view(r: Result<(Swap, Action), ErrorResponse>) -> Result<
    (SwapView, ActionView),
    ErrorView,
> {
    match r {
        Ok((swap, action)) => Ok((swap@, action@)),
        Err(e) => Err(e@),
    }
}

/// Whether every proof of a token states an HTLC on the given hash.
pub open spec fn token_bound(token: TokenView, hash: Seq<char>) -> bool {
    forall|k: int| 0 <= k < token.proofs.len() ==> bound_to(#[trigger] token.proofs[k].secret, hash)
}

/// Whether every token of a swap is bound to the invoice's hash.
pub open spec fn all_bound(s: SwapView) -> bool {
    forall|j: int| 0 <= j < s.tokens.len() ==> token_bound(#[trigger] s.tokens[j], s.plan.payment_hash)
}

/// What holds of a swap from its beginning to its end: the tokens cover the
/// amount; the tokens verified so far are bound to the invoice's hash, and
/// all of them are once the payment is on its way; tokens are redeemed with
/// a preimage that is not empty; change is minted only where there is change,
/// one mint after the other.
pub open spec fn well_formed(s: SwapView) -> bool {
    &&& s.total == total_value(s.tokens)
    &&& s.total >= s.plan.amount
    &&& s.mints == distinct_mints(s.tokens)
    &&& match s.phase {
        PhaseView::Verifying { index } => 0 <= index < s.tokens.len() && forall|j: int|
            0 <= j < index ==> token_bound(#[trigger] s.tokens[j], s.plan.payment_hash),
        PhaseView::Paying => all_bound(s),
        PhaseView::Redeeming { index, preimage, .. } => 0 <= index < s.tokens.len()
            && preimage.len() > 0 && all_bound(s),
        PhaseView::Minting { index, preimage, change, minted } => 0 <= index < s.mints.len()
            && preimage.len() > 0 && change > 0 && minted.len() == index && all_bound(s),
        PhaseView::Finished => true,
    }
}

/// A token without a fault is bound to the hash.
pub proof fn lemma_faultless_token_is_bound(token: TokenView, hash: Seq<char>, now: u64)
    requires
        token_fault(token, hash, now) is None,
    ensures
        token_bound(token, hash),
{
    assert forall|k: int| 0 <= k < token.proofs.len() implies bound_to(
        #[trigger] token.proofs[k].secret,
        hash,
    ) by {
        if proof_fault(token.proofs[k].secret, hash, now) is Some {
            lemma_fault_found(token.proofs, 0, hash, now, k);
        }
    }
}

/// A swap begins well-formed.
pub proof fn lemma_begin_well_formed(request: MeltRequestView, mints: Seq<Seq<char>>)
    ensures
        begin_spec(request, mints) matches Ok((swap, action)) ==> well_formed(swap) && (action is Pay
            || action is VerifyToken),
{
}

/// A step keeps a swap well-formed, and leaves its request, its tokens and
/// their mints as they are.
pub proof fn lemma_step_well_formed(s: SwapView, e: EventView, now: u64)
    requires
        well_formed(s),
    ensures
        well_formed(step(s, e, now).0),
        step(s, e, now).0.plan == s.plan,
        step(s, e, now).0.tokens == s.tokens,
        step(s, e, now).0.total == s.total,
        step(s, e, now).0.mints == s.mints,
{
    if let PhaseView::Verifying { index } = s.phase {
        if e is TokenVerified && token_fault(s.tokens[index], s.plan.payment_hash, now) is None {
            lemma_faultless_token_is_bound(s.tokens[index], s.plan.payment_hash, now);
        }
    }
}

/// What is left of the tokens' value once the node is paid.
pub fn change_for(total: u64, spent: u64) -> (r: u64)
    ensures
        r == change_amount(total, spent),
{
    match total.checked_sub(spent) {
        Some(change) => change,
        None => 0,
    }
}

fn do_reject(swap: Swap, kind: ErrorKind) -> (r: (Swap, Action))
    ensures
        (r.0@, r.1@) == reject(swap@, kind@),
{
    let error = ErrorResponse::new(&kind, &swap.plan.payment_request);
    let Swap { plan, tokens, total, mints, phase } = swap;
    (Swap { plan, tokens, total, mints, phase: Phase::Finished }, Action::Reject(error))
}

fn do_out_of_turn(swap: Swap) -> (r: (Swap, Action))
    ensures
        (r.0@, r.1@) == out_of_turn(swap@),
{
    do_reject(swap, ErrorKind::Internal { details: "Event out of turn".to_owned() })
}

fn do_no_wallet(swap: Swap, mint_url: &String) -> (r: (Swap, Action))
    ensures
        (r.0@, r.1@) == no_wallet(swap@, mint_url@),
{
    let details = "No wallet for mint ".to_owned().concat(mint_url.as_str());
    do_reject(swap, ErrorKind::Internal { details })
}

fn do_verify_next(swap: Swap, index: usize) -> (r: (Swap, Action))
    ensures
        (r.0@, r.1@) == verify_next(swap@, index as int),
{
    let Swap { plan, tokens, total, mints, phase } = swap;
    if index < tokens.len() {
        assert(tokens.deep_view()[index as int] == tokens@[index as int]@);
        let action = Action::VerifyToken {
            mint_url: tokens[index].mint_url.clone(),
            token: tokens[index].encoded.clone(),
        };
        (Swap { plan, tokens, total, mints, phase: Phase::Verifying { index } }, action)
    } else {
        let action = Action::Pay { bolt11: plan.bolt11.clone() };
        (Swap { plan, tokens, total, mints, phase: Phase::Paying }, action)
    }
}

fn do_mint_next(swap: Swap, index: usize, preimage: String, change: u64, minted: Vec<String>) -> (r:
    (Swap, Action))
    ensures
        (r.0@, r.1@) == mint_next(swap@, index as int, preimage@, change, minted.deep_view()),
{
    let Swap { plan, tokens, total, mints, phase } = swap;
    if change > 0 && index < mints.len() {
        assert(mints.deep_view()[index as int] == mints@[index as int]@);
        let action = Action::MintChange { mint_url: mints[index].clone(), amount: change };
        (
            Swap { plan, tokens, total, mints, phase: Phase::Minting { index, preimage, change, minted } },
            action,
        )
    } else {
        let response = MeltResponse { payment_proof: preimage, change: minted };
        (Swap { plan, tokens, total, mints, phase: Phase::Finished }, Action::Respond(response))
    }
}

fn do_redeem_next(swap: Swap, index: usize, preimage: String, change: u64) -> (r: (Swap, Action))
    ensures
        (r.0@, r.1@) == redeem_next(swap@, index as int, preimage@, change),
{
    if index < swap.tokens.len() {
        let Swap { plan, tokens, total, mints, phase } = swap;
        assert(tokens.deep_view()[index as int] == tokens@[index as int]@);
        let action = Action::Receive {
            mint_url: tokens[index].mint_url.clone(),
            token: tokens[index].encoded.clone(),
            preimage: preimage.clone(),
        };
        (Swap { plan, tokens, total, mints, phase: Phase::Redeeming { index, preimage, change } }, action)
    } else {
        let minted: Vec<String> = Vec::new();
        assert(minted.deep_view() =~= Seq::<Seq<char>>::empty());
        do_mint_next(swap, 0, preimage, change, minted)
    }
}

impl Swap {
    /// Begins the swap that a request asks for: the first action to take, or
    /// the error that the client gets at once.
    pub fn begin(request: &MeltRequest, state: &GatwayState) -> (r: Result<
        (Swap, Action),
        ErrorResponse,
    >)
        ensures
            begin_result_view(r) == begin_spec(request@, state.mints.deep_view()),
            match r {
                Ok((swap, _)) => well_formed(swap@) && header_ready(swap@.plan.payment_request),
                Err(e) => header_ready(e@.payment_request),
            },
            mints_parse(state.mints.deep_view()) ==> match r {
                Ok((swap, _)) => swap@.plan.payment_request is Some,
                Err(e) => status_of(e@) == 402 ==> header_of(e@) is Some && header_of(e@)
                    == e@.payment_request,
            },
    {
        proof {
            lemma_begin_well_formed(request@, state.mints.deep_view());
        }
        let plan = match decode_request(request, &state.mints) {
            Err(e) => {
                return Err(e);
            },
            Ok(plan) => plan,
        };
        let tokens = decode_all(&request.tokens);
        let total = match check_funds(&tokens, plan.amount, &plan.payment_request) {
            Err(e) => {
                return Err(e);
            },
            Ok(total) => total,
        };
        let mints = used_mints(&tokens);
        Ok(do_verify_next(Swap { plan, tokens, total, mints, phase: Phase::Finished }, 0))
    }

    /// Takes one step at time `now`: the event is what came of the last
    /// action.
    pub fn advance_at(self, event: Event, now: u64) -> (r: (Swap, Action))
        ensures
            (r.0@, r.1@) == step(self@, event@, now),
            well_formed(self@) ==> well_formed(r.0@),
    {
        proof {
            if well_formed(self@) {
                lemma_step_well_formed(self@, event@, now);
            }
        }
        let Swap { plan, tokens, total, mints, phase } = self;
        let swap = Swap { plan, tokens, total, mints, phase: Phase::Finished };
        match phase {
            Phase::Verifying { index } => {
                if index >= swap.tokens.len() {
                    return do_out_of_turn(swap);
                }
                assert(swap.tokens.deep_view()[index as int] == swap.tokens@[index as int]@);
                match event {
                    Event::WalletMissing => {
                        let mint_url = swap.tokens[index].mint_url.clone();
                        do_no_wallet(swap, &mint_url)
                    },
                    Event::TokenRefused { reason } => {
                        let details = "DLEQ verification error: ".to_owned().concat(
                            reason.as_str(),
                        );
                        do_reject(
                            swap,
                            ErrorKind::TokenVerificationFailed { details: Some(details) },
                        )
                    },
                    Event::TokenVerified => {
                        match check_token(&swap.tokens[index], &swap.plan.payment_hash, now) {
                            Some(kind) => do_reject(swap, kind),
                            None => do_verify_next(swap, index + 1),
                        }
                    },
                    _ => do_out_of_turn(swap),
                }
            },
            Phase::Paying => match event {
                Event::PaymentFailed { reason } => do_reject(
                    swap,
                    ErrorKind::PaymentFailed { details: reason },
                ),
                Event::Paid { payment_proof: None, total_spent } => do_reject(
                    swap,
                    ErrorKind::MissingPaymentProof,
                ),
                Event::Paid { payment_proof: Some(preimage), total_spent } => {
                    if preimage.as_str().is_empty() {
                        do_reject(swap, ErrorKind::MissingPaymentProof)
                    } else {
                        let change = change_for(swap.total, total_spent);
                        do_redeem_next(swap, 0, preimage, change)
                    }
                },
                _ => do_out_of_turn(swap),
            },
            Phase::Redeeming { index, preimage, change } => {
                if index >= swap.tokens.len() {
                    return do_out_of_turn(swap);
                }
                assert(swap.tokens.deep_view()[index as int] == swap.tokens@[index as int]@);
                match event {
                    Event::WalletMissing => {
                        let mint_url = swap.tokens[index].mint_url.clone();
                        do_no_wallet(swap, &mint_url)
                    },
                    Event::ReceiveFailed { reason } => do_reject(
                        swap,
                        ErrorKind::TokenReceiveFailed { details: reason },
                    ),
                    Event::Received => do_redeem_next(swap, index + 1, preimage, change),
                    _ => do_out_of_turn(swap),
                }
            },
            Phase::Minting { index, preimage, change, minted } => {
                if index >= swap.mints.len() {
                    return do_out_of_turn(swap);
                }
                assert(swap.mints.deep_view()[index as int] == swap.mints@[index as int]@);
                match event {
                    Event::WalletMissing => {
                        let mint_url = swap.mints[index].clone();
                        do_no_wallet(swap, &mint_url)
                    },
                    Event::ChangeFailed { reason } => do_reject(
                        swap,
                        ErrorKind::ChangeMintFailed { details: reason },
                    ),
                    Event::ChangeMinted { token } => {
                        let mut minted = minted;
                        let ghost before = minted.deep_view();
                        minted.push(token);
                        assert(minted.deep_view() =~= before.push(token@));
                        do_mint_next(swap, index + 1, preimage, change, minted)
                    },
                    _ => do_out_of_turn(swap),
                }
            },
            Phase::Finished => do_out_of_turn(swap),
        }
    }

    /// Takes one step at the time that the clock shows. The result is the
    /// step at some time: which one, the clock decides.
    pub fn advance(self, event: Event) -> (r: (Swap, Action))
        ensures
            exists|now: u64| (r.0@, r.1@) == #[trigger] step(self@, event@, now),
            well_formed(self@) ==> well_formed(r.0@),
    {
        let now = unix_time();
        self.advance_at(event, now)
    }
}

} // verus!
