//! The request decoder: from a melt request to the payment hash, the amount
//! to pay and the hint that later errors carry.

use crate::codec::{
    decode_invoice, encode_payment_request, htlc_hash_of, invoice_of, mints_parse,
    payment_request_of,
};
use crate::error::{
    error_response, header_ready, status_of, ErrorKind, ErrorKindView, ErrorResponse, ErrorView,
};
use crate::gateway_server::{MeltRequest, MeltRequestView, PaymentMethod};
use crate::laws::lemma_status_by_kind;
use vstd::prelude::*;

verus! {

/// What the decoder makes of a request.
#[derive(Debug, Clone)]
pub struct PaymentPlan {
    /// The payment hash of the invoice, in hexadecimal.
    pub payment_hash: String,
    /// The amount to pay, in satoshi.
    pub amount: u64,
    /// The invoice, as the node will get it.
    pub bolt11: String,
    /// The hint for a retry: a payment request for this amount, the supported
    /// mints and this hash.
    pub payment_request: Option<String>,
}

/// The mathematical value of a [`PaymentPlan`].
pub struct PlanView {
    pub payment_hash: Seq<char>,
    pub amount: u64,
    pub bolt11: Seq<char>,
    pub payment_request: Option<Seq<char>>,
}

impl View for PaymentPlan {
    type V = PlanView;

    open spec fn view(&self) -> PlanView {
        PlanView {
            payment_hash: self.payment_hash@,
            amount: self.amount,
            bolt11: self.bolt11@,
            payment_request: self.payment_request.deep_view(),
        }
    }
}

/// The unit that the gateway pays and takes tokens in.
pub open spec fn unit() -> Seq<char> {
    "sat"@
}

/// The amount to pay in satoshi: the invoice's own amount in milli-satoshi,
/// divided by a thousand and rounded down, where it has one; else the amount
/// that the request names.
pub open spec fn required_amount(embedded_msat: Option<u64>, requested: Option<u64>) -> Option<u64> {
    match embedded_msat {
        Some(msat) => Some((msat / 1000) as u64),
        None => requested,
    }
}

/// What decoding a request gives.
///
/// The method is looked at first, then the invoice, then the amount. A
/// missing amount is reported with a hint for the amount zero.
pub open spec fn decode_spec(request: MeltRequestView, mints: Seq<Seq<char>>) -> Result<
    PlanView,
    ErrorView,
> {
    if request.method != PaymentMethod::Bolt11 {
        Err(error_response(ErrorKindView::UnsupportedMethod, None))
    } else {
        match invoice_of(request.request) {
            None => Err(error_response(ErrorKindView::InvalidInvoice, None)),
            Some((hash, embedded)) => match required_amount(embedded, request.amount) {
                None => Err(
                    error_response(ErrorKindView::MissingAmount, payment_request_of(unit(), 0, mints, hash)),
                ),
                Some(amount) => Ok(
                    PlanView {
                        payment_hash: hash,
                        amount,
                        bolt11: request.request,
                        payment_request: payment_request_of(unit(), amount, mints, hash),
                    },
                ),
            },
        }
    }
}

pub open spec fn plan_result_view(r: Result<PaymentPlan, ErrorResponse>) -> Result<
    PlanView,
    ErrorView,
> {
    match r {
        Ok(plan) => Ok(plan@),
        Err(e) => Err(e@),
    }
}

/// Decodes a melt request against the list of supported mints.
pub fn decode_request(request: &MeltRequest, mints: &Vec<String>) -> (r: Result<
    PaymentPlan,
    ErrorResponse,
>)
    ensures
        plan_result_view(r) == decode_spec(request@, mints.deep_view()),
        match r {
            Ok(plan) => header_ready(plan@.payment_request) && htlc_hash_of(plan@.payment_hash)
                is Some,
            Err(e) => header_ready(e@.payment_request),
        },
        mints_parse(mints.deep_view()) ==> match r {
            Ok(plan) => plan@.payment_request is Some,
            Err(e) => status_of(e@) == 402 ==> e@.payment_request is Some,
        },
{
    proof {
        lemma_status_by_kind(ErrorKindView::UnsupportedMethod, None);
        lemma_status_by_kind(ErrorKindView::InvalidInvoice, None);
    }
    if request.method != PaymentMethod::Bolt11 {
        return Err(ErrorResponse::new(&ErrorKind::UnsupportedMethod, &None));
    }
    let (hash, embedded) = match decode_invoice(request.request.as_str()) {
        None => {
            return Err(ErrorResponse::new(&ErrorKind::InvalidInvoice, &None));
        },
        Some(invoice) => invoice,
    };
    let amount = match embedded {
        Some(msat) => msat / 1000,
        None => match request.amount {
            Some(amount) => amount,
            None => {
                let hint = encode_payment_request("sat", 0, mints, hash.as_str());
                return Err(ErrorResponse::new(&ErrorKind::MissingAmount, &hint));
            },
        },
    };
    let payment_request = encode_payment_request("sat", amount, mints, hash.as_str());
    Ok(PaymentPlan { payment_hash: hash, amount, bolt11: request.request.clone(), payment_request })
}

} // verus!
