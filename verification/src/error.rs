//! The errors of the gateway and their shape on the wire: code, message,
//! details, the payment-request hint, and the HTTP status and header that
//! follow from them.

use vstd::prelude::*;
use vstd::string::*;

verus! {

/// Why a melt request was turned down, with what the message will quote.
#[allow(inconsistent_fields)]
#[derive(Debug, Clone)]
pub enum ErrorKind {
    /// The invoice does not parse.
    InvalidInvoice,
    /// Neither the invoice nor the request names an amount.
    MissingAmount,
    /// The method is not BOLT11.
    UnsupportedMethod,
    /// A token failed the DLEQ check, or a secret is no HTLC secret.
    TokenVerificationFailed { details: Option<String> },
    /// A proof is locked to another hash than the invoice's.
    HashMismatch,
    /// A proof can be reclaimed too soon.
    LocktimeTooShort,
    /// The tokens are worth less than the invoice asks.
    InsufficientFunds { required: u64, provided: u64 },
    /// The node did not pay.
    PaymentFailed { details: String },
    /// The node paid and returned no preimage.
    MissingPaymentProof,
    /// A token could not be redeemed after payment.
    TokenReceiveFailed { details: String },
    /// Change could not be minted.
    ChangeMintFailed { details: String },
    /// The gateway itself failed: no wallet for a mint, an amount out of
    /// range, an event out of turn.
    Internal { details: String },
}

/// The mathematical value of an [`ErrorKind`].
#[allow(inconsistent_fields)]
pub enum ErrorKindView {
    InvalidInvoice,
    MissingAmount,
    UnsupportedMethod,
    TokenVerificationFailed { details: Option<Seq<char>> },
    HashMismatch,
    LocktimeTooShort,
    InsufficientFunds { required: u64, provided: u64 },
    PaymentFailed { details: Seq<char> },
    MissingPaymentProof,
    TokenReceiveFailed { details: Seq<char> },
    ChangeMintFailed { details: Seq<char> },
    Internal { details: Seq<char> },
}

impl View for ErrorKind {
    type V = ErrorKindView;

    open spec fn view(&self) -> ErrorKindView {
        match *self {
            ErrorKind::InvalidInvoice => ErrorKindView::InvalidInvoice,
            ErrorKind::MissingAmount => ErrorKindView::MissingAmount,
            ErrorKind::UnsupportedMethod => ErrorKindView::UnsupportedMethod,
            ErrorKind::TokenVerificationFailed { details } => ErrorKindView::TokenVerificationFailed {
                details: details.deep_view(),
            },
            ErrorKind::HashMismatch => ErrorKindView::HashMismatch,
            ErrorKind::LocktimeTooShort => ErrorKindView::LocktimeTooShort,
            ErrorKind::InsufficientFunds { required, provided } => ErrorKindView::InsufficientFunds {
                required,
                provided,
            },
            ErrorKind::PaymentFailed { details } => ErrorKindView::PaymentFailed {
                details: details@,
            },
            ErrorKind::MissingPaymentProof => ErrorKindView::MissingPaymentProof,
            ErrorKind::TokenReceiveFailed { details } => ErrorKindView::TokenReceiveFailed {
                details: details@,
            },
            ErrorKind::ChangeMintFailed { details } => ErrorKindView::ChangeMintFailed {
                details: details@,
            },
            ErrorKind::Internal { details } => ErrorKindView::Internal { details: details@ },
        }
    }
}

/// An error as the client sees it.
#[derive(Debug, Clone)]
pub struct ErrorResponse {
    pub code: u16,
    pub message: String,
    pub details: Option<String>,
    /// The hint for a retry. It travels in a header, never in the body.
    pub payment_request: Option<String>,
}

/// The mathematical value of an [`ErrorResponse`].
pub struct ErrorView {
    pub code: u16,
    pub message: Seq<char>,
    pub details: Option<Seq<char>>,
    pub payment_request: Option<Seq<char>>,
}

impl View for ErrorResponse {
    type V = ErrorView;

    open spec fn view(&self) -> ErrorView {
        ErrorView {
            code: self.code,
            message: self.message@,
            details: self.details.deep_view(),
            payment_request: self.payment_request.deep_view(),
        }
    }
}

impl ErrorKindView {
    /// The code on the wire.
    pub open spec fn code(self) -> u16 {
        match self {
            ErrorKindView::InvalidInvoice
            | ErrorKindView::MissingAmount
            | ErrorKindView::UnsupportedMethod
            | ErrorKindView::TokenVerificationFailed { .. }
            | ErrorKindView::HashMismatch
            | ErrorKindView::LocktimeTooShort => 400,
            ErrorKindView::InsufficientFunds { .. } => 402,
            _ => 500,
        }
    }

    /// The message on the wire.
    pub open spec fn message(self) -> Seq<char> {
        match self {
            ErrorKindView::InvalidInvoice => "Invalid BOLT11 invoice"@,
            ErrorKindView::MissingAmount => "Missing amount"@,
            ErrorKindView::UnsupportedMethod => "Payment method not supported"@,
            ErrorKindView::TokenVerificationFailed { .. } => "Token verification failed"@,
            ErrorKindView::HashMismatch => "Token hash does not match payment hash"@,
            ErrorKindView::LocktimeTooShort => "Token lock time is not long enough"@,
            ErrorKindView::InsufficientFunds { .. } => "Insufficient funds"@,
            ErrorKindView::PaymentFailed { .. } => "Payment failed"@,
            ErrorKindView::MissingPaymentProof => "Missing payment proof"@,
            ErrorKindView::TokenReceiveFailed { .. } => "Failed to process token receive"@,
            ErrorKindView::ChangeMintFailed { .. } => "Failed to mint change"@,
            ErrorKindView::Internal { .. } => "Internal error"@,
        }
    }

    /// The details on the wire.
    pub open spec fn details(self) -> Option<Seq<char>> {
        match self {
            ErrorKindView::InvalidInvoice => None,
            ErrorKindView::MissingAmount => Some(
                "Invoice has no amount specified. Please provide an amount in the request."@,
            ),
            ErrorKindView::UnsupportedMethod => Some("BOLT12 payment method is not supported"@),
            ErrorKindView::TokenVerificationFailed { details } => details,
            ErrorKindView::HashMismatch => None,
            ErrorKindView::LocktimeTooShort => None,
            ErrorKindView::InsufficientFunds { required, provided } => Some(
                "Required: "@ + crate::codec::decimal_text(required as nat) + ", provided: "@
                    + crate::codec::decimal_text(provided as nat),
            ),
            ErrorKindView::PaymentFailed { details } => Some(details),
            ErrorKindView::MissingPaymentProof => None,
            ErrorKindView::TokenReceiveFailed { details } => Some(details),
            ErrorKindView::ChangeMintFailed { details } => Some(details),
            ErrorKindView::Internal { details } => Some(details),
        }
    }

    /// Whether an error of this kind carries the payment-request hint.
    pub open spec fn hinted(self) -> bool {
        match self {
            ErrorKindView::MissingAmount
            | ErrorKindView::TokenVerificationFailed { .. }
            | ErrorKindView::HashMismatch
            | ErrorKindView::LocktimeTooShort
            | ErrorKindView::InsufficientFunds { .. } => true,
            _ => false,
        }
    }
}

/// The error response for a kind of error and the hint at hand.
pub open spec fn error_response(kind: ErrorKindView, hint: Option<Seq<char>>) -> ErrorView {
    ErrorView {
        code: kind.code(),
        message: kind.message(),
        details: kind.details(),
        payment_request: if kind.hinted() {
            hint
        } else {
            None
        },
    }
}

/// Whether a message is one of those that turn a 400 into a 402.
pub open spec fn asks_for_payment(message: Seq<char>) -> bool {
    message == "Insufficient funds"@ || message == "Missing amount"@ || message
        == "Token verification failed"@
}

/// The HTTP status of an error: 402 for a 400 that asks for payment, the code
/// itself where it is a status code, 500 otherwise.
pub open spec fn status_of(e: ErrorView) -> u16 {
    if e.code == 400 && asks_for_payment(e.message) {
        402
    } else if 100 <= e.code <= 999 {
        e.code
    } else {
        500
    }
}

/// Whether a character may stand in the value of an HTTP header: a tab, or
/// anything from the space on but DEL.
pub open spec fn header_char(c: char) -> bool {
    c == '\t' || (' ' <= c && c != '\u{7f}')
}

pub open spec fn header_text(text: Seq<char>) -> bool {
    forall|i: int| 0 <= i < text.len() ==> header_char(#[trigger] text[i])
}

/// Whether a hint, if there is one, can stand in a header.
pub open spec fn header_ready(hint: Option<Seq<char>>) -> bool {
    hint matches Some(text) ==> header_text(text)
}

/// The value of the `X-Cashu` header: the hint, on a 402 whose hint can stand
/// in a header.
pub open spec fn header_of(e: ErrorView) -> Option<Seq<char>> {
    if status_of(e) == 402 && e.payment_request is Some && header_text(e.payment_request->0) {
        e.payment_request
    } else {
        None
    }
}

/// The error as the JSON body carries it: without the hint.
pub open spec fn body_of(e: ErrorView) -> ErrorView {
    ErrorView { payment_request: None, ..e }
}

/// Whether a text is a given literal.
pub fn text_is(text: &String, literal: &str) -> (r: bool)
    ensures
        r == (text@ == literal@),
{
    let other = literal.to_owned();
    *text == other
}

/// A copy of an optional text.
pub fn clone_text(text: &Option<String>) -> (r: Option<String>)
    ensures
        r.deep_view() == text.deep_view(),
{
    match text {
        Some(t) => Some(t.clone()),
        None => None,
    }
}

impl ErrorKind {
    pub fn code(&self) -> (r: u16)
        ensures
            r == self@.code(),
    {
        match self {
            ErrorKind::InvalidInvoice
            | ErrorKind::MissingAmount
            | ErrorKind::UnsupportedMethod
            | ErrorKind::TokenVerificationFailed { .. }
            | ErrorKind::HashMismatch
            | ErrorKind::LocktimeTooShort => 400,
            ErrorKind::InsufficientFunds { .. } => 402,
            _ => 500,
        }
    }

    pub fn message(&self) -> (r: String)
        ensures
            r@ == self@.message(),
    {
        match self {
            ErrorKind::InvalidInvoice => "Invalid BOLT11 invoice".to_owned(),
            ErrorKind::MissingAmount => "Missing amount".to_owned(),
            ErrorKind::UnsupportedMethod => "Payment method not supported".to_owned(),
            ErrorKind::TokenVerificationFailed { .. } => "Token verification failed".to_owned(),
            ErrorKind::HashMismatch => "Token hash does not match payment hash".to_owned(),
            ErrorKind::LocktimeTooShort => "Token lock time is not long enough".to_owned(),
            ErrorKind::InsufficientFunds { .. } => "Insufficient funds".to_owned(),
            ErrorKind::PaymentFailed { .. } => "Payment failed".to_owned(),
            ErrorKind::MissingPaymentProof => "Missing payment proof".to_owned(),
            ErrorKind::TokenReceiveFailed { .. } => "Failed to process token receive".to_owned(),
            ErrorKind::ChangeMintFailed { .. } => "Failed to mint change".to_owned(),
            ErrorKind::Internal { .. } => "Internal error".to_owned(),
        }
    }

    pub fn details(&self) -> (r: Option<String>)
        ensures
            r.deep_view() == self@.details(),
    {
        match self {
            ErrorKind::InvalidInvoice => None,
            ErrorKind::MissingAmount => Some(
                "Invoice has no amount specified. Please provide an amount in the request.".to_owned(),
            ),
            ErrorKind::UnsupportedMethod => Some(
                "BOLT12 payment method is not supported".to_owned(),
            ),
            ErrorKind::TokenVerificationFailed { details } => clone_text(details),
            ErrorKind::HashMismatch => None,
            ErrorKind::LocktimeTooShort => None,
            ErrorKind::InsufficientFunds { required, provided } => {
                let mut text = "Required: ".to_owned();
                let required_text = crate::codec::decimal(*required);
                text.append(required_text.as_str());
                text.append(", provided: ");
                let provided_text = crate::codec::decimal(*provided);
                text.append(provided_text.as_str());
                Some(text)
            },
            ErrorKind::PaymentFailed { details } => Some(details.clone()),
            ErrorKind::MissingPaymentProof => None,
            ErrorKind::TokenReceiveFailed { details } => Some(details.clone()),
            ErrorKind::ChangeMintFailed { details } => Some(details.clone()),
            ErrorKind::Internal { details } => Some(details.clone()),
        }
    }

    pub fn hinted(&self) -> (r: bool)
        ensures
            r == self@.hinted(),
    {
        match self {
            ErrorKind::MissingAmount
            | ErrorKind::TokenVerificationFailed { .. }
            | ErrorKind::HashMismatch
            | ErrorKind::LocktimeTooShort
            | ErrorKind::InsufficientFunds { .. } => true,
            _ => false,
        }
    }
}

impl ErrorResponse {
    /// The response for a kind of error. The hint is attached where the kind
    /// carries one and dropped where it does not.
    pub fn new(kind: &ErrorKind, hint: &Option<String>) -> (r: ErrorResponse)
        ensures
            r@ == error_response(kind@, hint.deep_view()),
            header_ready(hint.deep_view()) ==> header_ready(r@.payment_request),
    {
        let payment_request = if kind.hinted() {
            clone_text(hint)
        } else {
            None
        };
        ErrorResponse {
            code: kind.code(),
            message: kind.message(),
            details: kind.details(),
            payment_request,
        }
    }

    /// The HTTP status that the response goes out with.
    pub fn status(&self) -> (r: u16)
        ensures
            r == status_of(self@),
    {
        if self.code == 400 && (text_is(&self.message, "Insufficient funds") || text_is(
            &self.message,
            "Missing amount",
        ) || text_is(&self.message, "Token verification failed")) {
            402
        } else if 100 <= self.code && self.code <= 999 {
            self.code
        } else {
            500
        }
    }

    /// The value of the `X-Cashu` header, where the response has one.
    pub fn header(&self) -> (r: Option<String>)
        ensures
            r.deep_view() == header_of(self@),
    {
        if self.status() != 402 {
            return None;
        }
        match &self.payment_request {
            Some(hint) => {
                if is_header_text(hint.as_str()) {
                    Some(hint.clone())
                } else {
                    None
                }
            },
            None => None,
        }
    }

    /// The response as the JSON body carries it: without the hint.
    pub fn body(&self) -> (r: ErrorResponse)
        ensures
            r@ == body_of(self@),
    {
        ErrorResponse {
            code: self.code,
            message: self.message.clone(),
            details: clone_text(&self.details),
            payment_request: None,
        }
    }
}

/// Whether a text can be the value of an HTTP header.
pub fn is_header_text(text: &str) -> (r: bool)
    ensures
        r == header_text(text@),
{
    let n = text.unicode_len();
    let mut i: usize = 0;
    while i < n
        invariant
            n == text@.len(),
            i <= n,
            forall|j: int| 0 <= j < i ==> header_char(#[trigger] text@[j]),
        decreases n - i,
    {
        let c = text.get_char(i);
        if !(c == '\t' || (' ' <= c && c != '\u{7f}')) {
            return false;
        }
        i += 1;
    }
    true
}

} // verus!
