//! What travels between the gateway and its clients: the melt request, the
//! melt response, the list of mints; and the state that requests share.

use crate::codec::{canonical_mint_url, mint_url_of, mints_parse};
pub use crate::error::ErrorResponse;
use vstd::prelude::*;

verus! {

/// The answer to a request for the supported mints.
#[derive(Debug, Clone)]
pub struct GatwayInfo {
    pub mints: Vec<String>,
}

/// How the client wants the invoice paid.
#[derive(Debug, Clone, Copy, PartialEq, Eq, Structural)]
pub enum PaymentMethod {
    Bolt11,
    Bolt12,
}

impl Default for PaymentMethod {
    fn default() -> (r: Self)
        ensures
            r == PaymentMethod::Bolt11,
    {
        PaymentMethod::Bolt11
    }
}

/// A request to pay an invoice with tokens.
#[derive(Debug, Clone)]
pub struct MeltRequest {
    pub method: PaymentMethod,
    /// The invoice.
    pub request: String,
    /// The amount in satoshi, for an invoice that names none.
    pub amount: Option<u64>,
    /// The tokens, locked to the invoice's payment hash.
    pub tokens: Vec<String>,
}

/// The mathematical value of a [`MeltRequest`].
pub struct MeltRequestView {
    pub method: PaymentMethod,
    pub request: Seq<char>,
    pub amount: Option<u64>,
    pub tokens: Seq<Seq<char>>,
}

impl View for MeltRequest {
    type V = MeltRequestView;

    open spec fn view(&self) -> MeltRequestView {
        MeltRequestView {
            method: self.method,
            request: self.request@,
            amount: self.amount,
            tokens: self.tokens.deep_view(),
        }
    }
}

/// The answer to a melt request that went through.
#[derive(Debug, Clone)]
pub struct MeltResponse {
    /// The preimage that the payment revealed.
    pub payment_proof: String,
    /// The change, as tokens.
    pub change: Vec<String>,
}

/// The mathematical value of a [`MeltResponse`].
pub struct MeltResponseView {
    pub payment_proof: Seq<char>,
    pub change: Seq<Seq<char>>,
}

impl View for MeltResponse {
    type V = MeltResponseView;

    open spec fn view(&self) -> MeltResponseView {
        MeltResponseView { payment_proof: self.payment_proof@, change: self.change.deep_view() }
    }
}

/// What all requests share: the mints that the gateway takes tokens from.
#[derive(Debug, Clone)]
pub struct GatwayState {
    pub mints: Vec<String>,
}

/// Whether a URL has a canonical form that is itself read as a mint URL.
pub open spec fn is_mint_url(url: Seq<char>) -> bool {
    mint_url_of(url) matches Some(canonical) && mint_url_of(canonical) is Some
}

/// The canonical forms of a list of URLs, if each is a mint URL.
pub open spec fn canonical_mints(urls: Seq<Seq<char>>) -> Option<Seq<Seq<char>>> {
    if forall|i: int| 0 <= i < urls.len() ==> is_mint_url(#[trigger] urls[i]) {
        Some(Seq::new(urls.len(), |i: int| mint_url_of(urls[i])->0))
    } else {
        None
    }
}

/// A copy of a list of texts.
pub fn clone_texts(texts: &Vec<String>) -> (r: Vec<String>)
    ensures
        r.deep_view() == texts.deep_view(),
{
    let mut copy: Vec<String> = Vec::new();
    let mut i: usize = 0;
    while i < texts.len()
        invariant
            i <= texts.len(),
            copy.deep_view() == texts.deep_view().take(i as int),
        decreases texts.len() - i,
    {
        let ghost before = copy.deep_view();
        copy.push(texts[i].clone());
        assert(copy.deep_view() =~= before.push(texts@[i as int]@));
        assert(copy.deep_view() =~= texts.deep_view().take(i + 1));
        i += 1;
    }
    assert(copy.deep_view() =~= texts.deep_view());
    copy
}

impl GatwayState {
    /// The state for a list of mint URLs, each in its canonical form. `None`
    /// where one of them is no mint URL. Each mint of the state is read as a
    /// mint URL, so that a payment request can name it.
    pub fn new(urls: &Vec<String>) -> (r: Option<GatwayState>)
        ensures
            match r {
                Some(state) => canonical_mints(urls.deep_view()) == Some(state.mints.deep_view())
                    && mints_parse(state.mints.deep_view()),
                None => canonical_mints(urls.deep_view()) is None,
            },
    {
        let ghost all = urls.deep_view();
        let mut mints: Vec<String> = Vec::new();
        let mut i: usize = 0;
        while i < urls.len()
            invariant
                i <= urls.len(),
                all == urls.deep_view(),
                mints.len() == i,
                forall|j: int|
                    0 <= j < i ==> is_mint_url(#[trigger] all[j]) && mint_url_of(all[j]) == Some(
                        mints.deep_view()[j],
                    ),
                mints_parse(mints.deep_view()),
            decreases urls.len() - i,
        {
            assert(all[i as int] == urls@[i as int]@);
            let ghost before = mints.deep_view();
            match canonical_mint_url(urls[i].as_str()) {
                Some(url) => {
                    if canonical_mint_url(url.as_str()).is_none() {
                        assert(!is_mint_url(all[i as int]));
                        return None;
                    }
                    mints.push(url);
                    assert(mints.deep_view() =~= before.push(url@));
                },
                None => {
                    assert(!is_mint_url(all[i as int]));
                    return None;
                },
            }
            i += 1;
        }
        assert(mints.deep_view() =~= Seq::new(all.len(), |i: int| mint_url_of(all[i])->0));
        Some(GatwayState { mints })
    }

    /// The list of supported mints, as the gateway publishes it.
    pub fn info(&self) -> (r: GatwayInfo)
        ensures
            r.mints.deep_view() == self.mints.deep_view(),
    {
        GatwayInfo { mints: clone_texts(&self.mints) }
    }
}

} // verus!
