//! Ecash tokens as the gateway reads them: a mint, a list of proofs, and the
//! text they came in.

use crate::codec::{decode_token, token_of};
use crate::envelope::{is_readable, token_is_readable};
use vstd::prelude::*;

verus! {

/// One proof of a token: its denomination and its secret.
#[derive(Debug, Clone)]
pub struct Proof {
    pub amount: u64,
    pub secret: String,
}

/// The mathematical value of a [`Proof`].
pub struct ProofView {
    pub amount: u64,
    pub secret: Seq<char>,
}

impl View for Proof {
    type V = ProofView;

    open spec fn view(&self) -> ProofView {
        ProofView { amount: self.amount, secret: self.secret@ }
    }
}

impl DeepView for Proof {
    type V = ProofView;

    open spec fn deep_view(&self) -> ProofView {
        self@
    }
}

/// A decoded token.
#[derive(Debug, Clone)]
pub struct Token {
    /// The mint that issued the proofs.
    pub mint_url: String,
    pub proofs: Vec<Proof>,
    /// The text that the token was decoded from, kept for redemption.
    pub encoded: String,
}

/// The mathematical value of a [`Token`].
pub struct TokenView {
    pub mint_url: Seq<char>,
    pub proofs: Seq<ProofView>,
    pub encoded: Seq<char>,
}

impl View for Token {
    type V = TokenView;

    open spec fn view(&self) -> TokenView {
        TokenView {
            mint_url: self.mint_url@,
            proofs: self.proofs.deep_view(),
            encoded: self.encoded@,
        }
    }
}

impl DeepView for Token {
    type V = TokenView;

    open spec fn deep_view(&self) -> TokenView {
        self@
    }
}

/// The proofs that a list of amounts and secrets stands for.
pub open spec fn proofs_of(pairs: Seq<(u64, Seq<char>)>) -> Seq<ProofView> {
    Seq::new(pairs.len(), |i: int| ProofView { amount: pairs[i].0, secret: pairs[i].1 })
}

/// The token that a text decodes to, if it decodes. A text that cannot be
/// handed to the token reader decodes to nothing, and so does a token of
/// which the reader can give no total value or no single mint.
pub open spec fn decoded(encoded: Seq<char>) -> Option<TokenView> {
    if !token_is_readable(encoded) {
        None
    } else {
        match token_of(encoded) {
            Ok((mint_url, pairs)) => Some(TokenView { mint_url, proofs: proofs_of(pairs), encoded }),
            Err(_) => None,
        }
    }
}

/// The tokens that decode, in the order of their texts. A text that does not
/// decode leaves no trace.
pub open spec fn decoded_all(texts: Seq<Seq<char>>) -> Seq<TokenView>
    decreases texts.len(),
{
    if texts.len() == 0 {
        Seq::empty()
    } else {
        match decoded(texts.last()) {
            Some(token) => decoded_all(texts.drop_last()).push(token),
            None => decoded_all(texts.drop_last()),
        }
    }
}

/// The sum of the amounts of a list of proofs.
pub open spec fn proofs_value(proofs: Seq<ProofView>) -> nat
    decreases proofs.len(),
{
    if proofs.len() == 0 {
        0
    } else {
        proofs_value(proofs.drop_last()) + proofs.last().amount as nat
    }
}

/// The sum of the values of a list of tokens.
pub open spec fn total_value(tokens: Seq<TokenView>) -> nat
    decreases tokens.len(),
{
    if tokens.len() == 0 {
        0
    } else {
        total_value(tokens.drop_last()) + proofs_value(tokens.last().proofs)
    }
}

/// The mints of a list of tokens, each once, in the order in which they first
/// appear.
pub open spec fn distinct_mints(tokens: Seq<TokenView>) -> Seq<Seq<char>>
    decreases tokens.len(),
{
    if tokens.len() == 0 {
        Seq::empty()
    } else {
        let before = distinct_mints(tokens.drop_last());
        if before.contains(tokens.last().mint_url) {
            before
        } else {
            before.push(tokens.last().mint_url)
        }
    }
}

/// Whether a list of texts holds a given text.
pub fn contains_text(list: &Vec<String>, text: &String) -> (r: bool)
    ensures
        r == list.deep_view().contains(text@),
{
    let mut i: usize = 0;
    while i < list.len()
        invariant
            i <= list.len(),
            forall|j: int| 0 <= j < i ==> list.deep_view()[j] != text@,
        decreases list.len() - i,
    {
        assert(list.deep_view()[i as int] == list@[i as int]@);
        if list[i] == *text {
            return true;
        }
        i += 1;
    }
    false
}

impl Token {
    /// Decodes a token. `None` where the text is no token that the gateway
    /// can take.
    pub fn decode(encoded: &str) -> (r: Option<Token>)
        ensures
            r.deep_view() == decoded(encoded@),
    {
        if !is_readable(encoded) {
            return None;
        }
        match decode_token(encoded) {
            Err(_) => None,
            Ok((mint_url, pairs)) => {
                let ghost spec_pairs = pairs.deep_view();
                let mut proofs: Vec<Proof> = Vec::new();
                let mut i: usize = 0;
                while i < pairs.len()
                    invariant
                        i <= pairs.len(),
                        spec_pairs == pairs.deep_view(),
                        proofs.deep_view() == proofs_of(spec_pairs).take(i as int),
                    decreases pairs.len() - i,
                {
                    let proof = Proof { amount: pairs[i].0, secret: pairs[i].1.clone() };
                    let ghost before = proofs.deep_view();
                    assert(spec_pairs[i as int] == pairs@[i as int].deep_view());
                    assert(proof@ == proofs_of(spec_pairs)[i as int]);
                    proofs.push(proof);
                    assert(proofs.deep_view() =~= before.push(proof@));
                    assert(proofs.deep_view() =~= proofs_of(spec_pairs).take(i + 1));
                    i += 1;
                }
                assert(proofs.deep_view() =~= proofs_of(spec_pairs));
                Some(Token { mint_url, proofs, encoded: encoded.to_owned() })
            },
        }
    }

    /// The total value of the token: the sum of its proofs' amounts, or
    /// `None` where the sum does not fit in 64 bits.
    pub fn value(&self) -> (r: Option<u64>)
        ensures
            match r {
                Some(v) => v == proofs_value(self@.proofs),
                None => proofs_value(self@.proofs) > u64::MAX,
            },
    {
        let mut sum: u64 = 0;
        let mut i: usize = 0;
        let ghost all = self@.proofs;
        while i < self.proofs.len()
            invariant
                i <= self.proofs.len(),
                all == self.proofs.deep_view(),
                sum == proofs_value(all.take(i as int)),
            decreases self.proofs.len() - i,
        {
            assert(all.take(i + 1).drop_last() =~= all.take(i as int));
            assert(all[i as int] == self.proofs@[i as int]@);
            match sum.checked_add(self.proofs[i].amount) {
                Some(next) => {
                    sum = next;
                },
                None => {
                    proof {
                        lemma_proofs_value_grows(all, i + 1);
                    }
                    return None;
                },
            }
            i += 1;
        }
        assert(all.take(i as int) =~= all);
        Some(sum)
    }
}

/// A prefix of a list of proofs is worth no more than the list.
pub proof fn lemma_proofs_value_grows(proofs: Seq<ProofView>, n: int)
    requires
        0 <= n <= proofs.len(),
    ensures
        proofs_value(proofs.take(n)) <= proofs_value(proofs),
    decreases proofs.len() - n,
{
    if n < proofs.len() {
        assert(proofs.take(n + 1).drop_last() =~= proofs.take(n));
        lemma_proofs_value_grows(proofs, n + 1);
    } else {
        assert(proofs.take(n) =~= proofs);
    }
}

/// A prefix of a list of tokens is worth no more than the list.
pub proof fn lemma_total_value_grows(tokens: Seq<TokenView>, n: int)
    requires
        0 <= n <= tokens.len(),
    ensures
        total_value(tokens.take(n)) <= total_value(tokens),
    decreases tokens.len() - n,
{
    if n < tokens.len() {
        assert(tokens.take(n + 1).drop_last() =~= tokens.take(n));
        lemma_total_value_grows(tokens, n + 1);
    } else {
        assert(tokens.take(n) =~= tokens);
    }
}

/// Decodes the tokens of a request, leaving out the texts that do not decode.
pub fn decode_all(texts: &Vec<String>) -> (r: Vec<Token>)
    ensures
        r.deep_view() == decoded_all(texts.deep_view()),
{
    let ghost all = texts.deep_view();
    let mut tokens: Vec<Token> = Vec::new();
    let mut i: usize = 0;
    assert(all.take(0) =~= Seq::<Seq<char>>::empty());
    while i < texts.len()
        invariant
            i <= texts.len(),
            all == texts.deep_view(),
            tokens.deep_view() == decoded_all(all.take(i as int)),
        decreases texts.len() - i,
    {
        assert(all.take(i + 1).drop_last() =~= all.take(i as int));
        assert(all.take(i + 1).last() == texts@[i as int]@);
        let ghost before = tokens.deep_view();
        match Token::decode(texts[i].as_str()) {
            Some(token) => {
                tokens.push(token);
                assert(tokens.deep_view() =~= before.push(token@));
            },
            None => {},
        }
        i += 1;
    }
    assert(all.take(i as int) =~= all);
    tokens
}

/// The total value of a list of tokens, or `None` where it does not fit in
/// 64 bits.
pub fn total(tokens: &Vec<Token>) -> (r: Option<u64>)
    ensures
        match r {
            Some(v) => v == total_value(tokens.deep_view()),
            None => total_value(tokens.deep_view()) > u64::MAX,
        },
{
    let ghost all = tokens.deep_view();
    let mut sum: u64 = 0;
    let mut i: usize = 0;
    while i < tokens.len()
        invariant
            i <= tokens.len(),
            all == tokens.deep_view(),
            sum == total_value(all.take(i as int)),
        decreases tokens.len() - i,
    {
        assert(all.take(i + 1).drop_last() =~= all.take(i as int));
        assert(all[i as int] == tokens@[i as int]@);
        proof {
            lemma_total_value_grows(all, i + 1);
        }
        let value = match tokens[i].value() {
            Some(v) => v,
            None => {
                return None;
            },
        };
        sum = match sum.checked_add(value) {
            Some(next) => next,
            None => {
                return None;
            },
        };
        i += 1;
    }
    assert(all.take(i as int) =~= all);
    Some(sum)
}

/// The mints that a list of tokens comes from, each once, in the order in
/// which they first appear.
pub fn used_mints(tokens: &Vec<Token>) -> (r: Vec<String>)
    ensures
        r.deep_view() == distinct_mints(tokens.deep_view()),
{
    let ghost all = tokens.deep_view();
    let mut mints: Vec<String> = Vec::new();
    let mut i: usize = 0;
    assert(all.take(0) =~= Seq::<TokenView>::empty());
    while i < tokens.len()
        invariant
            i <= tokens.len(),
            all == tokens.deep_view(),
            mints.deep_view() == distinct_mints(all.take(i as int)),
        decreases tokens.len() - i,
    {
        assert(all.take(i + 1).drop_last() =~= all.take(i as int));
        assert(all[i as int] == tokens@[i as int]@);
        let ghost before = mints.deep_view();
        if !contains_text(&mints, &tokens[i].mint_url) {
            mints.push(tokens[i].mint_url.clone());
            assert(mints.deep_view() =~= before.push(tokens@[i as int].mint_url@));
        }
        i += 1;
    }
    assert(all.take(i as int) =~= all);
    mints
}

} // verus!
