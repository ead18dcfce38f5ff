//! The encodings that the `cdk` crate reads and writes for the gateway:
//! invoices, tokens, proof secrets, mint URLs and payment requests; and the
//! two encodings under a token, base64 and CBOR, which are read here so that
//! a token can be looked at before `cdk` reads it.
//!
//! Every function here hands a text or bytes to an outside crate and returns
//! plain values. None of them is proved: each contract is a statement about
//! `cdk`, `ciborium`, `base64` or `std` that the rest of the library relies
//! on.

use std::str::FromStr;

use cdk_common::bitcoin::base64::engine::{general_purpose, DecodePaddingMode, Engine};
use crate::envelope::{token_is_readable, Node};
use vstd::prelude::*;

verus! {

/// What `Bolt11Invoice::from_str` makes of a payment request: the payment hash
/// in hexadecimal and the embedded amount in milli-satoshi, or `None` where the
/// text is no valid invoice.
pub uninterp spec fn invoice_of(request: Seq<char>) -> Option<(Seq<char>, Option<u64>)>;

/// Why a token text gives no token.
#[derive(Debug, Clone, Copy, PartialEq, Eq, Structural)]
pub enum TokenFault {
    /// `Token::from_str` refuses the text.
    Undecodable,
    /// `Token::value` gives no total: a proof stands twice, or the sum is out
    /// of range.
    NoValue,
    /// `Token::mint_url` gives no mint: the token names several, or none.
    NoSingleMint,
}

/// What `Token::from_str` makes of a token text that it can be handed: the
/// mint URL and, in order, amount and secret of each proof; or which of the
/// reader's calls failed.
pub uninterp spec fn token_of(encoded: Seq<char>) -> Result<
    (Seq<char>, Seq<(u64, Seq<char>)>),
    TokenFault,
>;

/// The bytes that the payload of a token stands for: URL-safe base64, with
/// or without padding.
pub uninterp spec fn base64_of(payload: Seq<char>) -> Option<Seq<u8>>;

/// The document that `ciborium` reads from bytes, with its tags left out;
/// `None` where the bytes are no CBOR.
pub uninterp spec fn cbor_of(bytes: Seq<u8>) -> Option<Node>;

/// What parsing a proof secret as a NUT-10 secret gives: whether its kind is
/// HTLC (else P2PK), its data and its tags; or the parser's message.
pub uninterp spec fn nut10_of(secret: Seq<char>) -> Result<
    (bool, Seq<char>, Seq<Seq<Seq<char>>>),
    Seq<char>,
>;

/// The hash that `SpendingConditions::new_htlc_hash` reads from the data of an
/// HTLC secret, written in hexadecimal as an invoice's payment hash is.
pub uninterp spec fn htlc_hash_of(data: Seq<char>) -> Option<Seq<char>>;

/// Whether `PublicKey::from_str` accepts a text.
pub uninterp spec fn public_key_ok(text: Seq<char>) -> bool;

/// The lock time that `Conditions::try_from` reads from the tags of a secret.
pub uninterp spec fn locktime_of(tags: Seq<Seq<Seq<char>>>) -> Option<u64>;

/// The text of the payment request for a unit, an amount in that unit, a
/// list of mints and an HTLC on a payment hash; `None` where a mint URL or
/// the hash does not parse.
pub uninterp spec fn payment_request_of(
    unit: Seq<char>,
    amount: u64,
    mints: Seq<Seq<char>>,
    hash: Seq<char>,
) -> Option<Seq<char>>;

/// The canonical form that `MintUrl::from_str` gives a URL.
pub uninterp spec fn mint_url_of(url: Seq<char>) -> Option<Seq<char>>;

/// The value of a digit character.
pub open spec fn digit_value(c: char) -> nat {
    (c as u32 - '0' as u32) as nat
}

pub open spec fn is_digit(c: char) -> bool {
    '0' <= c <= '9'
}

/// The number that a sequence of decimal digits writes.
pub open spec fn digits_value(s: Seq<char>) -> nat
    decreases s.len(),
{
    if s.len() == 0 {
        0
    } else {
        digits_value(s.drop_last()) * 10 + digit_value(s.last())
    }
}

/// What `str::parse::<u64>` returns: an optional `+`, then one or more decimal
/// digits whose value fits in 64 bits.
pub open spec fn u64_of_text(s: Seq<char>) -> Option<u64> {
    let digits = if s.len() > 0 && s[0] == '+' {
        s.subrange(1, s.len() as int)
    } else {
        s
    };
    if digits.len() > 0 && (forall|i: int| 0 <= i < digits.len() ==> is_digit(#[trigger] digits[i]))
        && digits_value(digits) <= u64::MAX {
        Some(digits_value(digits) as u64)
    } else {
        None
    }
}

/// The decimal digits of a number, without sign or leading zeros.
pub open spec fn decimal_text(n: nat) -> Seq<char>
    decreases n,
{
    if n < 10 {
        seq![(('0' as u32 + n) as u8) as char]
    } else {
        decimal_text(n / 10).push((('0' as u32 + n % 10) as u8) as char)
    }
}

/// Whether a tag of a secret is one that `Tag::try_from` converts: it has a
/// kind, a known kind with a single value has that value in the right form,
/// and every key of a key list is a public key.
pub open spec fn tag_is_regular(tag: Seq<Seq<char>>) -> bool {
    if tag.len() == 0 {
        false
    } else if tag[0] == "sigflag"@ {
        tag.len() >= 2 && (tag[1] == "SIG_ALL"@ || tag[1] == "SIG_INPUTS"@)
    } else if tag[0] == "n_sigs"@ || tag[0] == "locktime"@ || tag[0] == "n_sigs_refund"@ {
        tag.len() >= 2 && u64_of_text(tag[1]) is Some
    } else if tag[0] == "refund"@ || tag[0] == "pubkeys"@ {
        forall|i: int| 1 <= i < tag.len() ==> public_key_ok(#[trigger] tag[i])
    } else {
        true
    }
}

pub open spec fn tags_are_regular(tags: Seq<Seq<Seq<char>>>) -> bool {
    forall|i: int| 0 <= i < tags.len() ==> tag_is_regular(#[trigger] tags[i])
}

/// Calls `Bolt11Invoice::from_str`, then `payment_hash` and
/// `amount_milli_satoshis` on the invoice. Claims that the result depends on
/// the text alone, and that the hash, written as its 64 hexadecimal digits,
/// is read back as a hash.
#[verifier::external_body]
pub(crate) fn decode_invoice(request: &str) -> (r: Option<(String, Option<u64>)>)
    ensures
        r.deep_view() == invoice_of(request@),
        r matches Some(invoice) ==> htlc_hash_of(invoice.0@) is Some,
{
    let invoice = cdk::Bolt11Invoice::from_str(request).ok()?;
    Some((invoice.payment_hash().to_string(), invoice.amount_milli_satoshis()))
}

/// The value of CBOR as `ciborium` reads it.
#[verifier::external_type_specification]
#[verifier::external_body]
pub struct ExCborValue(ciborium::Value);

/// Decodes the payload of a token as `Token::from_str` does, with the
/// URL-safe alphabet and padding or none. Claims that the result depends on
/// the text alone.
#[verifier::external_body]
pub(crate) fn decode_base64(payload: &str) -> (r: Option<Vec<u8>>)
    ensures
        r.deep_view() == base64_of(payload@),
{
    let config = general_purpose::GeneralPurposeConfig::new().with_decode_padding_mode(
        DecodePaddingMode::Indifferent,
    );
    general_purpose::GeneralPurpose::new(&cdk_common::bitcoin::base64::alphabet::URL_SAFE, config)
        .decode(payload).ok()
}

/// Writes a value of `ciborium` as a [`Node`], variant by variant; a tagged
/// value is written as the value itself. It is the conversion that
/// [`cbor_tree`] makes, and nothing is claimed of it on its own.
#[verifier::external_body]
pub(crate) fn cbor_node(value: &ciborium::Value) -> Node {
    match value {
        ciborium::Value::Bytes(bytes) => Node::Bytes(bytes.clone()),
        ciborium::Value::Text(text) => Node::Text(text.clone()),
        ciborium::Value::Array(items) => Node::List(items.iter().map(cbor_node).collect()),
        ciborium::Value::Map(entries) => Node::Table(
            entries.iter().map(|(k, v)| (cbor_node(k), cbor_node(v))).collect(),
        ),
        ciborium::Value::Tag(_, inner) => cbor_node(inner),
        _ => Node::Other,
    }
}

/// Calls `ciborium::from_reader` for a value of any shape and writes it as a
/// [`Node`]. Claims that the result depends on the bytes alone.
#[verifier::external_body]
pub(crate) fn cbor_tree(bytes: &Vec<u8>) -> (r: Option<Node>)
    ensures
        r == cbor_of(bytes@),
{
    let value: ciborium::Value = ciborium::from_reader(&bytes[..]).ok()?;
    Some(cbor_node(&value))
}

/// Calls `Token::from_str`, then `value` and `mint_url` on the token, and
/// lists its proofs; says which call failed where one does. The reader
/// panics on a keyset id that it cannot index (an empty one in CBOR, one cut
/// inside a character in JSON), so only texts without such an id are
/// admitted. Claims that the result depends on the text alone.
#[verifier::external_body]
pub(crate) fn decode_token(encoded: &str) -> (r: Result<(String, Vec<(u64, String)>), TokenFault>)
    requires
        token_is_readable(encoded@),
    ensures
        match r {
            Ok(token) => token_of(encoded@) == Ok::<_, TokenFault>(token.deep_view()),
            Err(fault) => token_of(encoded@) == Err::<(Seq<char>, Seq<(u64, Seq<char>)>), _>(
                fault,
            ),
        },
{
    let token = cdk::nuts::Token::from_str(encoded).map_err(|_| TokenFault::Undecodable)?;
    token.value().map_err(|_| TokenFault::NoValue)?;
    let mint = token.mint_url().map_err(|_| TokenFault::NoSingleMint)?.to_string();
    let proofs = match token {
        cdk::nuts::Token::TokenV3(t) => t.token.into_iter().flat_map(|e| e.proofs).map(
            |p| (u64::from(p.amount), p.secret.to_string()),
        ).collect(),
        cdk::nuts::Token::TokenV4(t) => t.token.into_iter().flat_map(|e| e.proofs).map(
            |p| (u64::from(p.amount), p.secret.to_string()),
        ).collect(),
    };
    Ok((mint, proofs))
}

/// Calls `Nut10Secret::try_from` on the secret and takes kind, data and tags
/// from the result (no tags are returned as an empty list). Claims that the
/// result depends on the text alone.
#[verifier::external_body]
pub(crate) fn parse_nut10(secret: &str) -> (r: Result<(bool, String, Vec<Vec<String>>), String>)
    ensures
        match r {
            Ok(parts) => nut10_of(secret@) == Ok::<_, Seq<char>>(
                (parts.0, parts.1@, parts.2.deep_view()),
            ),
            Err(message) => nut10_of(secret@) == Err::<(bool, Seq<char>, Seq<Seq<Seq<char>>>), _>(
                message@,
            ),
        },
{
    match cdk::nuts::Nut10Secret::try_from(cdk::secret::Secret::new(secret)) {
        Ok(s) => {
            let htlc = match s.kind() {
                cdk::nuts::Kind::HTLC => true,
                cdk::nuts::Kind::P2PK => false,
            };
            let data = s.secret_data();
            Ok((htlc, data.data().to_string(), data.tags().cloned().unwrap_or_default()))
        },
        Err(e) => Err(e.to_string()),
    }
}

/// Calls `SpendingConditions::new_htlc_hash` and writes the hash it holds as
/// text. Claims that the result depends on the data alone.
#[verifier::external_body]
pub(crate) fn htlc_hash(data: &str) -> (r: Option<String>)
    ensures
        r.deep_view() == htlc_hash_of(data@),
{
    match cdk::nuts::SpendingConditions::new_htlc_hash(data, None) {
        Ok(cdk::nuts::SpendingConditions::HTLCConditions { data, .. }) => Some(data.to_string()),
        _ => None,
    }
}

/// Calls `PublicKey::from_str`. Claims that the answer depends on the text
/// alone.
#[verifier::external_body]
pub(crate) fn is_public_key(text: &str) -> (r: bool)
    ensures
        r == public_key_ok(text@),
{
    cdk::nuts::PublicKey::from_str(text).is_ok()
}

/// Calls `str::parse::<u64>`.
#[verifier::external_body]
pub(crate) fn parse_u64(text: &str) -> (r: Option<u64>)
    ensures
        r == u64_of_text(text@),
{
    text.parse::<u64>().ok()
}

/// Calls `u64::to_string`.
#[verifier::external_body]
pub(crate) fn decimal(n: u64) -> (r: String)
    ensures
        r@ == decimal_text(n as nat),
{
    n.to_string()
}

/// Calls `Conditions::try_from` on the tags and returns the lock time of the
/// conditions. That conversion panics on a tag that `Tag::try_from` refuses,
/// so only regular tags are admitted. Claims that the result depends on the
/// tags alone.
#[verifier::external_body]
pub(crate) fn conditions_locktime(tags: &Vec<Vec<String>>) -> (r: Option<u64>)
    requires
        tags_are_regular(tags.deep_view()),
    ensures
        r == locktime_of(tags.deep_view()),
{
    cdk::nuts::Conditions::try_from(tags.clone()).ok().and_then(|c| c.locktime)
}

/// Whether every URL of a list is one that `MintUrl::from_str` accepts.
pub open spec fn mints_parse(mints: Seq<Seq<char>>) -> bool {
    forall|i: int| 0 <= i < mints.len() ==> mint_url_of(#[trigger] mints[i]) is Some
}

/// Parses the unit with `CurrencyUnit::from_str`, the mints with
/// `MintUrl::from_str` and the hash with `SpendingConditions::new_htlc_hash`,
/// builds a payment request with `PaymentRequestBuilder` and writes it as
/// text. Claims that the result depends on the four arguments alone; that
/// there is a result exactly where every mint and the hash parse (a unit
/// always does); and that the text is made of visible ASCII characters (a
/// prefix and base64).
#[verifier::external_body]
pub(crate) fn encode_payment_request(unit: &str, amount: u64, mints: &Vec<String>, hash: &str) -> (r: Option<String>)
    ensures
        r.deep_view() == payment_request_of(unit@, amount, mints.deep_view(), hash@),
        r is Some <==> (mints_parse(mints.deep_view()) && htlc_hash_of(hash@) is Some),
        r matches Some(text) ==> forall|i: int|
            0 <= i < text@.len() ==> '!' <= #[trigger] text@[i] <= '~',
{
    let urls: Result<Vec<_>, _> = mints.iter().map(|m| cdk::mint_url::MintUrl::from_str(m)).collect();
    let nut10 = cdk::nuts::SpendingConditions::new_htlc_hash(hash, None).ok()?;
    let request = cdk::nuts::nut18::PaymentRequestBuilder::default()
        .unit(cdk::nuts::CurrencyUnit::from_str(unit).ok()?)
        .amount(amount)
        .mints(urls.ok()?)
        .nut10(nut10.into())
        .build();
    Some(request.to_string())
}

/// Calls `MintUrl::from_str` and writes the URL it holds as text. Claims that
/// the result depends on the text alone.
#[verifier::external_body]
pub(crate) fn canonical_mint_url(url: &str) -> (r: Option<String>)
    ensures
        r.deep_view() == mint_url_of(url@),
{
    Some(cdk::mint_url::MintUrl::from_str(url).ok()?.to_string())
}

/// Calls `cdk::util::unix_time`: the seconds since the epoch on this
/// machine's clock. Nothing is claimed of the result.
#[verifier::external_body]
pub(crate) fn unix_time() -> u64 {
    cdk::util::unix_time()
}

} // verus!
