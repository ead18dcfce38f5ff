//! Proof secrets: which spending condition a secret states.

use crate::codec::{
    conditions_locktime, htlc_hash, htlc_hash_of, is_public_key, locktime_of, nut10_of, parse_nut10,
    parse_u64, public_key_ok, tag_is_regular, tags_are_regular,
};
use crate::error::text_is;
use vstd::prelude::*;
use vstd::string::*;

verus! {

/// The spending condition that a proof's secret states.
#[derive(Debug, Clone)]
pub enum SpendingCondition {
    /// Spendable with the preimage of `hash`; reclaimable by the payer from
    /// `locktime` on.
    Htlc { hash: String, locktime: Option<u64> },
    /// Locked to a public key.
    P2pk,
}

/// The mathematical value of a [`SpendingCondition`].
pub enum ConditionView {
    Htlc { hash: Seq<char>, locktime: Option<u64> },
    P2pk,
}

impl View for SpendingCondition {
    type V = ConditionView;

    open spec fn view(&self) -> ConditionView {
        match *self {
            SpendingCondition::Htlc { hash, locktime } => ConditionView::Htlc {
                hash: hash@,
                locktime,
            },
            SpendingCondition::P2pk => ConditionView::P2pk,
        }
    }
}

/// The condition that a secret states, or what is wrong with the secret.
///
/// A secret that is no NUT-10 secret fails with the parser's message. A P2PK
/// secret is read no further. An HTLC secret must hold a hash and regular
/// tags; its lock time is the one its tags give.
pub open spec fn condition_of(secret: Seq<char>) -> Result<ConditionView, Seq<char>> {
    match nut10_of(secret) {
        Err(message) => Err("Secret validation failed: "@ + message),
        Ok((htlc, data, tags)) => if !htlc {
            Ok(ConditionView::P2pk)
        } else {
            match htlc_hash_of(data) {
                None => Err("Secret validation failed: invalid hash"@),
                Some(hash) => if tags_are_regular(tags) {
                    Ok(ConditionView::Htlc { hash, locktime: locktime_of(tags) })
                } else {
                    Err("Secret validation failed: invalid tag"@)
                },
            }
        },
    }
}

pub open spec fn condition_result_view(r: Result<SpendingCondition, String>) -> Result<
    ConditionView,
    Seq<char>,
> {
    match r {
        Ok(c) => Ok(c@),
        Err(m) => Err(m@),
    }
}

/// Whether every text from `from` on is a public key.
fn all_public_keys(tag: &Vec<String>, from: usize) -> (r: bool)
    ensures
        r == forall|i: int| from <= i < tag.len() ==> public_key_ok(#[trigger] tag.deep_view()[i]),
{
    let mut i: usize = from;
    while i < tag.len()
        invariant
            from <= i,
            forall|j: int| from <= j < i && j < tag.len() ==> public_key_ok(#[trigger] tag.deep_view()[j]),
        decreases tag.len() - i,
    {
        assert(tag.deep_view()[i as int] == tag@[i as int]@);
        if !is_public_key(tag[i].as_str()) {
            return false;
        }
        i += 1;
    }
    true
}

/// Whether a tag is regular.
pub fn tag_regular(tag: &Vec<String>) -> (r: bool)
    ensures
        r == tag_is_regular(tag.deep_view()),
{
    if tag.len() == 0 {
        return false;
    }
    assert(tag.deep_view()[0] == tag@[0]@);
    let kind = &tag[0];
    if text_is(kind, "sigflag") {
        if tag.len() < 2 {
            return false;
        }
        assert(tag.deep_view()[1] == tag@[1]@);
        text_is(&tag[1], "SIG_ALL") || text_is(&tag[1], "SIG_INPUTS")
    } else if text_is(kind, "n_sigs") || text_is(kind, "locktime") || text_is(
        kind,
        "n_sigs_refund",
    ) {
        if tag.len() < 2 {
            return false;
        }
        assert(tag.deep_view()[1] == tag@[1]@);
        parse_u64(tag[1].as_str()).is_some()
    } else if text_is(kind, "refund") || text_is(kind, "pubkeys") {
        all_public_keys(tag, 1)
    } else {
        true
    }
}

/// Whether all tags are regular.
pub fn tags_regular(tags: &Vec<Vec<String>>) -> (r: bool)
    ensures
        r == tags_are_regular(tags.deep_view()),
{
    let mut i: usize = 0;
    while i < tags.len()
        invariant
            i <= tags.len(),
            forall|j: int| 0 <= j < i ==> tag_is_regular(#[trigger] tags.deep_view()[j]),
        decreases tags.len() - i,
    {
        assert(tags.deep_view()[i as int] == tags@[i as int].deep_view());
        if !tag_regular(&tags[i]) {
            return false;
        }
        i += 1;
    }
    true
}

/// Reads the spending condition that a secret states.
pub fn spending_condition(secret: &str) -> (r: Result<SpendingCondition, String>)
    ensures
        condition_result_view(r) == condition_of(secret@),
{
    match parse_nut10(secret) {
        Err(message) => {
            let text = "Secret validation failed: ".to_owned().concat(message.as_str());
            Err(text)
        },
        Ok((htlc, data, tags)) => {
            if !htlc {
                return Ok(SpendingCondition::P2pk);
            }
            match htlc_hash(data.as_str()) {
                None => Err("Secret validation failed: invalid hash".to_owned()),
                Some(hash) => {
                    if tags_regular(&tags) {
                        let locktime = conditions_locktime(&tags);
                        Ok(SpendingCondition::Htlc { hash, locktime })
                    } else {
                        Err("Secret validation failed: invalid tag".to_owned())
                    }
                },
            }
        },
    }
}

} // verus!
