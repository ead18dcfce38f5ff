//! Proof secrets and their spending conditions.

use cdk_gateway::error::ErrorKind;
use cdk_gateway::secret::{spending_condition, tag_regular, tags_regular, SpendingCondition};
use cdk_gateway::validator::{check_proof, LOCKTIME_MARGIN};

const HASH: &str = "5c23fc3aec9d985bd5fc88ca8bceaccc52cf892715dd94b42b84f1b43350751e";
const KEY: &str = "0279be667ef9dcbbac55a06295ce870b07029bfcdb2dce28d959f2815b16f81798";

fn tag(parts: &[&str]) -> Vec<String> {
    parts.iter().map(|p| p.to_string()).collect()
}

fn secret(kind: &str, data: &str, tags: &str) -> String {
    format!(r#"["{}",{{"nonce":"7a9128b3f9612549f9278958337a5d7f","data":"{}"{}}}]"#, kind, data, tags)
}

#[test]
fn an_htlc_secret_states_hash_and_locktime() {
    match spending_condition(&secret("HTLC", HASH, "")).unwrap() {
        SpendingCondition::Htlc { hash, locktime } => {
            assert_eq!(hash, HASH);
            assert_eq!(locktime, None);
        }
        other => panic!("unexpected {:?}", other),
    }
    let tags = r#","tags":[["sigflag","SIG_INPUTS"],["locktime","1700000000"]]"#;
    match spending_condition(&secret("HTLC", HASH, tags)).unwrap() {
        SpendingCondition::Htlc { hash, locktime } => {
            assert_eq!(hash, HASH);
            assert_eq!(locktime, Some(1_700_000_000));
        }
        other => panic!("unexpected {:?}", other),
    }
}

#[test]
fn the_hash_is_read_in_either_case() {
    match spending_condition(&secret("HTLC", &HASH.to_uppercase(), "")).unwrap() {
        SpendingCondition::Htlc { hash, .. } => assert_eq!(hash, HASH),
        other => panic!("unexpected {:?}", other),
    }
}

#[test]
fn a_p2pk_secret_is_read_no_further() {
    let tags = r#","tags":[["locktime"]]"#;
    assert!(matches!(
        spending_condition(&secret("P2PK", "not a key", tags)),
        Ok(SpendingCondition::P2pk)
    ));
}

#[test]
fn what_is_no_secret_fails_with_the_parsers_message() {
    let message = spending_condition("deadbeef").unwrap_err();
    assert!(message.starts_with("Secret validation failed: "));
    assert!(message.len() > "Secret validation failed: ".len());
    assert!(spending_condition(r#"["HTLC"]"#).is_err());
    assert!(spending_condition(r#"["OTHER",{"nonce":"00","data":"00"}]"#).is_err());
}

#[test]
fn an_htlc_secret_needs_a_hash() {
    assert_eq!(
        spending_condition(&secret("HTLC", "abcd", "")).unwrap_err(),
        "Secret validation failed: invalid hash"
    );
    assert_eq!(
        spending_condition(&secret("HTLC", &HASH[1..], "")).unwrap_err(),
        "Secret validation failed: invalid hash"
    );
}

#[test]
fn an_htlc_secret_needs_regular_tags() {
    for tags in [
        r#","tags":[["locktime"]]"#,
        r#","tags":[["locktime","soon"]]"#,
        r#","tags":[["locktime","-1"]]"#,
        r#","tags":[["locktime","18446744073709551616"]]"#,
        r#","tags":[[]]"#,
        r#","tags":[["sigflag","SIG_SOME"]]"#,
        r#","tags":[["n_sigs","two"]]"#,
        r#","tags":[["pubkeys","02abc"]]"#,
        r#","tags":[["locktime","1700000000"],["refund","nokey"]]"#,
    ] {
        assert_eq!(
            spending_condition(&secret("HTLC", HASH, tags)).unwrap_err(),
            "Secret validation failed: invalid tag",
            "{}",
            tags
        );
    }
}

#[test]
fn regular_tags() {
    assert!(tag_regular(&tag(&["locktime", "1700000000"])));
    assert!(tag_regular(&tag(&["locktime", "+17"])));
    assert!(tag_regular(&tag(&["locktime", "007"])));
    assert!(tag_regular(&tag(&["locktime", "18446744073709551615"])));
    assert!(tag_regular(&tag(&["locktime", "1", "more"])));
    assert!(tag_regular(&tag(&["n_sigs", "2"])));
    assert!(tag_regular(&tag(&["n_sigs_refund", "1"])));
    assert!(tag_regular(&tag(&["sigflag", "SIG_ALL"])));
    assert!(tag_regular(&tag(&["sigflag", "SIG_INPUTS"])));
    assert!(tag_regular(&tag(&["pubkeys"])));
    assert!(tag_regular(&tag(&["pubkeys", KEY, KEY])));
    assert!(tag_regular(&tag(&["refund", KEY])));
    assert!(tag_regular(&tag(&["memo"])));
    assert!(tag_regular(&tag(&["memo", "anything", "at all"])));
    assert!(tags_regular(&vec![tag(&["locktime", "5"]), tag(&["memo"])]));
    assert!(tags_regular(&Vec::new()));
}

#[test]
fn irregular_tags() {
    assert!(!tag_regular(&tag(&[])));
    assert!(!tag_regular(&tag(&["locktime"])));
    assert!(!tag_regular(&tag(&["locktime", ""])));
    assert!(!tag_regular(&tag(&["locktime", "+"])));
    assert!(!tag_regular(&tag(&["locktime", "1 "])));
    assert!(!tag_regular(&tag(&["locktime", "1_000"])));
    assert!(!tag_regular(&tag(&["locktime", "18446744073709551616"])));
    assert!(!tag_regular(&tag(&["n_sigs"])));
    assert!(!tag_regular(&tag(&["n_sigs_refund", "x"])));
    assert!(!tag_regular(&tag(&["sigflag"])));
    assert!(!tag_regular(&tag(&["sigflag", "sig_all"])));
    assert!(!tag_regular(&tag(&["pubkeys", KEY, "02"])));
    assert!(!tag_regular(&tag(&["refund", &KEY[2..]])));
    assert!(!tags_regular(&vec![tag(&["memo"]), tag(&["locktime"])]));
}

#[test]
fn the_last_locktime_counts() {
    let tags = r#","tags":[["locktime","100"],["locktime","200"]]"#;
    match spending_condition(&secret("HTLC", HASH, tags)).unwrap() {
        SpendingCondition::Htlc { locktime, .. } => assert_eq!(locktime, Some(200)),
        other => panic!("unexpected {:?}", other),
    }
}

#[test]
fn a_proof_is_checked_against_hash_and_clock() {
    assert_eq!(LOCKTIME_MARGIN, 900);
    let hash = HASH.to_string();
    let other = "00".repeat(32);
    let open = secret("HTLC", HASH, "");
    let locked = secret("HTLC", HASH, r#","tags":[["locktime","10000"]]"#);

    assert!(check_proof(&open, &hash, 0).is_none());
    assert!(check_proof(&open, &hash, u64::MAX).is_none());
    assert!(matches!(check_proof(&open, &other, 0), Some(ErrorKind::HashMismatch)));
    assert!(check_proof(&locked, &hash, 9100).is_none());
    assert!(matches!(check_proof(&locked, &hash, 9101), Some(ErrorKind::LocktimeTooShort)));
    // A wrong hash is reported before a short lock time.
    assert!(matches!(check_proof(&locked, &other, 9101), Some(ErrorKind::HashMismatch)));
    assert!(matches!(
        check_proof(&secret("P2PK", KEY, ""), &hash, 0),
        Some(ErrorKind::TokenVerificationFailed { details: None })
    ));
    assert!(matches!(
        check_proof("opaque", &hash, 0),
        Some(ErrorKind::TokenVerificationFailed { details: Some(_) })
    ));
}
