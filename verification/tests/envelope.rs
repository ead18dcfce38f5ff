//! Token texts that the token reader must never see, and the ones it must.

use std::str::FromStr;

use cdk_common::bitcoin::base64::engine::general_purpose::{URL_SAFE, URL_SAFE_NO_PAD};
use cdk_common::bitcoin::base64::engine::Engine;
use cdk_gateway::envelope::{cbor_ids, is_readable, json_ids, Node};
use cdk_gateway::token::{decode_all, Token};

const KEY: &str = "0279be667ef9dcbbac55a06295ce870b07029bfcdb2dce28d959f2815b16f81798";

fn v4(payload: &[u8]) -> String {
    format!("cashuB{}", URL_SAFE.encode(payload))
}

fn v3(json: &str) -> String {
    format!("cashuA{}", URL_SAFE.encode(json))
}

fn v3_with_id(id: &str) -> String {
    v3(&format!(
        r#"{{"token":[{{"mint":"https://mint.example","proofs":[{{"amount":2,"id":"{}","secret":"s","C":"{}"}}]}}],"unit":"sat"}}"#,
        id, KEY
    ))
}

fn real_token(memo: Option<&str>, secret: &str) -> cdk::nuts::Token {
    let id = cdk::nuts::Id::from_str("009a1f293253e41e").unwrap();
    let c = cdk::nuts::PublicKey::from_hex(KEY).unwrap();
    let proof = cdk::nuts::Proof::new(
        cdk::Amount::from(8),
        id,
        cdk::secret::Secret::new(secret.to_string()),
        c,
    );
    cdk::nuts::Token::new(
        cdk::mint_url::MintUrl::from_str("https://mint.example").unwrap(),
        vec![proof],
        memo.map(|m| m.to_string()),
        cdk::nuts::CurrencyUnit::Sat,
    )
}

#[test]
fn an_empty_keyset_id_is_never_read() {
    // a map with one entry named t: a list of one map whose id is empty
    let text = "cashuBoWF0gaFhaUA=";
    assert!(!is_readable(text));
    assert!(Token::decode(text).is_none());
    assert!(decode_all(&vec![text.to_string()]).is_empty());
}

#[test]
fn empty_ids_in_every_writing() {
    let cases: Vec<Vec<u8>> = vec![
        // {t: [{i: h''}]}
        vec![0xa1, 0x61, 0x74, 0x81, 0xa1, 0x61, 0x69, 0x40],
        // {t: [{i: []}]}
        vec![0xa1, 0x61, 0x74, 0x81, 0xa1, 0x61, 0x69, 0x80],
        // the id as a byte string of unknown length, with no chunk
        vec![0xa1, 0x61, 0x74, 0x81, 0xa1, 0x61, 0x69, 0x5f, 0xff],
        // the id as a list of unknown length, with no item
        vec![0xa1, 0x61, 0x74, 0x81, 0xa1, 0x61, 0x69, 0x9f, 0xff],
        // the names as byte strings
        vec![0xa1, 0x41, 0x74, 0x81, 0xa1, 0x41, 0x69, 0x40],
        // the list, the map and the id each under a tag
        vec![0xa1, 0x61, 0x74, 0xc1, 0x81, 0xc1, 0xa1, 0x61, 0x69, 0xc1, 0x40],
        // the entry t twice, the first with an empty id
        vec![0xa2, 0x61, 0x74, 0x81, 0xa1, 0x61, 0x69, 0x40, 0x61, 0x74, 0x80],
        // the entry i twice, the first empty
        vec![0xa1, 0x61, 0x74, 0x81, 0xa2, 0x61, 0x69, 0x40, 0x61, 0x69, 0x41, 0x00],
        // the id under the tag of a large number, which makes a number of it
        vec![0xa1, 0x61, 0x74, 0x81, 0xa1, 0x61, 0x69, 0xc2, 0x40],
        vec![0xa1, 0x61, 0x74, 0x81, 0xa1, 0x61, 0x69, 0xc3, 0x40],
        vec![0xa1, 0x61, 0x74, 0x81, 0xa1, 0x61, 0x69, 0xc1, 0xc2, 0x40],
        // the names under such a tag
        vec![0xa1, 0xc2, 0x41, 0x74, 0x81, 0xa1, 0x61, 0x69, 0x40],
        vec![0xa1, 0x61, 0x74, 0x81, 0xa1, 0xc2, 0x41, 0x69, 0x40],
        vec![0xa1, 0xc2, 0x41, 0x74, 0x81, 0xa1, 0xc3, 0x41, 0x69, 0xc2, 0x40],
        // a sound element before the one with the empty id
        vec![
            0xa1, 0x61, 0x74, 0x82, 0xa1, 0x61, 0x69, 0x41, 0x00, 0xa1, 0x61, 0x69, 0x40,
        ],
    ];
    for payload in cases {
        let text = v4(&payload);
        assert!(!is_readable(&text), "{:02x?}", payload);
        assert!(Token::decode(&text).is_none());
        let bare = format!("cashuB{}", URL_SAFE_NO_PAD.encode(&payload));
        assert!(!is_readable(&bare), "{:02x?}", payload);
        assert!(Token::decode(&bare).is_none());
    }
}

#[test]
fn what_is_no_cbor_is_never_read() {
    for payload in [vec![0xa1u8, 0x61], vec![0xffu8], vec![]] {
        let text = v4(&payload);
        assert!(!is_readable(&text));
        assert!(Token::decode(&text).is_none());
    }
}

#[test]
fn a_document_without_empty_ids_is_read() {
    // {t: [{i: h'00'}]}: sound ids, and no token all the same
    let text = v4(&[0xa1, 0x61, 0x74, 0x81, 0xa1, 0x61, 0x69, 0x41, 0x00]);
    assert!(is_readable(&text));
    assert!(Token::decode(&text).is_none());
    // an empty id elsewhere does no harm: {x: [{i: h''}], y: {i: h''}}
    let text = v4(&[
        0xa2, 0x61, 0x78, 0x81, 0xa1, 0x61, 0x69, 0x40, 0x61, 0x79, 0xa1, 0x61, 0x69, 0x40,
    ]);
    assert!(is_readable(&text));
    assert!(Token::decode(&text).is_none());
    // not a map at all
    assert!(is_readable(&v4(&[0x80])));
    assert!(Token::decode(&v4(&[0x80])).is_none());
}

#[test]
fn a_keyset_id_cut_inside_a_character_is_never_read() {
    for id in [
        "a\u{e9}0000000000000",
        "\u{20ac}0000000000000",
        "\u{1f600}000000000000",
        "a\\u00e90000000000000",
        "\\u20ac0000000000000",
    ] {
        let text = v3_with_id(id);
        assert!(!is_readable(&text), "{}", id);
        assert!(Token::decode(&text).is_none(), "{}", id);
    }
}

#[test]
fn json_tokens_are_read() {
    let sound = v3_with_id("009a1f293253e41e");
    assert!(is_readable(&sound));
    let token = Token::decode(&sound).unwrap();
    assert_eq!(token.mint_url, "https://mint.example");
    assert_eq!(token.proofs.len(), 1);
    assert_eq!(token.proofs[0].amount, 2);

    // ids that are refused without harm
    for id in ["short", "zz9a1f293253e41e", "\u{e9}\u{e9}9a1f293253e4", "009a1f293253e4\u{e9}"] {
        let text = v3_with_id(id);
        assert!(is_readable(&text), "{}", id);
        assert!(Token::decode(&text).is_none(), "{}", id);
    }
}

#[test]
fn tokens_as_cdk_writes_them_are_read() {
    let htlc = r#"["HTLC",{"nonce":"7a9128b3f9612549f9278958337a5d7f","data":"5c23fc3aec9d985bd5fc88ca8bceaccc52cf892715dd94b42b84f1b43350751e","tags":[["locktime","1700000000"]]}]"#;
    for memo in [None, Some("thanks"), Some("\u{1f389} thanks"), Some("\u{e9}t\u{e9} 2025 \u{20ac}\u{20ac}")] {
        for secret in [htlc, "9a6dbb847bd232ba76db0df197216b29d3b8cc14553cd27827fc1cc942fedb4e"] {
            let token = real_token(memo, secret);
            for text in [token.to_string(), token.to_v3_string()] {
                assert!(is_readable(&text), "{:?} {}", memo, text);
                let decoded = Token::decode(&text).unwrap();
                assert_eq!(decoded.mint_url, "https://mint.example");
                assert_eq!(decoded.proofs.len(), 1);
                assert_eq!(decoded.proofs[0].amount, 8);
                assert_eq!(decoded.proofs[0].secret, secret);
                assert_eq!(decoded.value(), Some(8));
            }
        }
    }
}

#[test]
fn what_is_no_token_is_left_to_the_reader() {
    for text in ["", "cashu", "cashuC1234", "lnbc1", "cashuA***", "cashuB***"] {
        assert!(is_readable(text), "{}", text);
        assert!(Token::decode(text).is_none(), "{}", text);
    }
}

#[test]
fn the_scan_of_a_json_text() {
    let ok = |text: &str| json_ids(&text.as_bytes().to_vec());
    assert!(ok(""));
    assert!(ok(r#"{"id":"009a1f293253e41e"}"#));
    assert!(ok("{\"memo\":\"\u{1f389} party\"}"));
    assert!(ok("{\"memo\":\"\u{e9}\"}"));
    // sixteen bytes, the third one starts a character
    assert!(ok("\"ab0000000000000\u{e9}\""));
    assert!(ok("\"\u{e9}\u{e9}000000000000\""));
    assert!(ok("\"ab\u{e9}000000000000\""));
    // sixteen bytes, the third one inside a character
    assert!(!ok("\"a\u{e9}0000000000000\""));
    assert!(!ok("\"\u{20ac}0000000000000\""));
    assert!(!ok("\"\u{1f600}000000000000\""));
    // fifteen and seventeen bytes
    assert!(ok("\"a\u{e9}000000000000\""));
    assert!(ok("\"a\u{e9}00000000000000\""));
    // an escape of unknown length as one of the first two characters
    assert!(!ok(&format!("\"{}u0041\"", '\\')));
    assert!(!ok(&format!("\"a{}u0041\"", '\\')));
    assert!(ok(&format!("\"ab{}u00e9\"", '\\')));
    // a quote inside a text does not end it
    assert!(!ok("\"a\u{e9}\\\"000000000000\""));
    assert!(ok("\"\\\"\\\\\" \"0123456789abcdef\""));
    // a text that does not end
    assert!(ok("\"a\u{e9}0000000000000"));
}

#[test]
fn the_ids_of_a_document() {
    let text = |s: &str| Node::Text(s.to_string());
    let id = |bytes: &[u8]| (text("i"), Node::Bytes(bytes.to_vec()));
    let token = |elements: Vec<Node>| Node::Table(vec![(text("t"), Node::List(elements))]);

    assert!(cbor_ids(&Node::Other));
    assert!(cbor_ids(&Node::Table(vec![])));
    assert!(cbor_ids(&token(vec![])));
    assert!(cbor_ids(&token(vec![Node::Table(vec![id(&[0, 1])])])));
    assert!(!cbor_ids(&token(vec![Node::Table(vec![id(&[])])])));
    assert!(!cbor_ids(&token(vec![Node::Table(vec![(text("i"), Node::List(vec![]))])])));
    assert!(!cbor_ids(&token(vec![
        Node::Table(vec![id(&[0])]),
        Node::Table(vec![(text("p"), Node::List(vec![])), id(&[])]),
    ])));
    assert!(!cbor_ids(&Node::Table(vec![(
        Node::Bytes(vec![0x74]),
        Node::List(vec![Node::Table(vec![(Node::Bytes(vec![0x69]), Node::Bytes(vec![]))])]),
    )])));
    // an empty value that is no id
    assert!(cbor_ids(&token(vec![Node::Table(vec![(text("p"), Node::List(vec![])), id(&[0])])])));
    assert!(cbor_ids(&Node::Table(vec![(text("x"), Node::List(vec![Node::Table(vec![id(&[])])]))])));
    assert!(cbor_ids(&token(vec![Node::Table(vec![(text("i"), Node::Text(String::new()))])])));
    // a number may stand for a tagged byte string: as a name, and as an id
    assert!(!cbor_ids(&token(vec![Node::Table(vec![(text("i"), Node::Other)])])));
    assert!(!cbor_ids(&token(vec![Node::Table(vec![(Node::Other, Node::Bytes(vec![]))])])));
    assert!(!cbor_ids(&Node::Table(vec![(
        Node::Other,
        Node::List(vec![Node::Table(vec![id(&[])])]),
    )])));
    assert!(cbor_ids(&token(vec![Node::Table(vec![(Node::Other, Node::Bytes(vec![1]))])])));
}

/// A small generator of numbers, the same on every run.
fn next(state: &mut u64) -> u64 {
    *state = state.wrapping_mul(6364136223846793005).wrapping_add(1442695040888963407);
    *state >> 33
}

fn mutate(original: &[u8], state: &mut u64, spice: &[&[u8]]) -> Vec<u8> {
    let mut bytes = original.to_vec();
    let changes = 1 + next(state) % 3;
    for _ in 0..changes {
        let at = (next(state) as usize) % (bytes.len() + 1);
        match next(state) % 4 {
            0 if at < bytes.len() => bytes[at] = next(state) as u8,
            1 if at < bytes.len() => {
                bytes.remove(at);
            }
            2 => {
                let piece = spice[(next(state) as usize) % spice.len()];
                for (k, b) in piece.iter().enumerate() {
                    bytes.insert(at + k, *b);
                }
            }
            _ if at < bytes.len() => {
                let piece = spice[(next(state) as usize) % spice.len()];
                bytes.splice(at..(at + 1).min(bytes.len()), piece.iter().copied());
            }
            _ => {}
        }
    }
    bytes
}

#[test]
fn mangled_cbor_tokens_never_stop_the_reader() {
    let text = real_token(Some("memo"), "secret").to_string();
    let payload = URL_SAFE.decode(&text[6..]).unwrap();
    let spice: Vec<&[u8]> = vec![
        &[0x40],
        &[0x80],
        &[0xc2],
        &[0xc3, 0x40],
        &[0x5f, 0xff],
        &[0x9f, 0xff],
        &[0x61, 0x69],
        &[0x41, 0x69],
        &[0x61, 0x74],
        &[0xa1, 0x61, 0x69, 0x40],
        &[0x58, 0x00],
        &[0x98, 0x00],
        &[0xd8, 0x20],
        &[0xff],
    ];
    let mut state = 7;
    let mut refused = 0;
    for _ in 0..30000 {
        let mangled = v4(&mutate(&payload, &mut state, &spice));
        println!("{}", mangled);
        if !is_readable(&mangled) {
            refused += 1;
        }
        let _ = Token::decode(&mangled);
    }
    assert!(refused > 0);
}

#[test]
fn mangled_json_tokens_never_stop_the_reader() {
    let text = real_token(Some("memo"), "secret").to_v3_string();
    let payload = URL_SAFE.decode(&text[6..]).unwrap();
    let spice: Vec<&[u8]> = vec![
        b"\"",
        b"\\",
        b"\\u00e9",
        b"\\ud83d\\ude00",
        "\u{e9}".as_bytes(),
        "\u{20ac}".as_bytes(),
        "\u{1f600}".as_bytes(),
        b"\"id\":\"a",
        b"0000000000000\"",
        b"\"id\":\"",
        b"\\\"",
        b"00",
    ];
    let mut state = 11;
    let mut refused = 0;
    for _ in 0..30000 {
        let mangled = format!("cashuA{}", URL_SAFE.encode(mutate(&payload, &mut state, &spice)));
        println!("{}", mangled);
        if !is_readable(&mangled) {
            refused += 1;
        }
        let _ = Token::decode(&mangled);
    }
    assert!(refused > 0);
}

#[test]
fn keyset_ids_of_every_cut_never_stop_the_reader() {
    let pieces = ["a", "0", "\u{e9}", "\u{20ac}", "\u{1f600}", "\\u00e9", "\\n", "\\\""];
    let mut state = 3;
    for _ in 0..20000 {
        let mut id = String::new();
        let parts = 1 + next(&mut state) % 17;
        for _ in 0..parts {
            id.push_str(pieces[(next(&mut state) as usize) % pieces.len()]);
        }
        let text = v3_with_id(&id);
        println!("{}", id);
        let _ = Token::decode(&text);
    }
}

#[test]
fn small_cbor_documents_never_stop_the_reader() {
    // every writing of a value, in the place of the id, of its name, of the
    // element and of the list
    let values: Vec<Vec<u8>> = vec![
        vec![0x40],
        vec![0x41, 0x00],
        vec![0x80],
        vec![0x81, 0x00],
        vec![0x60],
        vec![0x61, 0x69],
        vec![0x61, 0x74],
        vec![0x41, 0x69],
        vec![0x41, 0x74],
        vec![0x00],
        vec![0x20],
        vec![0xf6],
        vec![0xa0],
        vec![0x5f, 0xff],
        vec![0x9f, 0xff],
        vec![0x58, 0x00],
        vec![0x98, 0x00],
        vec![0xc2, 0x40],
        vec![0xc3, 0x40],
        vec![0xc2, 0x41, 0x69],
        vec![0xc2, 0x41, 0x74],
        vec![0xc1, 0x40],
        vec![0xc1, 0xc2, 0x40],
        vec![0xd8, 0x20, 0x40],
        vec![0xa1, 0x61, 0x69, 0x40],
        vec![0x81, 0xa1, 0x61, 0x69, 0x40],
    ];
    let mut count = 0;
    for top_key in &values {
        for list in &values {
            // {top_key: list}
            let mut doc = vec![0xa1];
            doc.extend(top_key);
            doc.extend(list);
            println!("{:02x?}", doc);
            let _ = Token::decode(&v4(&doc));
            count += 1;
        }
        for key in &values {
            for id in &values {
                // {top_key: [{key: id}]} and {top_key: [{i: 00, key: id}]}
                let mut doc = vec![0xa1];
                doc.extend(top_key);
                doc.extend([0x81, 0xa1]);
                doc.extend(key);
                doc.extend(id);
                println!("{:02x?}", doc);
                let _ = Token::decode(&v4(&doc));
                let mut doc = vec![0xa1];
                doc.extend(top_key);
                doc.extend([0x81, 0xa2, 0x61, 0x69, 0x41, 0x00]);
                doc.extend(key);
                doc.extend(id);
                println!("{:02x?}", doc);
                let _ = Token::decode(&v4(&doc));
                count += 2;
            }
        }
    }
    assert!(count > 30000);
}
