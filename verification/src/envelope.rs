//! The envelope of a token: what the text of a token holds before it is read
//! as a token. The token reader of `cdk` stops with a panic on a keyset id
//! that it cannot index, so the ids are looked at here first, and a text
//! whose ids are not seen to be sound is never handed to it.

use crate::codec::{base64_of, cbor_of, cbor_tree, decode_base64};
use crate::error::text_is;
use vstd::prelude::*;
use vstd::string::*;

verus! {

/// A document in the shape that CBOR gives it: byte strings, texts, lists and
/// maps, the entries of a map in the order in which they were written.
/// Numbers and the other simple values are not told apart, and tags are left
/// out. A byte string of up to 16 bytes under a tag for large numbers counts
/// as a number.
#[derive(Debug)]
pub enum Node {
    Bytes(Vec<u8>),
    Text(String),
    List(Vec<Node>),
    Table(Vec<(Node, Node)>),
    Other,
}

/// Whether a key is, or may be, the one-letter field name that `letter`
/// writes: that text, that byte string, or a value that is neither text nor
/// bytes nor list nor map. The last stands for a number, and a byte string
/// under a tag for large numbers is read as one.
pub open spec fn names_field(key: Node, letter: char) -> bool {
    match key {
        Node::Text(text) => text@ == seq![letter],
        Node::Bytes(bytes) => bytes@ == seq![letter as u8],
        Node::Other => true,
        _ => false,
    }
}

/// Whether a value read as a keyset id has, or may have, no byte at all: an
/// empty byte string, an empty list, or a number, which may stand for an
/// empty byte string under a tag for large numbers.
pub open spec fn is_empty_id(value: Node) -> bool {
    match value {
        Node::Bytes(bytes) => bytes@.len() == 0,
        Node::List(items) => items@.len() == 0,
        Node::Other => true,
        _ => false,
    }
}

/// Whether no entry named `i` of a map holds an empty id.
pub open spec fn entries_have_ids(entries: Seq<(Node, Node)>) -> bool {
    forall|j: int|
        0 <= j < entries.len() && names_field((#[trigger] entries[j]).0, 'i') ==> !is_empty_id(
            entries[j].1,
        )
}

/// Whether an element of the token list, where it is a map, holds no empty
/// id.
pub open spec fn element_has_ids(element: Node) -> bool {
    match element {
        Node::Table(entries) => entries_have_ids(entries@),
        _ => true,
    }
}

/// Whether a value, where it is a list, holds no element with an empty id.
pub open spec fn list_has_ids(value: Node) -> bool {
    match value {
        Node::List(items) => forall|k: int|
            0 <= k < items@.len() ==> element_has_ids(#[trigger] items@[k]),
        _ => true,
    }
}

/// Whether a CBOR document, read as a token, holds no empty keyset id: in
/// every entry named `t` of the document, every element of the list, every
/// entry named `i`.
pub open spec fn cbor_has_ids(document: Node) -> bool {
    match document {
        Node::Table(entries) => forall|j: int|
            0 <= j < entries@.len() && names_field((#[trigger] entries@[j]).0, 't')
                ==> list_has_ids(entries@[j].1),
        _ => true,
    }
}

/// Where a scan of a JSON text stands.
pub struct Scan {
    /// A quoted text was found that might be a keyset id which cannot be
    /// sliced.
    pub failed: bool,
    /// 0 outside of quotes, 1 inside, 2 inside and after a backslash.
    pub mode: u8,
    /// The bytes that the quoted text holds so far, up to 17.
    pub seen: u8,
    /// The third byte of the quoted text is, or may be, inside a character.
    pub cut: bool,
    /// The quoted text holds a `\u` escape, so its length is not known.
    pub uncertain: bool,
}

pub open spec fn scan_start() -> Scan {
    Scan { failed: false, mode: 0, seen: 0, cut: false, uncertain: false }
}

pub open spec fn one_more(seen: u8) -> u8 {
    if seen < 17 {
        (seen + 1) as u8
    } else {
        17
    }
}

/// Whether a byte continues a character of more than one byte.
pub open spec fn continues_character(byte: u8) -> bool {
    0x80 <= byte < 0xc0
}

/// One byte further in the scan. A quoted text fails the scan when it ends
/// with its third byte inside a character and a length that is, or may be,
/// 16 bytes: only such a text, read as a keyset id, is cut inside a
/// character. A `\u` escape stands for a character of unknown length: as
/// one of the first two characters it may reach over the third byte, and
/// anywhere it leaves the length unknown.
pub open spec fn scan_step(s: Scan, byte: u8) -> Scan {
    if s.mode == 0 {
        if byte == 0x22 {
            Scan { mode: 1, seen: 0, cut: false, uncertain: false, ..s }
        } else {
            s
        }
    } else if s.mode == 1 {
        if byte == 0x5c {
            Scan { mode: 2, ..s }
        } else if byte == 0x22 {
            Scan { mode: 0, failed: s.failed || (s.cut && (s.uncertain || s.seen == 16)), ..s }
        } else {
            Scan {
                cut: s.cut || (s.seen == 2 && continues_character(byte)),
                seen: one_more(s.seen),
                ..s
            }
        }
    } else {
        if byte == 0x75 {
            Scan {
                mode: 1,
                cut: s.cut || s.seen < 2,
                uncertain: true,
                seen: one_more(s.seen),
                ..s
            }
        } else {
            Scan { mode: 1, seen: one_more(s.seen), ..s }
        }
    }
}

/// The scan of a whole text.
pub open spec fn scan(bytes: Seq<u8>) -> Scan
    decreases bytes.len(),
{
    if bytes.len() == 0 {
        scan_start()
    } else {
        scan_step(scan(bytes.drop_last()), bytes.last())
    }
}

/// Whether a JSON text, read as a token, holds no keyset id that is cut
/// inside a character.
pub open spec fn json_has_ids(bytes: Seq<u8>) -> bool {
    !scan(bytes).failed
}

/// Whether a text starts with `cashu` and the letter of a version.
pub open spec fn has_prefix(text: Seq<char>, version: char) -> bool {
    text.len() >= 6 && text[0] == 'c' && text[1] == 'a' && text[2] == 's' && text[3] == 'h'
        && text[4] == 'u' && text[5] == version
}

/// Whether the text of a token can be handed to the token reader: it is no
/// token at all, or its payload is no base64, or the payload holds no keyset
/// id that the reader cannot index.
pub open spec fn token_is_readable(text: Seq<char>) -> bool {
    let payload = base64_of(text.subrange(6, text.len() as int));
    if has_prefix(text, 'A') {
        payload matches Some(bytes) ==> json_has_ids(bytes)
    } else if has_prefix(text, 'B') {
        payload matches Some(bytes) ==> (cbor_of(bytes) matches Some(document) && cbor_has_ids(
            document,
        ))
    } else {
        true
    }
}

fn field_named(key: &Node, letter: char) -> (r: bool)
    requires
        letter == 'i' || letter == 't',
    ensures
        r == names_field(*key, letter),
{
    match key {
        Node::Text(text) => {
            proof {
                reveal_strlit("i");
                reveal_strlit("t");
                assert("i"@ =~= seq!['i']);
                assert("t"@ =~= seq!['t']);
            }
            if letter == 'i' {
                text_is(text, "i")
            } else {
                text_is(text, "t")
            }
        },
        Node::Bytes(bytes) => {
            let code: u8 = if letter == 'i' {
                0x69
            } else {
                0x74
            };
            assert(code == letter as u8);
            if bytes.len() == 1 && bytes[0] == code {
                assert(bytes@ =~= seq![letter as u8]);
                true
            } else {
                false
            }
        },
        Node::Other => true,
        _ => false,
    }
}

fn empty_id(value: &Node) -> (r: bool)
    ensures
        r == is_empty_id(*value),
{
    match value {
        Node::Bytes(bytes) => bytes.len() == 0,
        Node::List(items) => items.len() == 0,
        Node::Other => true,
        _ => false,
    }
}

fn element_ids(element: &Node) -> (r: bool)
    ensures
        r == element_has_ids(*element),
{
    match element {
        Node::Table(entries) => {
            let mut j: usize = 0;
            while j < entries.len()
                invariant
                    j <= entries.len(),
                    element_has_ids(*element) == entries_have_ids(entries@),
                    forall|k: int|
                        0 <= k < j && names_field((#[trigger] entries@[k]).0, 'i') ==> !is_empty_id(
                            entries@[k].1,
                        ),
                decreases entries.len() - j,
            {
                if field_named(&entries[j].0, 'i') && empty_id(&entries[j].1) {
                    assert(names_field(entries@[j as int].0, 'i') && is_empty_id(
                        entries@[j as int].1,
                    ));
                    return false;
                }
                j += 1;
            }
            true
        },
        _ => true,
    }
}

fn list_ids(value: &Node) -> (r: bool)
    ensures
        r == list_has_ids(*value),
{
    match value {
        Node::List(items) => {
            let mut k: usize = 0;
            while k < items.len()
                invariant
                    k <= items.len(),
                    list_has_ids(*value) == (forall|m: int|
                        0 <= m < items@.len() ==> element_has_ids(#[trigger] items@[m])),
                    forall|m: int| 0 <= m < k ==> element_has_ids(#[trigger] items@[m]),
                decreases items.len() - k,
            {
                if !element_ids(&items[k]) {
                    assert(!element_has_ids(items@[k as int]));
                    return false;
                }
                k += 1;
            }
            true
        },
        _ => true,
    }
}

/// Whether a CBOR document holds no empty keyset id.
pub fn cbor_ids(document: &Node) -> (r: bool)
    ensures
        r == cbor_has_ids(*document),
{
    match document {
        Node::Table(entries) => {
            let mut j: usize = 0;
            while j < entries.len()
                invariant
                    j <= entries.len(),
                    cbor_has_ids(*document) == (forall|k: int|
                        0 <= k < entries@.len() && names_field((#[trigger] entries@[k]).0, 't')
                            ==> list_has_ids(entries@[k].1)),
                    forall|k: int|
                        0 <= k < j && names_field((#[trigger] entries@[k]).0, 't')
                            ==> list_has_ids(entries@[k].1),
                decreases entries.len() - j,
            {
                if field_named(&entries[j].0, 't') && !list_ids(&entries[j].1) {
                    assert(names_field(entries@[j as int].0, 't') && !list_has_ids(
                        entries@[j as int].1,
                    ));
                    return false;
                }
                j += 1;
            }
            true
        },
        _ => true,
    }
}

/// Whether a JSON text holds no keyset id that is cut inside a character.
pub fn json_ids(bytes: &Vec<u8>) -> (r: bool)
    ensures
        r == json_has_ids(bytes@),
{
    let mut failed = false;
    let mut mode: u8 = 0;
    let mut seen: u8 = 0;
    let mut cut = false;
    let mut uncertain = false;
    let mut i: usize = 0;
    assert(bytes@.take(0) =~= Seq::<u8>::empty());
    while i < bytes.len()
        invariant
            i <= bytes.len(),
            seen <= 17,
            scan(bytes@.take(i as int)) == (Scan { failed, mode, seen, cut, uncertain }),
        decreases bytes.len() - i,
    {
        assert(bytes@.take(i + 1).drop_last() =~= bytes@.take(i as int));
        assert(bytes@.take(i + 1).last() == bytes@[i as int]);
        let byte = bytes[i];
        let more: u8 = if seen < 17 {
            seen + 1
        } else {
            17
        };
        if mode == 0 {
            if byte == 0x22 {
                mode = 1;
                seen = 0;
                cut = false;
                uncertain = false;
            }
        } else if mode == 1 {
            if byte == 0x5c {
                mode = 2;
            } else if byte == 0x22 {
                mode = 0;
                failed = failed || (cut && (uncertain || seen == 16));
            } else {
                cut = cut || (seen == 2 && 0x80 <= byte && byte < 0xc0);
                seen = more;
            }
        } else {
            if byte == 0x75 {
                cut = cut || seen < 2;
                uncertain = true;
            }
            mode = 1;
            seen = more;
        }
        i += 1;
    }
    assert(bytes@.take(i as int) =~= bytes@);
    !failed
}

/// Whether a text starts with `cashu` and the letter of a version.
fn starts_with(text: &str, version: char) -> (r: bool)
    ensures
        r == has_prefix(text@, version),
{
    text.unicode_len() >= 6 && text.get_char(0) == 'c' && text.get_char(1) == 'a' && text.get_char(
        2,
    ) == 's' && text.get_char(3) == 'h' && text.get_char(4) == 'u' && text.get_char(5)
        == version
}

/// Whether the text of a token can be handed to the token reader.
pub fn is_readable(text: &str) -> (r: bool)
    ensures
        r == token_is_readable(text@),
{
    let json = starts_with(text, 'A');
    let cbor = starts_with(text, 'B');
    if !json && !cbor {
        return true;
    }
    let rest = text.substring_char(6, text.unicode_len());
    match decode_base64(rest) {
        None => true,
        Some(bytes) => {
            assert(bytes.deep_view() =~= bytes@);
            if json {
                json_ids(&bytes)
            } else {
                match cbor_tree(&bytes) {
                    Some(document) => cbor_ids(&document),
                    None => false,
                }
            }
        },
    }
}

} // verus!
