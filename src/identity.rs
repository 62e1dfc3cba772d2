//! The identity hash: a digest over the reassembled topic and the payload
//! that names one message on the sending and on the receiving side alike.
use vstd::prelude::*;
use vstd::slice::slice_to_vec;
use vstd::string::*;
use vstd::utf8::{decode_utf8, encode_utf8, encode_utf8_decode_utf8, valid_utf8};

verus! {

/// The BLAKE3 digest of a byte string.
pub uninterp spec fn blake3_of(data: Seq<u8>) -> Seq<u8>;

/// Relies on blake3::hash: the 32-byte BLAKE3 digest of the input.
#[verifier::external_body]
fn blake3_digest(data: &[u8]) -> (r: Vec<u8>)
    ensures
        r@ == blake3_of(data@),
        r@.len() == 32,
{
    blake3::hash(data).as_bytes().to_vec()
}

pub open spec fn hex_digit(d: nat) -> char {
    if d < 10 {
        crate::text::digit_char(d)
    } else if d == 10 {
        'a'
    } else if d == 11 {
        'b'
    } else if d == 12 {
        'c'
    } else if d == 13 {
        'd'
    } else if d == 14 {
        'e'
    } else {
        'f'
    }
}

/// Two lowercase hex digits per byte, high nibble first.
pub open spec fn hex_of(b: Seq<u8>) -> Seq<char>
    decreases b.len(),
{
    if b.len() == 0 {
        Seq::empty()
    } else {
        hex_of(b.drop_last()) + seq![
            hex_digit(b.last() as nat / 16),
            hex_digit(b.last() as nat % 16),
        ]
    }
}

pub proof fn lemma_hex_len(b: Seq<u8>)
    ensures
        hex_of(b).len() == 2 * b.len(),
    decreases b.len(),
{
    if b.len() > 0 {
        lemma_hex_len(b.drop_last());
    }
}

/// Relies on hex::encode: two lowercase hex digits per byte, in order.
#[verifier::external_body]
fn hex_encode(b: &[u8]) -> (r: String)
    ensures
        r@ == hex_of(b@),
{
    hex::encode(b)
}

/// The text `String::from_utf8_lossy` makes of a byte string.
pub uninterp spec fn lossy_of(b: Seq<u8>) -> Seq<char>;

/// Relies on String::from_utf8_lossy: a function of the bytes alone, and
/// valid UTF-8 decodes unchanged.
#[verifier::external_body]
fn utf8_lossy(b: &[u8]) -> (r: String)
    ensures
        r@ == lossy_of(b@),
        valid_utf8(b@) ==> r@ == decode_utf8(b@),
{
    String::from_utf8_lossy(b).into_owned()
}

/// Relies on str::replace with a char pattern: every `'/'` becomes `'.'`.
#[verifier::external_body]
fn slashes_to_dots(s: &str) -> (r: String)
    ensures
        r@ == s@.map_values(|c: char| if c == '/' { '.' } else { c }),
{
    s.replace('/', ".")
}

/// The identity of a message whose reassembled topic is `joined`.
pub open spec fn identity_of(joined: Seq<char>, payload: Seq<u8>) -> Seq<char> {
    hex_of(blake3_of(encode_utf8(joined) + payload))
}

/// Hex digest over `topic + "." + key` followed by the payload bytes: 64
/// lowercase hex characters, two per byte of the 32-byte digest.
pub fn identity_hash(topic: &str, key: &str, payload: &[u8]) -> (r: String)
    ensures
        r@ == identity_of(topic@ + seq!['.'] + key@, payload@),
        r@.len() == 64,
{
    proof {
        reveal_strlit(".");
    }
    let joined = topic.to_owned().concat(".").concat(key);
    assert("."@ =~= seq!['.']);
    let r = hash_joined(joined.as_str(), payload);
    r
}

/// Hex digest over an already reassembled topic followed by the payload.
fn hash_joined(joined: &str, payload: &[u8]) -> (r: String)
    ensures
        r@ == identity_of(joined@, payload@),
        r@.len() == 64,
{
    let mut data = joined.as_bytes_vec();
    let mut rest = slice_to_vec(payload);
    data.append(&mut rest);
    let digest = blake3_digest(data.as_slice());
    proof {
        lemma_hex_len(digest@);
    }
    hex_encode(digest.as_slice())
}

/// The identity of a message received with the broker's topic, the raw key
/// bytes and the payload. Key bytes that are not UTF-8 are read lossily.
pub fn received_identity(topic: &str, key: &[u8], payload: &[u8]) -> (r: String)
    ensures
        r@ == identity_of(topic@ + seq!['.'] + lossy_of(key@), payload@),
        valid_utf8(key@) ==> r@ == identity_of(topic@ + seq!['.'] + decode_utf8(key@), payload@),
        r@.len() == 64,
{
    let key_text = utf8_lossy(key);
    identity_hash(topic, key_text.as_str(), payload)
}

/// The identity of a message received under a slash-separated topic that
/// carries the whole path, with no key.
pub fn slash_topic_identity(topic: &str, payload: &[u8]) -> (r: String)
    ensures
        r@ == identity_of(
            topic@.map_values(|c: char| if c == '/' { '.' } else { c }),
            payload@,
        ),
        r@.len() == 64,
{
    let joined = slashes_to_dots(topic);
    hash_joined(joined.as_str(), payload)
}

/// The identity depends on the topic and key only through their join: two
/// splits of one path give one identity, and equal inputs give equal
/// identities.
pub proof fn lemma_identity_of_join(
    topic1: Seq<char>,
    key1: Seq<char>,
    topic2: Seq<char>,
    key2: Seq<char>,
    payload: Seq<u8>,
)
    requires
        topic1 + seq!['.'] + key1 == topic2 + seq!['.'] + key2,
    ensures
        identity_of(topic1 + seq!['.'] + key1, payload) == identity_of(
            topic2 + seq!['.'] + key2,
            payload,
        ),
{
}

/// A key sent as text and received as its UTF-8 bytes gives the sender's
/// identity back.
pub proof fn lemma_received_matches_sent(topic: Seq<char>, key: Seq<char>, payload: Seq<u8>)
    ensures
        valid_utf8(encode_utf8(key)),
        identity_of(topic + seq!['.'] + decode_utf8(encode_utf8(key)), payload) == identity_of(
            topic + seq!['.'] + key,
            payload,
        ),
{
    vstd::utf8::encode_utf8_valid_utf8(key);
    encode_utf8_decode_utf8(key);
}

} // verus!
