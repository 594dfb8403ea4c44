//! The identifier codec: a keyed, reversible transform between the key that
//! storage gives a paste and the token that stands in its URL.
//!
//! A key is laid out as eight big-endian bytes, combined byte by byte with a
//! fixed mask by exclusive-or, and the masked bytes are written as words by
//! the `mnemonic` crate. The mask is the head of the ChaCha8 keystream under
//! the secret key: it is drawn once and never advances.

use crate::error::Error;
use chacha20::cipher::{NewCipher, StreamCipher};
use chacha20::{ChaCha8, Key, Nonce};
use vstd::prelude::*;

verus! {

/// The first eight bytes of the ChaCha8 keystream under a key and a nonce.
pub uninterp spec fn chacha8_keystream(key: Seq<u8>, nonce: Seq<u8>) -> Seq<u8>;

/// The text that `mnemonic::to_string` writes for a byte string.
pub uninterp spec fn mnemonic_text(bytes: Seq<u8>) -> Seq<char>;

/// The bytes that `mnemonic::decode` reads from a text, where it accepts it.
pub uninterp spec fn mnemonic_bytes(text: Seq<char>) -> Option<Seq<u8>>;

/// Runs `ChaCha8::new` with the key and the nonce and `apply_keystream`
/// over eight zero bytes, which leaves the head of the keystream. The
/// contract claims only that this head is a function of the key and the
/// nonce.
#[verifier::external_body]
fn keystream_head(key: &[u8; 32], nonce: &[u8; 12]) -> (head: [u8; 8])
    ensures
        head@ == chacha8_keystream(key@, nonce@),
{
    let mut cipher = ChaCha8::new(Key::from_slice(key), Nonce::from_slice(nonce));
    let mut head = [0u8; 8];
    cipher.apply_keystream(&mut head);
    head
}

/// Calls `mnemonic::to_string`. The contract names the text, and claims what
/// the crate promises of it: decoding the text gives the bytes back, so no
/// other eight bytes have the same text. It also claims the shape that the
/// crate gives the text of eight bytes: six words of its dictionary, which
/// holds lowercase letters only, laid out after its format `x-x-x--`, so
/// with six hyphens among them.
#[verifier::external_body]
fn words_of(bytes: &[u8; 8]) -> (text: String)
    ensures
        text@ == mnemonic_text(bytes@),
        token_shaped(text@),
        mnemonic_bytes(text@) == Some(bytes@),
        forall|other: Seq<u8>|
            other.len() == 8 && #[trigger] mnemonic_text(other) == text@ ==> other == bytes@,
{
    mnemonic::to_string(bytes)
}

/// Calls `mnemonic::decode` into a fresh vector; a refusal of the crate,
/// whatever its kind, comes back as `None`. The contract names the bytes
/// read, and claims the crate's round trip from this side: a text that
/// `mnemonic::to_string` wrote for eight bytes is accepted and gives them
/// back.
#[verifier::external_body]
fn bytes_of(text: &str) -> (read: Option<Vec<u8>>)
    ensures
        match read {
            Some(bytes) => mnemonic_bytes(text@) == Some(bytes@),
            None => mnemonic_bytes(text@).is_none(),
        },
        forall|written: Seq<u8>|
            written.len() == 8 && #[trigger] mnemonic_text(written) == text@ ==> read.is_some()
                && read.unwrap()@ == written,
{
    let mut bytes = Vec::new();
    match mnemonic::decode(text, &mut bytes) {
        Ok(_) => Some(bytes),
        Err(_) => None,
    }
}

/// The eight bytes of a key, most significant first.
pub open spec fn key_bytes(key: i64) -> Seq<u8> {
    let u = key as u64;
    seq![
        (u >> 56) as u8,
        (u >> 48) as u8,
        (u >> 40) as u8,
        (u >> 32) as u8,
        (u >> 24) as u8,
        (u >> 16) as u8,
        (u >> 8) as u8,
        u as u8,
    ]
}

/// The key whose big-endian bytes are the first eight of `bytes`.
pub open spec fn bytes_key(bytes: Seq<u8>) -> i64 {
    (((bytes[0] as u64) << 56) | ((bytes[1] as u64) << 48) | ((bytes[2] as u64) << 40) | ((
    bytes[3] as u64) << 32) | ((bytes[4] as u64) << 24) | ((bytes[5] as u64) << 16) | ((
    bytes[6] as u64) << 8) | (bytes[7] as u64)) as i64
}

/// Eight bytes combined with the mask, byte by byte, by exclusive-or.
pub open spec fn masked(bytes: Seq<u8>, mask: Seq<u8>) -> Seq<u8> {
    Seq::new(8, |i: int| bytes[i] ^ mask[i])
}

/// The twelve zero bytes under which the mask is drawn.
pub open spec fn zero_nonce() -> Seq<u8> {
    Seq::new(12, |i: int| 0u8)
}

/// Whether a character may stand in a token: a lowercase letter or a
/// hyphen. A token is thereby one segment of a URL's path as it stands.
pub open spec fn is_token_char(c: char) -> bool {
    ('a' <= c && c <= 'z') || c == '-'
}

/// The number of hyphens in a text.
pub open spec fn hyphens(text: Seq<char>) -> nat
    decreases text.len(),
{
    if text.len() == 0 {
        0
    } else {
        hyphens(text.drop_last()) + if text.last() == '-' {
            1nat
        } else {
            0nat
        }
    }
}

/// The shape of a token: lowercase letters and hyphens only, and six
/// hyphens, which part six words.
pub open spec fn token_shaped(text: Seq<char>) -> bool {
    &&& forall|i: int| 0 <= i < text.len() ==> is_token_char(#[trigger] text[i])
    &&& hyphens(text) == 6
}

/// The token of a key under a mask.
pub open spec fn token_of(mask: Seq<u8>, key: i64) -> Seq<char> {
    mnemonic_text(masked(key_bytes(key), mask))
}

/// What a text decodes to under a mask: the key whose token it is, or
/// `InvalidId` where the text is not read as eight bytes, is not the text
/// of the bytes read, or has not the shape of a token.
pub open spec fn decoded(mask: Seq<u8>, text: Seq<char>) -> Result<i64, Error> {
    match mnemonic_bytes(text) {
        Some(bytes) => if bytes.len() == 8 && mnemonic_text(bytes) == text && token_shaped(text) {
            Ok(bytes_key(masked(bytes, mask)))
        } else {
            Err(Error::InvalidId)
        },
        None => Err(Error::InvalidId),
    }
}

/// Packing the big-endian bytes of a key gives the key back.
pub proof fn lemma_pack_unpack(key: i64)
    ensures
        bytes_key(key_bytes(key)) == key,
{
    let u = key as u64;
    assert((((((u >> 56) as u8) as u64) << 56) | ((((u >> 48) as u8) as u64) << 48) | ((((u
        >> 40) as u8) as u64) << 40) | ((((u >> 32) as u8) as u64) << 32) | ((((u >> 24) as u8) as u64)
        << 24) | ((((u >> 16) as u8) as u64) << 16) | ((((u >> 8) as u8) as u64) << 8) | ((u as u8) as u64))
        == u) by (bit_vector);
    assert((key as u64) as i64 == key) by (bit_vector);
}

proof fn lemma_unpack_word(b0: u8, b1: u8, b2: u8, b3: u8, b4: u8, b5: u8, b6: u8, b7: u8)
    by (bit_vector)
    ensures
        ({
            let u = ((((b0 as u64) << 56) | ((b1 as u64) << 48) | ((b2 as u64) << 40) | ((b3 as u64)
                << 32) | ((b4 as u64) << 24) | ((b5 as u64) << 16) | ((b6 as u64) << 8) | (
            b7 as u64)) as i64) as u64;
            &&& (u >> 56) as u8 == b0
            &&& (u >> 48) as u8 == b1
            &&& (u >> 40) as u8 == b2
            &&& (u >> 32) as u8 == b3
            &&& (u >> 24) as u8 == b4
            &&& (u >> 16) as u8 == b5
            &&& (u >> 8) as u8 == b6
            &&& u as u8 == b7
        }),
{
}

/// The big-endian bytes of the key packed from eight bytes are those bytes.
pub proof fn lemma_unpack_pack(bytes: Seq<u8>)
    requires
        bytes.len() == 8,
    ensures
        key_bytes(bytes_key(bytes)) == bytes,
{
    lemma_unpack_word(
        bytes[0],
        bytes[1],
        bytes[2],
        bytes[3],
        bytes[4],
        bytes[5],
        bytes[6],
        bytes[7],
    );
    assert(key_bytes(bytes_key(bytes)) =~= bytes);
}

proof fn lemma_xor_twice(a: u8, m: u8)
    by (bit_vector)
    ensures
        (a ^ m) ^ m == a,
{
}

/// Masking is its own inverse.
pub proof fn lemma_masked_twice(bytes: Seq<u8>, mask: Seq<u8>)
    requires
        bytes.len() == 8,
    ensures
        masked(masked(bytes, mask), mask) == bytes,
{
    assert forall|i: int| 0 <= i < 8 implies masked(masked(bytes, mask), mask)[i] == bytes[i] by {
        lemma_xor_twice(bytes[i], mask[i]);
    }
    assert(masked(masked(bytes, mask), mask) =~= bytes);
}

/// The masked bytes of a key unmask to the key, whatever the mask: the
/// byte-level half of the round trip.
pub proof fn lemma_unmask_masked(mask: Seq<u8>, key: i64)
    ensures
        bytes_key(masked(masked(key_bytes(key), mask), mask)) == key,
{
    lemma_masked_twice(key_bytes(key), mask);
    lemma_pack_unpack(key);
}

/// Two keys with the same masked bytes are one key.
pub proof fn lemma_masked_distinct(mask: Seq<u8>, a: i64, b: i64)
    requires
        a != b,
    ensures
        masked(key_bytes(a), mask) != masked(key_bytes(b), mask),
{
    lemma_unmask_masked(mask, a);
    lemma_unmask_masked(mask, b);
}

/// A text decodes to a key only if it is that key's token: anything else,
/// a token with a word changed or cut off among it, is either refused or the
/// token of another key.
pub proof fn lemma_decoded_is_canonical(mask: Seq<u8>, text: Seq<char>, key: i64)
    requires
        decoded(mask, text) == Ok::<i64, Error>(key),
    ensures
        text == token_of(mask, key),
{
    let bytes = mnemonic_bytes(text).unwrap();
    lemma_unpack_pack(masked(bytes, mask));
    lemma_masked_twice(bytes, mask);
}

/// A text cut off at its last hyphen has one hyphen fewer.
pub proof fn lemma_cut_hyphens(text: Seq<char>, at: int)
    requires
        0 <= at < text.len(),
        text[at] == '-',
        forall|i: int| at < i < text.len() ==> text[i] != '-',
    ensures
        hyphens(text.take(at)) + 1 == hyphens(text),
    decreases text.len(),
{
    if at == text.len() - 1 {
        assert(text.drop_last() =~= text.take(at));
    } else {
        lemma_cut_hyphens(text.drop_last(), at);
        assert(text.drop_last().take(at) =~= text.take(at));
    }
}

/// A token cut by one word is refused: what is left of a token when its last
/// word and the hyphen before it are taken away decodes to no key.
pub proof fn lemma_cut_token_is_refused(mask: Seq<u8>, token: Seq<char>, at: int)
    requires
        decoded(mask, token) is Ok,
        0 <= at < token.len(),
        token[at] == '-',
        forall|i: int| at < i < token.len() ==> token[i] != '-',
    ensures
        decoded(mask, token.take(at)) == Err::<i64, Error>(Error::InvalidId),
{
    lemma_cut_hyphens(token, at);
}

/// The mask of the codec: eight bytes that depend on the secret key alone
/// and stay the same from call to call.
pub struct Mask {
    bytes: [u8; 8],
}

impl Mask {
    /// The eight bytes of the mask.
    pub closed spec fn view(&self) -> Seq<u8> {
        self.bytes@
    }

    /// Draws the mask from the secret key: the head of its keystream under
    /// the zero nonce.
    pub fn derive(key: &[u8; 32]) -> (mask: Mask)
        ensures
            mask@ == chacha8_keystream(key@, zero_nonce()),
    {
        let nonce = [0u8; 12];
        assert(nonce@ =~= zero_nonce());
        Mask { bytes: keystream_head(key, &nonce) }
    }

    /// A mask of given bytes.
    pub fn from_bytes(bytes: [u8; 8]) -> (mask: Mask)
        ensures
            mask@ == bytes@,
    {
        Mask { bytes }
    }

    /// The bytes of the mask.
    pub fn bytes(&self) -> (bytes: [u8; 8])
        ensures
            bytes@ == self@,
    {
        self.bytes
    }
}

/// The key that storage gave a paste.
#[derive(Clone, Copy, Debug, PartialEq, Eq, Structural)]
pub struct Id(pub i64);

impl From<i64> for Id {
    fn from(key: i64) -> (id: Id) {
        Id(key)
    }
}

impl vstd::std_specs::convert::FromSpecImpl<i64> for Id {
    open spec fn obeys_from_spec() -> bool {
        true
    }

    open spec fn from_spec(key: i64) -> Id {
        Id(key)
    }
}

impl From<Id> for i64 {
    fn from(id: Id) -> (key: i64) {
        id.0
    }
}

impl vstd::std_specs::convert::FromSpecImpl<Id> for i64 {
    open spec fn obeys_from_spec() -> bool {
        true
    }

    open spec fn from_spec(id: Id) -> i64 {
        id.0
    }
}

impl Id {
    /// The big-endian bytes of the key, masked.
    pub fn obfuscate(&self, mask: &Mask) -> (out: [u8; 8])
        ensures
            out@ == masked(key_bytes(self.0), mask@),
    {
        let u: u64 = self.0 as u64;
        let m = &mask.bytes;
        let out = [
            ((u >> 56) as u8) ^ m[0],
            ((u >> 48) as u8) ^ m[1],
            ((u >> 40) as u8) ^ m[2],
            ((u >> 32) as u8) ^ m[3],
            ((u >> 24) as u8) ^ m[4],
            ((u >> 16) as u8) ^ m[5],
            ((u >> 8) as u8) ^ m[6],
            (u as u8) ^ m[7],
        ];
        assert(out@ =~= masked(key_bytes(self.0), mask@));
        out
    }

    /// The key behind masked bytes: `InvalidId` unless there are eight of
    /// them.
    pub fn unmask(mask: &Mask, bytes: &Vec<u8>) -> (r: Result<Id, Error>)
        ensures
            r == (if bytes@.len() == 8 {
                Ok::<Id, Error>(Id(bytes_key(masked(bytes@, mask@))))
            } else {
                Err::<Id, Error>(Error::InvalidId)
            }),
    {
        if bytes.len() != 8 {
            return Err(Error::InvalidId);
        }
        let m = &mask.bytes;
        let u: u64 = (((bytes[0] ^ m[0]) as u64) << 56) | (((bytes[1] ^ m[1]) as u64) << 48) | (((
        bytes[2] ^ m[2]) as u64) << 40) | (((bytes[3] ^ m[3]) as u64) << 32) | (((bytes[4] ^ m[4]) as u64)
            << 24) | (((bytes[5] ^ m[5]) as u64) << 16) | (((bytes[6] ^ m[6]) as u64) << 8) | ((bytes[7]
            ^ m[7]) as u64);
        Ok(Id(u as i64))
    }

    /// The token of the key: six words of lowercase letters with hyphens
    /// between them. Decoding it gives the key back, and no other key has the
    /// same token.
    pub fn encode(&self, mask: &Mask) -> (token: String)
        ensures
            token@ == token_of(mask@, self.0),
            token_shaped(token@),
            decoded(mask@, token@) == Ok::<i64, Error>(self.0),
            forall|other: i64| other != self.0 ==> #[trigger] token_of(mask@, other) != token@,
    {
        let bytes = self.obfuscate(mask);
        let token = words_of(&bytes);
        proof {
            lemma_unmask_masked(mask@, self.0);
            assert forall|other: i64| other != self.0 implies #[trigger] token_of(mask@, other)
                != token@ by {
                lemma_masked_distinct(mask@, other, self.0);
            }
        }
        token
    }

    /// The key whose token the text is; `InvalidId` for every other text.
    pub fn decode(mask: &Mask, token: &str) -> (r: Result<Id, Error>)
        ensures
            r == match decoded(mask@, token@) {
                Ok(key) => Ok::<Id, Error>(Id(key)),
                Err(e) => Err::<Id, Error>(e),
            },
            forall|key: i64| r == Ok::<Id, Error>(Id(key)) <==> token@ == #[trigger] token_of(mask@, key),
            r is Err ==> r == Err::<Id, Error>(Error::InvalidId),
            r is Ok ==> token_shaped(token@),
    {
        match bytes_of(token) {
            None => Err(Error::InvalidId),
            Some(bytes) => {
                if bytes.len() != 8 {
                    return Err(Error::InvalidId);
                }
                let canonical = words_of(
                    &[
                        bytes[0],
                        bytes[1],
                        bytes[2],
                        bytes[3],
                        bytes[4],
                        bytes[5],
                        bytes[6],
                        bytes[7],
                    ],
                );
                assert(mnemonic_text(bytes@) == canonical@) by {
                    assert(bytes@ =~= seq![
                        bytes[0],
                        bytes[1],
                        bytes[2],
                        bytes[3],
                        bytes[4],
                        bytes[5],
                        bytes[6],
                        bytes[7],
                    ]);
                }
                if canonical == token.to_owned() {
                    proof {
                        lemma_decoded_is_canonical(mask@, token@, bytes_key(masked(bytes@, mask@)));
                        assert forall|key: i64| token@ == #[trigger] token_of(mask@, key) implies key
                            == bytes_key(masked(bytes@, mask@)) by {
                            lemma_unmask_masked(mask@, key);
                        }
                    }
                    Id::unmask(mask, &bytes)
                } else {
                    Err(Error::InvalidId)
                }
            },
        }
    }
}

} // verus!
