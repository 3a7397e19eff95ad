//! Profile-surface helpers: the avatar content hash and the canonical text
//! form of a player identifier. Reading and writing the avatar files happens
//! outside the crate; the bytes come in as plain values.
use vstd::prelude::*;
use vstd::string::StringExecFns;
use crate::bytes::be_bytes;
use crate::text::{hex_chars_of, hex_string, lemma_hex_chars_len};

verus! {

/// The standard base64 rendering of a byte sequence, named; its value is
/// fixed by the input alone.
pub uninterp spec fn base64_ascii_of(s: Seq<u8>) -> Seq<u8>;

/// Relies on base64's `Engine::encode` with the standard alphabet: the padded
/// base64 text of the input, four output bytes for every started group of
/// three, fixed by the input alone. The length bound keeps the output size
/// computable, which the encoder otherwise gives up on.
#[verifier::external_body]
fn base64_encode(bytes: &[u8]) -> (r: Vec<u8>)
    requires
        4 * ((bytes@.len() + 2) / 3) <= usize::MAX,
    ensures
        r@ == base64_ascii_of(bytes@),
        r@.len() == 4 * ((bytes@.len() + 2) / 3),
{
    base64::Engine::encode(&base64::engine::general_purpose::STANDARD, bytes).into_bytes()
}

/// The SHA-256 digest of a byte sequence, named; its value is fixed by the
/// input alone.
pub uninterp spec fn sha256_of(s: Seq<u8>) -> Seq<u8>;

/// Relies on ring's `digest` with `SHA256`: the SHA-256 digest of the input,
/// which is 32 bytes long and depends on the input alone.
#[verifier::external_body]
fn sha256(bytes: &[u8]) -> (r: Vec<u8>)
    ensures
        r@ == sha256_of(bytes@),
        r@.len() == 32,
{
    ring::digest::digest(&ring::digest::SHA256, bytes).as_ref().to_vec()
}

/// The hash the profile route reports for an avatar: the hex of the SHA-256
/// of the base64 text of the file's content.
pub fn avatar_hash(content: &[u8]) -> (r: String)
    requires
        4 * ((content@.len() + 2) / 3) <= usize::MAX,
    ensures
        r@ == hex_chars_of(sha256_of(base64_ascii_of(content@))),
        r@.len() == 64,
{
    let encoded = base64_encode(content);
    let digest = sha256(encoded.as_slice());
    let r = hex_string(digest.as_slice());
    proof {
        lemma_hex_chars_len(digest@);
    }
    r
}

/// The hyphenated text form of a player identifier: the 32 hex digits of its
/// 16 big-endian bytes, in the 8-4-4-4-12 grouping.
pub open spec fn hyphenated_of(u: u128) -> Seq<char> {
    let bs = be_bytes(u as nat, 16);
    hex_chars_of(bs.subrange(0, 4)) + "-"@ + hex_chars_of(bs.subrange(4, 6)) + "-"@ + hex_chars_of(
        bs.subrange(6, 8),
    ) + "-"@ + hex_chars_of(bs.subrange(8, 10)) + "-"@ + hex_chars_of(bs.subrange(10, 16))
}

/// Renders a player identifier in its canonical hyphenated form.
pub fn format_uuid(uuid: u128) -> (r: String)
    ensures
        r@ == hyphenated_of(uuid),
{
    let mut bytes: Vec<u8> = Vec::new();
    crate::bytes::push_u128_be(&mut bytes, uuid);
    proof {
        crate::bytes::lemma_be_bytes_len(uuid as nat, 16);
        assert(bytes@ =~= be_bytes(uuid as nat, 16));
    }
    let mut out = hex_string(vstd::slice::slice_subrange(bytes.as_slice(), 0, 4));
    out.append("-");
    let part = hex_string(vstd::slice::slice_subrange(bytes.as_slice(), 4, 6));
    out.append(part.as_str());
    out.append("-");
    let part = hex_string(vstd::slice::slice_subrange(bytes.as_slice(), 6, 8));
    out.append(part.as_str());
    out.append("-");
    let part = hex_string(vstd::slice::slice_subrange(bytes.as_slice(), 8, 10));
    out.append(part.as_str());
    out.append("-");
    let part = hex_string(vstd::slice::slice_subrange(bytes.as_slice(), 10, 16));
    out.append(part.as_str());
    out
}

} // verus!
