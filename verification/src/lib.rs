//! Core of a backend service for a cosmetic-avatar game mod: the binary wire
//! codec for client/server frames, the user and session manager with its
//! single-session invariant, the authentication handshake, the per-player
//! state-ping replay store, and the admin-token-gated frame injection rules.
//!
//! Network and file I/O, the HTTP router and the async runtime live outside
//! this crate; everything here is plain data and verified logic.
use vstd::prelude::*;

pub mod bytes;
pub mod codec;
pub mod text;
pub mod users;
pub mod manager;
pub mod session;
pub mod errors;
pub mod auth;
pub mod admin;
pub mod bans;
pub mod motd;
pub mod profile;

verus! {

/// ASCII code of the lower-case hex digit for a nibble.
pub open spec fn hex_digit(n: u8) -> u8
    recommends
        n < 16,
{
    if n < 10 {
        (0x30 + n) as u8
    } else {
        (0x57 + n) as u8
    }
}

/// Lower-case hex encoding of a byte sequence, two digits per byte.
pub open spec fn hex_of(s: Seq<u8>) -> Seq<u8>
    decreases s.len(),
{
    if s.len() == 0 {
        Seq::empty()
    } else {
        hex_of(s.drop_last()) + seq![hex_digit(s.last() / 16), hex_digit(s.last() % 16)]
    }
}

/// Encodes bytes as lower-case ASCII hex, as the wire and the handshake use it.
pub fn hex_encode(bytes: &[u8]) -> (r: Vec<u8>)
    ensures
        r@ == hex_of(bytes@),
{
    let mut out: Vec<u8> = Vec::new();
    let mut i: usize = 0;
    while i < bytes.len()
        invariant
            i <= bytes.len(),
            out@ == hex_of(bytes@.take(i as int)),
        decreases bytes.len() - i,
    {
        let b = bytes[i];
        out.push(if b / 16 < 10 { 0x30 + b / 16 } else { 0x57 + b / 16 });
        out.push(if b % 16 < 10 { 0x30 + b % 16 } else { 0x57 + b % 16 });
        i = i + 1;
        proof {
            assert(bytes@.take(i as int).drop_last() =~= bytes@.take(i - 1));
            assert(bytes@.take(i as int).last() == bytes@[i - 1]);
        }
    }
    proof {
        assert(bytes@.take(bytes@.len() as int) =~= bytes@);
    }
    out
}

/// An ASCII hex digit, either case.
pub open spec fn is_hex_digit_byte(c: u8) -> bool {
    (0x30 <= c <= 0x39) || (0x61 <= c <= 0x66) || (0x41 <= c <= 0x46)
}

/// Value of an ASCII hex digit.
pub open spec fn hex_val(c: u8) -> u8
    recommends
        is_hex_digit_byte(c),
{
    if 0x30 <= c <= 0x39 {
        (c - 0x30) as u8
    } else if 0x61 <= c <= 0x66 {
        (c - 0x57) as u8
    } else {
        (c - 0x37) as u8
    }
}

/// Parse of an ASCII hex string: defined exactly on even-length strings of
/// hex digits.
pub open spec fn hex_decode_spec(s: Seq<u8>) -> Option<Seq<u8>> {
    if s.len() % 2 == 0 && (forall|i: int| 0 <= i < s.len() ==> is_hex_digit_byte(#[trigger] s[i])) {
        Some(
            Seq::new(
                (s.len() / 2) as nat,
                |i: int| (hex_val(s[2 * i]) * 16 + hex_val(s[2 * i + 1])) as u8,
            ),
        )
    } else {
        None
    }
}

/// Decodes an ASCII hex string, rejecting exactly what is not an even number
/// of hex digits.
pub fn hex_decode(s: &[u8]) -> (r: Result<Vec<u8>, ()>)
    ensures
        r is Ok <==> hex_decode_spec(s@) is Some,
        r is Ok ==> r->Ok_0@ == hex_decode_spec(s@).unwrap(),
{
    if s.len() % 2 != 0 {
        return Err(());
    }
    let pairs = s.len() / 2;
    let mut out: Vec<u8> = Vec::new();
    let mut i: usize = 0;
    while i < pairs
        invariant
            s@.len() % 2 == 0,
            s@.len() <= usize::MAX,
            pairs == s@.len() / 2,
            i <= pairs,
            out@.len() == i,
            forall|j: int| 0 <= j < 2 * i ==> is_hex_digit_byte(#[trigger] s@[j]),
            forall|j: int|
                0 <= j < i ==> out@[j] == (hex_val(s@[2 * j]) * 16 + hex_val(s@[2 * j + 1])) as u8,
        decreases pairs - i,
    {
        proof {
            assert(2 * pairs == s@.len());
        }
        let hi = s[2 * i];
        let lo = s[2 * i + 1];
        let hv: u8 = if 0x30 <= hi && hi <= 0x39 {
            hi - 0x30
        } else if 0x61 <= hi && hi <= 0x66 {
            hi - 0x57
        } else if 0x41 <= hi && hi <= 0x46 {
            hi - 0x37
        } else {
            return Err(());
        };
        let lv: u8 = if 0x30 <= lo && lo <= 0x39 {
            lo - 0x30
        } else if 0x61 <= lo && lo <= 0x66 {
            lo - 0x57
        } else if 0x41 <= lo && lo <= 0x46 {
            lo - 0x37
        } else {
            return Err(());
        };
        out.push(hv * 16 + lv);
        i = i + 1;
    }
    proof {
        assert(forall|j: int| 0 <= j < s@.len() ==> is_hex_digit_byte(#[trigger] s@[j]));
        assert(out@ =~= hex_decode_spec(s@).unwrap());
    }
    Ok(out)
}

/// Each byte becomes the two hex digits of its halves.
pub proof fn lemma_hex_of_index(s: Seq<u8>, i: int)
    requires
        0 <= i < s.len(),
    ensures
        hex_of(s).len() == 2 * s.len(),
        hex_of(s)[2 * i] == hex_digit(s[i] / 16),
        hex_of(s)[2 * i + 1] == hex_digit(s[i] % 16),
    decreases s.len(),
{
    lemma_hex_of_len(s);
    if i == s.len() - 1 {
        lemma_hex_of_len(s.drop_last());
    } else {
        lemma_hex_of_index(s.drop_last(), i);
    }
}

pub proof fn lemma_hex_of_len(s: Seq<u8>)
    ensures
        hex_of(s).len() == 2 * s.len(),
    decreases s.len(),
{
    if s.len() > 0 {
        lemma_hex_of_len(s.drop_last());
    }
}

/// Decoding an encoding gives the bytes back: the hex functions are inverse.
pub proof fn lemma_hex_round_trip(s: Seq<u8>)
    ensures
        hex_decode_spec(hex_of(s)) == Some(s),
{
    let h = hex_of(s);
    lemma_hex_of_len(s);
    assert forall|j: int| 0 <= j < h.len() implies is_hex_digit_byte(#[trigger] h[j]) by {
        let i = j / 2;
        lemma_hex_of_index(s, i);
        assert(j == 2 * i || j == 2 * i + 1);
    }
    let d = hex_decode_spec(h).unwrap();
    assert forall|i: int| 0 <= i < s.len() implies d[i] == s[i] by {
        lemma_hex_of_index(s, i);
        assert(hex_val(hex_digit(s[i] / 16)) == s[i] / 16);
        assert(hex_val(hex_digit(s[i] % 16)) == s[i] % 16);
    }
    assert(d =~= s);
}

} // verus!
