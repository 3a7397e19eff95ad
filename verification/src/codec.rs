//! Binary wire framing for client-to-server and server-to-client messages.
//!
//! Every frame starts with a one-byte tag. Multi-byte integers are big-endian;
//! player identifiers travel as 16 raw bytes; text fields travel as their
//! UTF-8 bytes. Encoders are total; the decoder reports a typed error for a
//! frame that is too short, of the wrong exact length, or with an unknown tag.
use vstd::prelude::*;
use crate::bytes::{be_bytes, be_val, lemma_be_bytes_len, push_all, push_u128_be, push_u32_be, u128_from_be, u32_from_be};
use vstd::string::StringExecFns;

verus! {

/// A client-to-server frame.
#[derive(Debug, Clone, PartialEq, Eq)]
pub enum C2SMessage {
    /// Session token bytes, sent once as the first frame.
    Token(Vec<u8>),
    /// Function id, echo flag, opaque payload.
    Ping(u32, bool, Vec<u8>),
    /// Subscribe to the player with this identifier.
    Sub(u128),
    /// Drop the subscription to this player.
    Unsub(u128),
}

/// A server-to-client frame.
#[derive(Debug, Clone, PartialEq, Eq)]
pub enum S2CMessage {
    /// Authentication accepted.
    Auth,
    /// Sender identifier, function id, echo flag, opaque payload.
    Ping(u128, u32, bool, Vec<u8>),
    /// Avatar-changed event for this player.
    Event(u128),
    /// Severity, UTF-8 title, optional UTF-8 body.
    Toast(u8, Vec<u8>, Option<Vec<u8>>),
    /// UTF-8 chat text.
    Chat(Vec<u8>),
    /// One-byte notice code.
    Notice(u8),
}

/// Mathematical image of a `C2SMessage`, with byte vectors as sequences.
pub enum C2SMessageV {
    Token(Seq<u8>),
    Ping(u32, bool, Seq<u8>),
    Sub(u128),
    Unsub(u128),
}

/// Mathematical image of an `S2CMessage`.
pub enum S2CMessageV {
    Auth,
    Ping(u128, u32, bool, Seq<u8>),
    Event(u128),
    Toast(u8, Seq<u8>, Option<Seq<u8>>),
    Chat(Seq<u8>),
    Notice(u8),
}

impl View for C2SMessage {
    type V = C2SMessageV;

    open spec fn view(&self) -> C2SMessageV {
        match self {
            C2SMessage::Token(t) => C2SMessageV::Token(t@),
            C2SMessage::Ping(f, e, p) => C2SMessageV::Ping(*f, *e, p@),
            C2SMessage::Sub(u) => C2SMessageV::Sub(*u),
            C2SMessage::Unsub(u) => C2SMessageV::Unsub(*u),
        }
    }
}

impl View for S2CMessage {
    type V = S2CMessageV;

    open spec fn view(&self) -> S2CMessageV {
        match self {
            S2CMessage::Auth => S2CMessageV::Auth,
            S2CMessage::Ping(u, f, e, p) => S2CMessageV::Ping(*u, *f, *e, p@),
            S2CMessage::Event(u) => S2CMessageV::Event(*u),
            S2CMessage::Toast(s, t, b) => S2CMessageV::Toast(
                *s,
                t@,
                match b {
                    Some(v) => Some(v@),
                    None => None,
                },
            ),
            S2CMessage::Chat(c) => S2CMessageV::Chat(c@),
            S2CMessage::Notice(n) => S2CMessageV::Notice(*n),
        }
    }
}

/// A frame the decoder rejects: a tag outside its range, or a length that is
/// below a minimum or off an exact size.
#[derive(Debug, Clone, PartialEq, Eq)]
pub enum MessageLoadError {
    /// Field name, lowest and highest accepted value, value found.
    BadEnum(&'static str, usize, usize, usize),
    /// Field name, required length, whether the length is exact, length found.
    BadLength(&'static str, usize, bool, usize),
}

/// Mathematical image of a `MessageLoadError`, with names as char sequences.
pub enum MessageLoadErrorV {
    BadEnum(Seq<char>, int, int, int),
    BadLength(Seq<char>, int, bool, int),
}

impl View for MessageLoadError {
    type V = MessageLoadErrorV;

    open spec fn view(&self) -> MessageLoadErrorV {
        match self {
            MessageLoadError::BadEnum(f, lo, hi, got) => MessageLoadErrorV::BadEnum(
                f@,
                *lo as int,
                *hi as int,
                *got as int,
            ),
            MessageLoadError::BadLength(f, n, exact, got) => MessageLoadErrorV::BadLength(
                f@,
                *n as int,
                *exact,
                *got as int,
            ),
        }
    }
}

/// The human-readable description of a decode error.
pub open spec fn message_of(e: MessageLoadErrorV) -> Seq<char> {
    match e {
        MessageLoadErrorV::BadEnum(f, lo, hi, got) => "invalid value of "@ + f + ": must be "@
            + crate::text::dec_of(lo as nat) + " to "@ + crate::text::dec_of(hi as nat)
            + " inclusive, got "@ + crate::text::dec_of(got as nat),
        MessageLoadErrorV::BadLength(f, n, exact, got) => "buffer wrong size for "@ + f
            + ": must be "@ + (if exact {
            "exactly"@
        } else {
            "at least"@
        }) + " "@ + crate::text::dec_of(n as nat) + " bytes, got "@ + crate::text::dec_of(
            got as nat,
        ),
    }
}

impl MessageLoadError {
    /// Renders the error as the line a log or a test shows.
    pub fn message(&self) -> (r: String)
        ensures
            r@ == message_of(self@),
    {
        match self {
            MessageLoadError::BadEnum(f, lo, hi, got) => {
                let mut s = "invalid value of ".to_owned();
                s.append(f);
                s.append(": must be ");
                let lo_s = crate::text::dec_string(*lo as u64);
                s.append(lo_s.as_str());
                s.append(" to ");
                let hi_s = crate::text::dec_string(*hi as u64);
                s.append(hi_s.as_str());
                s.append(" inclusive, got ");
                let got_s = crate::text::dec_string(*got as u64);
                s.append(got_s.as_str());
                s
            },
            MessageLoadError::BadLength(f, n, exact, got) => {
                let mut s = "buffer wrong size for ".to_owned();
                s.append(f);
                s.append(": must be ");
                s.append(
                    if *exact {
                        "exactly"
                    } else {
                        "at least"
                    },
                );
                s.append(" ");
                let n_s = crate::text::dec_string(*n as u64);
                s.append(n_s.as_str());
                s.append(" bytes, got ");
                let got_s = crate::text::dec_string(*got as u64);
                s.append(got_s.as_str());
                s
            },
        }
    }
}

/// The byte a boolean travels as.
pub open spec fn bool_byte(b: bool) -> u8 {
    if b {
        1
    } else {
        0
    }
}

/// Bytes of an encoded client-to-server message.
pub open spec fn encode_c2s_spec(m: C2SMessageV) -> Seq<u8> {
    match m {
        C2SMessageV::Token(t) => seq![0u8] + t,
        C2SMessageV::Ping(f, e, p) => seq![1u8] + be_bytes(f as nat, 4) + seq![bool_byte(e)] + p,
        C2SMessageV::Sub(u) => seq![2u8] + be_bytes(u as nat, 16),
        C2SMessageV::Unsub(u) => seq![3u8] + be_bytes(u as nat, 16),
    }
}

/// Bytes of an encoded server-to-client message.
pub open spec fn encode_s2c_spec(m: S2CMessageV) -> Seq<u8> {
    match m {
        S2CMessageV::Auth => seq![0u8],
        S2CMessageV::Ping(u, f, e, p) => seq![1u8] + be_bytes(u as nat, 16) + be_bytes(f as nat, 4)
            + seq![bool_byte(e)] + p,
        S2CMessageV::Event(u) => seq![2u8] + be_bytes(u as nat, 16),
        S2CMessageV::Toast(sev, title, body) => seq![3u8, sev] + title + match body {
            Some(b) => seq![0u8] + b,
            None => Seq::empty(),
        },
        S2CMessageV::Chat(c) => seq![4u8] + c,
        S2CMessageV::Notice(n) => seq![5u8, n],
    }
}

/// Encodes a client-to-server message; total on all messages.
pub fn encode_c2s(m: &C2SMessage) -> (r: Vec<u8>)
    ensures
        r@ == encode_c2s_spec(m@),
{
    let mut out: Vec<u8> = Vec::new();
    match m {
        C2SMessage::Token(t) => {
            out.push(0);
            proof {
                assert(out@ =~= seq![0u8]);
            }
            push_all(&mut out, t.as_slice());
        },
        C2SMessage::Ping(f, e, p) => {
            out.push(1);
            proof {
                assert(out@ =~= seq![1u8]);
            }
            push_u32_be(&mut out, *f);
            out.push(if *e {
                1
            } else {
                0
            });
            proof {
                assert(out@ =~= seq![1u8] + be_bytes(*f as nat, 4) + seq![bool_byte(*e)]);
            }
            push_all(&mut out, p.as_slice());
        },
        C2SMessage::Sub(u) => {
            out.push(2);
            proof {
                assert(out@ =~= seq![2u8]);
            }
            push_u128_be(&mut out, *u);
        },
        C2SMessage::Unsub(u) => {
            out.push(3);
            proof {
                assert(out@ =~= seq![3u8]);
            }
            push_u128_be(&mut out, *u);
        },
    }
    out
}

/// Encodes a server-to-client message; total on all messages.
pub fn encode_s2c(m: &S2CMessage) -> (r: Vec<u8>)
    ensures
        r@ == encode_s2c_spec(m@),
{
    let mut out: Vec<u8> = Vec::new();
    match m {
        S2CMessage::Auth => {
            out.push(0);
            proof {
                assert(out@ =~= seq![0u8]);
            }
        },
        S2CMessage::Ping(u, f, e, p) => {
            out.push(1);
            proof {
                assert(out@ =~= seq![1u8]);
            }
            push_u128_be(&mut out, *u);
            push_u32_be(&mut out, *f);
            out.push(if *e {
                1
            } else {
                0
            });
            proof {
                assert(out@ =~= seq![1u8] + be_bytes(*u as nat, 16) + be_bytes(*f as nat, 4)
                    + seq![bool_byte(*e)]);
            }
            push_all(&mut out, p.as_slice());
        },
        S2CMessage::Event(u) => {
            out.push(2);
            proof {
                assert(out@ =~= seq![2u8]);
            }
            push_u128_be(&mut out, *u);
        },
        S2CMessage::Toast(sev, title, body) => {
            out.push(3);
            out.push(*sev);
            proof {
                assert(out@ =~= seq![3u8, *sev]);
            }
            push_all(&mut out, title.as_slice());
            match body {
                Some(b) => {
                    out.push(0);
                    proof {
                        assert(out@ =~= seq![3u8, *sev] + title@ + seq![0u8]);
                    }
                    push_all(&mut out, b.as_slice());
                    proof {
                        assert(out@ =~= encode_s2c_spec(m@));
                    }
                },
                None => {
                    proof {
                        assert(out@ =~= encode_s2c_spec(m@));
                    }
                },
            }
        },
        S2CMessage::Chat(c) => {
            out.push(4);
            proof {
                assert(out@ =~= seq![4u8]);
            }
            push_all(&mut out, c.as_slice());
        },
        S2CMessage::Notice(n) => {
            out.push(5);
            out.push(*n);
            proof {
                assert(out@ =~= seq![5u8, *n]);
            }
        },
    }
    out
}

/// Index of the first zero byte in `s`, or `-1` if there is none.
pub open spec fn first_zero(s: Seq<u8>) -> int
    decreases s.len(),
{
    if s.len() == 0 {
        -1
    } else if s[0] == 0 {
        0
    } else {
        let r = first_zero(s.skip(1));
        if r < 0 {
            -1
        } else {
            r + 1
        }
    }
}

/// `first_zero` finds the least index of a zero byte, and `-1` means there is
/// no zero byte at all.
pub proof fn lemma_first_zero_char(s: Seq<u8>)
    ensures
        first_zero(s) == -1 ==> forall|i: int| 0 <= i < s.len() ==> s[i] != 0,
        first_zero(s) >= 0 ==> {
            &&& first_zero(s) < s.len()
            &&& s[first_zero(s)] == 0
            &&& forall|i: int| 0 <= i < first_zero(s) ==> s[i] != 0
        },
    decreases s.len(),
{
    if s.len() > 0 && s[0] != 0 {
        lemma_first_zero_char(s.skip(1));
        let r = first_zero(s.skip(1));
        if r >= 0 {
            assert(forall|i: int| 1 <= i < r + 1 ==> s[i] == s.skip(1)[i - 1] && s[i] != 0);
        } else {
            assert(forall|i: int| 1 <= i < s.len() ==> s[i] == s.skip(1)[i - 1] && s[i] != 0);
        }
    }
}

/// A zero byte at `k` with none before it is the first zero.
pub proof fn lemma_first_zero_at(s: Seq<u8>, k: int)
    requires
        0 <= k < s.len(),
        s[k] == 0,
        forall|i: int| 0 <= i < k ==> s[i] != 0,
    ensures
        first_zero(s) == k,
{
    lemma_first_zero_char(s);
    let fz = first_zero(s);
    if fz == -1 {
        assert(s[k] != 0);
    } else if fz < k {
        assert(s[fz] != 0);
    } else if fz > k {
        assert(s[k] != 0);
    }
}

/// Parse of a client-to-server frame.
pub open spec fn decode_c2s_spec(s: Seq<u8>) -> Result<C2SMessageV, MessageLoadErrorV> {
    if s.len() == 0 {
        Err(MessageLoadErrorV::BadLength("C2SMessage"@, 1, false, 0))
    } else if s[0] == 0 {
        Ok(C2SMessageV::Token(s.skip(1)))
    } else if s[0] == 1 {
        if s.len() >= 6 {
            Ok(
                C2SMessageV::Ping(
                    be_val(s.subrange(1, 5)) as u32,
                    s[5] != 0,
                    s.skip(6),
                ),
            )
        } else {
            Err(MessageLoadErrorV::BadLength("C2SMessage::Ping"@, 6, false, s.len() as int))
        }
    } else if s[0] == 2 {
        if s.len() == 17 {
            Ok(C2SMessageV::Sub(be_val(s.skip(1)) as u128))
        } else {
            Err(MessageLoadErrorV::BadLength("C2SMessage::Sub"@, 17, true, s.len() as int))
        }
    } else if s[0] == 3 {
        if s.len() == 17 {
            Ok(C2SMessageV::Unsub(be_val(s.skip(1)) as u128))
        } else {
            Err(MessageLoadErrorV::BadLength("C2SMessage::Unsub"@, 17, true, s.len() as int))
        }
    } else {
        Err(MessageLoadErrorV::BadEnum("C2SMessage.type"@, 0, 3, s[0] as int))
    }
}

/// Parse of a server-to-client frame.
pub open spec fn decode_s2c_spec(s: Seq<u8>) -> Result<S2CMessageV, MessageLoadErrorV> {
    if s.len() == 0 {
        Err(MessageLoadErrorV::BadLength("S2CMessage"@, 1, false, 0))
    } else if s[0] == 0 {
        if s.len() == 1 {
            Ok(S2CMessageV::Auth)
        } else {
            Err(MessageLoadErrorV::BadLength("S2CMessage::Auth"@, 1, true, s.len() as int))
        }
    } else if s[0] == 1 {
        if s.len() >= 22 {
            Ok(
                S2CMessageV::Ping(
                    be_val(s.subrange(1, 17)) as u128,
                    be_val(s.subrange(17, 21)) as u32,
                    s[21] != 0,
                    s.skip(22),
                ),
            )
        } else {
            Err(MessageLoadErrorV::BadLength("S2CMessage::Ping"@, 22, false, s.len() as int))
        }
    } else if s[0] == 2 {
        if s.len() == 17 {
            Ok(S2CMessageV::Event(be_val(s.skip(1)) as u128))
        } else {
            Err(MessageLoadErrorV::BadLength("S2CMessage::Event"@, 17, true, s.len() as int))
        }
    } else if s[0] == 3 {
        if s.len() >= 2 {
            let rest = s.skip(2);
            let fz = first_zero(rest);
            if fz < 0 {
                Ok(S2CMessageV::Toast(s[1], rest, None))
            } else {
                Ok(S2CMessageV::Toast(s[1], rest.take(fz), Some(rest.skip(fz + 1))))
            }
        } else {
            Err(MessageLoadErrorV::BadLength("S2CMessage::Toast"@, 2, false, s.len() as int))
        }
    } else if s[0] == 4 {
        Ok(S2CMessageV::Chat(s.skip(1)))
    } else if s[0] == 5 {
        if s.len() == 2 {
            Ok(S2CMessageV::Notice(s[1]))
        } else {
            Err(MessageLoadErrorV::BadLength("S2CMessage::Notice"@, 2, true, s.len() as int))
        }
    } else {
        Err(MessageLoadErrorV::BadEnum("S2CMessage.type"@, 0, 5, s[0] as int))
    }
}

/// Decodes a client-to-server frame, or says exactly why it is rejected.
pub fn decode_c2s(buf: &[u8]) -> (r: Result<C2SMessage, MessageLoadError>)
    ensures
        ({
            let d = decode_c2s_spec(buf@);
            &&& r is Ok <==> d is Ok
            &&& r is Ok ==> r->Ok_0@ == d->Ok_0
            &&& r is Err ==> r->Err_0@ == d->Err_0
        }),
{
    if buf.len() == 0 {
        return Err(MessageLoadError::BadLength("C2SMessage", 1, false, 0));
    }
    let tag = buf[0];
    if tag == 0 {
        let t = vstd::slice::slice_to_vec(vstd::slice::slice_subrange(buf, 1, buf.len()));
        Ok(C2SMessage::Token(t))
    } else if tag == 1 {
        if buf.len() >= 6 {
            let f = u32_from_be(vstd::slice::slice_subrange(buf, 1, 5));
            let e = buf[5] != 0;
            let p = vstd::slice::slice_to_vec(vstd::slice::slice_subrange(buf, 6, buf.len()));
            Ok(C2SMessage::Ping(f, e, p))
        } else {
            Err(MessageLoadError::BadLength("C2SMessage::Ping", 6, false, buf.len()))
        }
    } else if tag == 2 {
        if buf.len() == 17 {
            let u = u128_from_be(vstd::slice::slice_subrange(buf, 1, 17));
            proof {
                assert(buf@.subrange(1, 17) =~= buf@.skip(1));
            }
            Ok(C2SMessage::Sub(u))
        } else {
            Err(MessageLoadError::BadLength("C2SMessage::Sub", 17, true, buf.len()))
        }
    } else if tag == 3 {
        if buf.len() == 17 {
            let u = u128_from_be(vstd::slice::slice_subrange(buf, 1, 17));
            proof {
                assert(buf@.subrange(1, 17) =~= buf@.skip(1));
            }
            Ok(C2SMessage::Unsub(u))
        } else {
            Err(MessageLoadError::BadLength("C2SMessage::Unsub", 17, true, buf.len()))
        }
    } else {
        Err(MessageLoadError::BadEnum("C2SMessage.type", 0, 3, tag as usize))
    }
}

/// Decodes a server-to-client frame, or says exactly why it is rejected.
pub fn decode_s2c(buf: &[u8]) -> (r: Result<S2CMessage, MessageLoadError>)
    ensures
        ({
            let d = decode_s2c_spec(buf@);
            &&& r is Ok <==> d is Ok
            &&& r is Ok ==> r->Ok_0@ == d->Ok_0
            &&& r is Err ==> r->Err_0@ == d->Err_0
        }),
{
    if buf.len() == 0 {
        return Err(MessageLoadError::BadLength("S2CMessage", 1, false, 0));
    }
    let tag = buf[0];
    if tag == 0 {
        if buf.len() == 1 {
            Ok(S2CMessage::Auth)
        } else {
            Err(MessageLoadError::BadLength("S2CMessage::Auth", 1, true, buf.len()))
        }
    } else if tag == 1 {
        if buf.len() >= 22 {
            let u = u128_from_be(vstd::slice::slice_subrange(buf, 1, 17));
            let f = u32_from_be(vstd::slice::slice_subrange(buf, 17, 21));
            let e = buf[21] != 0;
            let p = vstd::slice::slice_to_vec(vstd::slice::slice_subrange(buf, 22, buf.len()));
            Ok(S2CMessage::Ping(u, f, e, p))
        } else {
            Err(MessageLoadError::BadLength("S2CMessage::Ping", 22, false, buf.len()))
        }
    } else if tag == 2 {
        if buf.len() == 17 {
            let u = u128_from_be(vstd::slice::slice_subrange(buf, 1, 17));
            proof {
                assert(buf@.subrange(1, 17) =~= buf@.skip(1));
            }
            Ok(S2CMessage::Event(u))
        } else {
            Err(MessageLoadError::BadLength("S2CMessage::Event", 17, true, buf.len()))
        }
    } else if tag == 3 {
        if buf.len() >= 2 {
            let sev = buf[1];
            let rest = vstd::slice::slice_subrange(buf, 2, buf.len());
            let mut i: usize = 0;
            let mut zero_at: Option<usize> = None;
            while i < rest.len()
                invariant
                    i <= rest@.len(),
                    zero_at is None ==> forall|j: int| 0 <= j < i ==> rest@[j] != 0,
                    zero_at is Some ==> {
                        &&& zero_at->0 < rest@.len()
                        &&& rest@[zero_at->0 as int] == 0
                        &&& forall|j: int| 0 <= j < zero_at->0 ==> rest@[j] != 0
                        &&& i == zero_at->0
                    },
                ensures
                    zero_at is None ==> forall|j: int| 0 <= j < rest@.len() ==> rest@[j] != 0,
                    zero_at is Some ==> {
                        &&& zero_at->0 < rest@.len()
                        &&& rest@[zero_at->0 as int] == 0
                        &&& forall|j: int| 0 <= j < zero_at->0 ==> rest@[j] != 0
                    },
                decreases rest@.len() - i,
            {
                if rest[i] == 0 {
                    zero_at = Some(i);
                    break ;
                }
                i = i + 1;
            }
            match zero_at {
                None => {
                    proof {
                        lemma_first_zero_char(rest@);
                        if first_zero(rest@) >= 0 {
                            assert(rest@[first_zero(rest@)] != 0);
                        }
                    }
                    Ok(S2CMessage::Toast(sev, vstd::slice::slice_to_vec(rest), None))
                },
                Some(z) => {
                    proof {
                        lemma_first_zero_at(rest@, z as int);
                    }
                    let title = vstd::slice::slice_to_vec(
                        vstd::slice::slice_subrange(rest, 0, z),
                    );
                    let body = vstd::slice::slice_to_vec(
                        vstd::slice::slice_subrange(rest, z + 1, rest.len()),
                    );
                    proof {
                        assert(rest@.subrange(0, z as int) =~= rest@.take(first_zero(rest@)));
                        assert(rest@.subrange(z + 1, rest@.len() as int) =~= rest@.skip(
                            first_zero(rest@) + 1,
                        ));
                    }
                    Ok(S2CMessage::Toast(sev, title, Some(body)))
                },
            }
        } else {
            Err(MessageLoadError::BadLength("S2CMessage::Toast", 2, false, buf.len()))
        }
    } else if tag == 4 {
        let c = vstd::slice::slice_to_vec(vstd::slice::slice_subrange(buf, 1, buf.len()));
        Ok(S2CMessage::Chat(c))
    } else if tag == 5 {
        if buf.len() == 2 {
            Ok(S2CMessage::Notice(buf[1]))
        } else {
            Err(MessageLoadError::BadLength("S2CMessage::Notice", 2, true, buf.len()))
        }
    } else {
        Err(MessageLoadError::BadEnum("S2CMessage.type", 0, 5, tag as usize))
    }
}

/// Holds when a server-to-client message survives its own framing: only a
/// toast whose title contains a zero byte does not, since the zero byte is
/// the title's terminator on the wire.
pub open spec fn s2c_framable(m: S2CMessageV) -> bool {
    match m {
        S2CMessageV::Toast(_, title, _) => forall|i: int| 0 <= i < title.len() ==> title[i] != 0,
        _ => true,
    }
}

/// Decoding an encoded client-to-server message gives the message back, for
/// every variant.
pub proof fn lemma_c2s_round_trip(m: C2SMessageV)
    ensures
        decode_c2s_spec(encode_c2s_spec(m)) == Ok::<C2SMessageV, MessageLoadErrorV>(m),
{
    let s = encode_c2s_spec(m);
    match m {
        C2SMessageV::Token(t) => {
            assert(s.skip(1) =~= t);
        },
        C2SMessageV::Ping(f, e, p) => {
            lemma_be_bytes_len(f as nat, 4);
            assert(s.subrange(1, 5) =~= be_bytes(f as nat, 4));
            assert(be_val(s.subrange(1, 5)) == f) by {
                crate::bytes::lemma_pow256_4();
                crate::bytes::lemma_be_val_be_bytes(f as nat, 4);
            }
            assert(s[5] == bool_byte(e));
            assert(s.skip(6) =~= p);
        },
        C2SMessageV::Sub(u) => {
            lemma_be_bytes_len(u as nat, 16);
            assert(s.skip(1) =~= be_bytes(u as nat, 16));
            assert(be_val(s.skip(1)) == u) by {
                crate::bytes::lemma_pow256_16();
                crate::bytes::lemma_be_val_be_bytes(u as nat, 16);
            }
        },
        C2SMessageV::Unsub(u) => {
            lemma_be_bytes_len(u as nat, 16);
            assert(s.skip(1) =~= be_bytes(u as nat, 16));
            assert(be_val(s.skip(1)) == u) by {
                crate::bytes::lemma_pow256_16();
                crate::bytes::lemma_be_val_be_bytes(u as nat, 16);
            }
        },
    }
}

/// Decoding an encoded server-to-client message gives the message back, for
/// every variant that is framable.
pub proof fn lemma_s2c_round_trip(m: S2CMessageV)
    requires
        s2c_framable(m),
    ensures
        decode_s2c_spec(encode_s2c_spec(m)) == Ok::<S2CMessageV, MessageLoadErrorV>(m),
{
    let s = encode_s2c_spec(m);
    match m {
        S2CMessageV::Auth => {},
        S2CMessageV::Ping(u, f, e, p) => {
            lemma_be_bytes_len(u as nat, 16);
            lemma_be_bytes_len(f as nat, 4);
            assert(s.subrange(1, 17) =~= be_bytes(u as nat, 16));
            assert(s.subrange(17, 21) =~= be_bytes(f as nat, 4));
            assert(be_val(s.subrange(1, 17)) == u) by {
                crate::bytes::lemma_pow256_16();
                crate::bytes::lemma_be_val_be_bytes(u as nat, 16);
            }
            assert(be_val(s.subrange(17, 21)) == f) by {
                crate::bytes::lemma_pow256_4();
                crate::bytes::lemma_be_val_be_bytes(f as nat, 4);
            }
            assert(s[21] == bool_byte(e));
            assert(s.skip(22) =~= p);
        },
        S2CMessageV::Event(u) => {
            lemma_be_bytes_len(u as nat, 16);
            assert(s.skip(1) =~= be_bytes(u as nat, 16));
            assert(be_val(s.skip(1)) == u) by {
                crate::bytes::lemma_pow256_16();
                crate::bytes::lemma_be_val_be_bytes(u as nat, 16);
            }
        },
        S2CMessageV::Toast(sev, title, body) => {
            let rest = s.skip(2);
            match body {
                None => {
                    assert(rest =~= title);
                    lemma_first_zero_char(rest);
                    if first_zero(rest) >= 0 {
                        assert(rest[first_zero(rest)] != 0);
                    }
                },
                Some(b) => {
                    assert(rest =~= title + seq![0u8] + b);
                    lemma_first_zero_at(rest, title.len() as int);
                    assert(rest.take(title.len() as int) =~= title);
                    assert(rest.skip(title.len() as int + 1) =~= b);
                },
            }
        },
        S2CMessageV::Chat(c) => {
            assert(s.skip(1) =~= c);
        },
        S2CMessageV::Notice(n) => {},
    }
}

} // verus!
