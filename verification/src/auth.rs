//! The two-phase authentication handshake and the token checks.
//!
//! Phase one draws entropy, hashes it and hands the client a 40-digit hex
//! server id; phase two classifies what the external validators said and, on
//! success, opens the session under the single-session rule. The HTTP calls
//! to the validators happen outside the crate; their classified outcomes come
//! back in as plain values.
use vstd::prelude::*;
use crate::errors::ApiError;
use crate::manager::{spec_insert_user, spec_remove, wf, UManager, UManagerV};
use crate::text::hex_chars_of;
use crate::users::{default_rank, default_version, AuthProvider, Userinfo, UserinfoV};

verus! {

/// The query of the handshake's first phase.
pub struct Id {
    pub username: String,
}

/// The query of the handshake's second phase.
pub struct Verify {
    pub id: String,
}

/// The token taken from the request header, when one was sent.
#[derive(Debug, PartialEq, Eq)]
pub struct Token(pub Option<String>);

/// Relies on rand's `fill`: 50 bytes from the thread-local generator.
/// Nothing is promised of their values, since they are random.
#[verifier::external_body]
fn random_bytes_50() -> (r: Vec<u8>)
    ensures
        r@.len() == 50,
{
    let mut buf = [0u8; 50];
    rand::fill(&mut buf[..]);
    buf.to_vec()
}

/// The SHA-1 digest of a byte sequence, named; its value is fixed by the
/// input alone.
pub uninterp spec fn sha1_of(s: Seq<u8>) -> Seq<u8>;

/// Relies on ring's `digest` with `SHA1_FOR_LEGACY_USE_ONLY`: the SHA-1
/// digest of the input, which is 20 bytes long and depends on the input
/// alone.
#[verifier::external_body]
fn sha1(bytes: &[u8]) -> (r: Vec<u8>)
    ensures
        r@ == sha1_of(bytes@),
        r@.len() == 20,
{
    ring::digest::digest(&ring::digest::SHA1_FOR_LEGACY_USE_ONLY, bytes).as_ref().to_vec()
}

/// The server id derived from handshake entropy: the hex rendering of the
/// first 20 bytes of the entropy's SHA-1 digest.
pub fn server_id_from_entropy(entropy: &[u8]) -> (r: String)
    ensures
        r@ == hex_chars_of(sha1_of(entropy@).take(20)),
        r@.len() == 40,
{
    let digest = sha1(entropy);
    let r = crate::text::hex_string(digest.as_slice());
    proof {
        assert(digest@.take(20) =~= digest@);
        crate::text::lemma_hex_chars_len(digest@);
    }
    r
}

/// A fresh server id for the handshake's first phase: 40 hex digits hashed
/// out of fresh entropy.
pub fn new_server_id() -> (r: String)
    ensures
        r@.len() == 40,
        exists|digest: Seq<u8>| digest.len() == 20 && r@ == hex_chars_of(digest),
{
    let entropy = random_bytes_50();
    let r = server_id_from_entropy(entropy.as_slice());
    proof {
        let digest = sha1_of(entropy@).take(20);
        crate::text::lemma_hex_chars_len(digest);
        assert(digest.len() == 20 && r@ == hex_chars_of(digest));
    }
    r
}

/// What one validator's query came back as.
#[derive(Debug)]
pub enum FetchOutcome {
    /// HTTP 200 with a well-formed id: the player's identifier, and the
    /// provider that vouched.
    Success(u128, AuthProvider),
    /// A clean response that does not vouch for the player; carries the
    /// status code.
    Miss(u16),
    /// A transport or decode failure; carries a description for the log.
    Error(String),
}

/// What the handshake's second phase concludes from all validators.
#[derive(Debug)]
pub enum HasJoinedResult {
    /// The first validator that vouched, with the player's identifier.
    Found(u128, AuthProvider),
    /// Nobody vouched and nothing failed: the player is simply not known.
    NotRecognized,
    /// At least one validator failed and none vouched.
    Failed,
}

/// Index of the first successful outcome, or `-1` if none is there.
pub open spec fn first_success(s: Seq<FetchOutcome>) -> int
    decreases s.len(),
{
    if s.len() == 0 {
        -1
    } else if s[0] is Success {
        0
    } else {
        let r = first_success(s.skip(1));
        if r < 0 {
            -1
        } else {
            r + 1
        }
    }
}

proof fn lemma_first_success_char(s: Seq<FetchOutcome>)
    ensures
        first_success(s) == -1 ==> forall|i: int| 0 <= i < s.len() ==> !(#[trigger] s[i] is Success),
        first_success(s) >= 0 ==> {
            &&& first_success(s) < s.len()
            &&& s[first_success(s)] is Success
            &&& forall|i: int| 0 <= i < first_success(s) ==> !(#[trigger] s[i] is Success)
        },
    decreases s.len(),
{
    if s.len() > 0 && !(s[0] is Success) {
        lemma_first_success_char(s.skip(1));
        let r = first_success(s.skip(1));
        if r >= 0 {
            assert(forall|i: int|
                1 <= i < r + 1 ==> s[i] == s.skip(1)[i - 1] && !(#[trigger] s[i] is Success));
        } else {
            assert(forall|i: int|
                1 <= i < s.len() ==> s[i] == s.skip(1)[i - 1] && !(#[trigger] s[i] is Success));
        }
    }
}

/// Classifies the validators' outcomes: the first success wins; with no
/// success, any failure makes the whole phase fail; otherwise the player is
/// not recognized, which is not an error.
pub fn resolve_has_joined(outcomes: Vec<FetchOutcome>) -> (r: HasJoinedResult)
    ensures
        r is Found <==> first_success(outcomes@) >= 0,
        r is Found ==> {
            let fs = outcomes@[first_success(outcomes@)];
            r->Found_0 == fs->Success_0 && r->Found_1@ == fs->Success_1@
        },
        r is Failed <==> first_success(outcomes@) == -1 && exists|i: int|
            0 <= i < outcomes@.len() && (#[trigger] outcomes@[i]) is Error,
        r is NotRecognized <==> first_success(outcomes@) == -1 && forall|i: int|
            0 <= i < outcomes@.len() ==> !((#[trigger] outcomes@[i]) is Error),
{
    proof {
        lemma_first_success_char(outcomes@);
    }
    let mut saw_error: bool = false;
    let mut i: usize = 0;
    while i < outcomes.len()
        invariant
            i <= outcomes@.len(),
            forall|j: int| 0 <= j < i ==> !((#[trigger] outcomes@[j]) is Success),
            saw_error <==> exists|j: int| 0 <= j < i && (#[trigger] outcomes@[j]) is Error,
        decreases outcomes@.len() - i,
    {
        match &outcomes[i] {
            FetchOutcome::Success(uuid, provider) => {
                proof {
                    lemma_first_success_at(outcomes@, i as int);
                }
                return HasJoinedResult::Found(*uuid, provider.clone());
            },
            FetchOutcome::Error(_) => {
                saw_error = true;
            },
            FetchOutcome::Miss(_) => {},
        }
        i = i + 1;
    }
    proof {
        lemma_first_success_char(outcomes@);
        if first_success(outcomes@) >= 0 {
            assert(!(outcomes@[first_success(outcomes@)] is Success));
        }
    }
    if saw_error {
        HasJoinedResult::Failed
    } else {
        HasJoinedResult::NotRecognized
    }
}

/// A success at `k` with none before it is the first success.
proof fn lemma_first_success_at(s: Seq<FetchOutcome>, k: int)
    requires
        0 <= k < s.len(),
        s[k] is Success,
        forall|i: int| 0 <= i < k ==> !(#[trigger] s[i] is Success),
    ensures
        first_success(s) == k,
{
    lemma_first_success_char(s);
    let fs = first_success(s);
    if fs == -1 {
        assert(!(s[k] is Success));
    } else if fs < k {
        assert(!(s[fs] is Success));
    } else if fs > k {
        assert(!(s[k] is Success));
    }
}

/// How the handshake's second phase ends; the HTTP boundary maps each case
/// to its status and body.
#[derive(Debug)]
pub enum VerifyOutcome {
    /// 200 with the server id as the body: the session is open.
    Accepted(String),
    /// 500 "internal verify error": no pending handshake, or the validators
    /// failed.
    Internal,
    /// 400 "failed to verify": no validator vouched.
    NotVerified,
    /// 400 "You're banned!".
    BannedUser,
    /// 400 "second session detected".
    SecondSession,
}

/// A player already has a live session recorded in the manager.
pub open spec fn spec_conflict(v: UManagerV, uuid: u128) -> bool {
    &&& v.registered.contains_key(uuid)
    &&& v.registered[uuid].token is Some
    &&& v.authenticated.contains_key(v.registered[uuid].token.unwrap())
}

/// The profile the handshake writes, up to its creation timestamp.
pub open spec fn handshake_profile_ok(
    info: UserinfoV,
    uuid: u128,
    nickname: Seq<char>,
    provider: AuthProvider,
    sid: Seq<char>,
    ua: Option<Seq<char>>,
) -> bool {
    &&& info.uuid == uuid
    &&& info.nickname == nickname
    &&& info.rank == default_rank()
    &&& info.provider_name == provider.name@
    &&& info.provider_url == provider.url@
    &&& info.token == Some(sid)
    &&& info.version == (if ua is Some {
        ua.unwrap()
    } else {
        default_version()
    })
    &&& !info.banned
}

/// The handshake's second phase, after the pending entry was taken out and
/// the validators answered.
///
/// A failed fetch is internal; an unrecognized player is turned away; a
/// banned player is refused before any session work; otherwise the session
/// opens under the server id, and a stale session recorded for the player is
/// removed first. The single-session rule survives the step.
pub fn verify_finish(
    um: &mut UManager,
    server_id: String,
    nickname: String,
    fetch: HasJoinedResult,
    user_agent: Option<String>,
) -> (r: VerifyOutcome)
    requires
        old(um).inv(),
    ensures
        final(um).inv(),
        !(r is SecondSession),
        fetch is Failed ==> r is Internal && final(um)@ == old(um)@,
        fetch is NotRecognized ==> r is NotVerified && final(um)@ == old(um)@,
        fetch is Found ==> ({
            let uuid = fetch->Found_0;
            let v = old(um)@;
            &&& (v.registered.contains_key(uuid) && v.registered[uuid].banned) ==> r is BannedUser
                && final(um)@ == v
            &&& !(v.registered.contains_key(uuid) && v.registered[uuid].banned) ==> {
                &&& r is Accepted && r->Accepted_0@ == server_id@
                &&& final(um)@.pending == v.pending
                &&& exists|info: UserinfoV|
                    #![auto]
                    handshake_profile_ok(
                        info,
                        uuid,
                        nickname@,
                        fetch->Found_1,
                        server_id@,
                        match user_agent {
                            Some(ua) => Some(ua@),
                            None => None,
                        },
                    ) && final(um)@.registered == spec_insert_user(v.registered, uuid, info)
                        && final(um)@.authenticated == (if spec_conflict(v, uuid) {
                        spec_remove(v, uuid)
                    } else {
                        v.authenticated
                    }).insert(server_id@, uuid)
                &&& final(um)@.authenticated.contains_key(server_id@)
                &&& final(um)@.authenticated[server_id@] == uuid
                &&& !v.registered.contains_key(uuid) ==> {
                    let p = final(um)@.registered[uuid];
                    &&& final(um)@.registered.contains_key(uuid)
                    &&& p.nickname == nickname@
                    &&& p.token == Some(server_id@)
                    &&& !p.banned
                }
                &&& wf(v) ==> wf(final(um)@)
            }
        }),
{
    match fetch {
        HasJoinedResult::Failed => VerifyOutcome::Internal,
        HasJoinedResult::NotRecognized => VerifyOutcome::NotVerified,
        HasJoinedResult::Found(uuid, provider) => {
            if um.is_banned(&uuid) {
                return VerifyOutcome::BannedUser;
            }
            let mut info = Userinfo::default();
            info.uuid = uuid;
            info.nickname = nickname;
            info.token = Some(server_id.clone());
            info.auth_provider = provider;
            match user_agent {
                Some(ua) => {
                    info.version = ua;
                },
                None => {},
            }
            let ghost info_view = info@;
            let info_retry = info.clone();
            match um.insert(uuid, server_id.clone(), info) {
                Ok(()) => VerifyOutcome::Accepted(server_id),
                Err(()) => {
                    um.remove(&uuid);
                    match um.insert(uuid, server_id.clone(), info_retry) {
                        Ok(()) => VerifyOutcome::Accepted(server_id),
                        Err(()) => VerifyOutcome::SecondSession,
                    }
                },
            }
        },
    }
}

/// The token check of the base API route: no token is a bad request, an
/// unknown or banned token is unauthorized, anything else is fine.
pub fn check_auth(um: &UManager, token: &Token) -> (r: Result<&'static str, ApiError>)
    ensures
        token.0 is None ==> r is Err && r->Err_0 is BadRequest,
        token.0 is Some ==> ({
            let chars = token.0.unwrap()@;
            let v = um@;
            &&& !(v.authenticated.contains_key(chars) && v.registered.contains_key(
                v.authenticated[chars],
            )) ==> r is Err && r->Err_0 is Unauthorized
            &&& (v.authenticated.contains_key(chars) && v.registered.contains_key(
                v.authenticated[chars],
            )) ==> {
                &&& v.registered[v.authenticated[chars]].banned ==> r is Err && r->Err_0
                    is Unauthorized
                &&& !v.registered[v.authenticated[chars]].banned ==> r is Ok && r->Ok_0@ == "ok"@
            }
        }),
{
    match &token.0 {
        None => Err(ApiError::BadRequest),
        Some(t) => match um.get(t.as_str()) {
            None => Err(ApiError::Unauthorized),
            Some(user) => {
                if user.banned {
                    Err(ApiError::Unauthorized)
                } else {
                    Ok("ok")
                }
            },
        },
    }
}

} // verus!
