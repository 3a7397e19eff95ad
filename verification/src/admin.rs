//! The runtime configuration and the admin-token-gated frame injection.
//!
//! An admin call carries a `token` header; it is compared byte for byte with
//! the configured token. The raw-injection bodies arrive as hex text and are
//! decoded here; the caller only moves the decoded bytes to a mailbox or a
//! broadcast channel.
use vstd::prelude::*;
use crate::auth::Token;
use crate::errors::ApiError;
use crate::hex_decode;
use crate::hex_decode_spec;
use crate::users::{AdvancedUsers, AuthProviders};

verus! {

/// The message-of-the-day section of the configuration.
#[derive(Debug, Clone, PartialEq)]
pub struct CMotd {
    pub display_server_info: bool,
    pub custom_text: String,
    pub text_uptime: String,
    pub text_authclients: String,
    pub draw_indent: bool,
}

/// The avatar limits section of the configuration.
#[derive(Debug, Clone, PartialEq)]
pub struct Limitations {
    pub max_avatar_size: u64,
    pub max_avatars: u64,
}

/// The runtime configuration; parsing the file and watching it for changes
/// happen outside the crate.
#[derive(Debug, PartialEq)]
pub struct Config {
    pub listen: String,
    /// The admin token; admin calls are refused while it is absent.
    pub token: Option<String>,
    pub assets_updater_enabled: bool,
    pub metrics_enabled: bool,
    pub motd: CMotd,
    pub auth_providers: AuthProviders,
    pub limitations: Limitations,
    pub mc_folder: String,
    pub advanced_users: Vec<(u128, AdvancedUsers)>,
}

impl Config {
    /// What the admin gate answers, as a function of the two tokens: locked
    /// while no admin token is configured, unauthorized on a missing or
    /// different header, and accepted exactly on the configured token.
    pub open spec fn verify_token_spec(&self, suspicious: &Token) -> Result<(), ApiError> {
        match self.token {
            None => Err(ApiError::Locked),
            Some(token) => match suspicious.0 {
                None => Err(ApiError::Unauthorized),
                Some(given) => if token@ == given@ {
                    Ok(())
                } else {
                    Err(ApiError::Unauthorized)
                },
            },
        }
    }

    /// Gate of every admin call: accepts exactly the configured token.
    pub fn verify_token(&self, suspicious: &Token) -> (r: Result<(), ApiError>)
        ensures
            r == self.verify_token_spec(suspicious),
    {
        match &self.token {
            None => Err(ApiError::Locked),
            Some(token) => match &suspicious.0 {
                None => Err(ApiError::Unauthorized),
                Some(given) => {
                    if *token == *given {
                        Ok(())
                    } else {
                        Err(ApiError::Unauthorized)
                    }
                },
            },
        }
    }
}

/// Where a raw admin frame goes.
#[derive(Debug, PartialEq, Eq)]
pub enum RawTarget {
    /// Into the mailbox of this player's session.
    One(u128),
    /// Into the mailbox of every attached session.
    All,
}

/// Checks an injection request for a session mailbox: the admin token must
/// pass, the body must decode as hex, and exactly one of the `uuid` and `all`
/// keys must be present — faulted in that order, so a body that is not hex
/// answers for itself even when the keys are wrong too. What comes back is
/// the payload and its target.
pub fn prepare_raw(
    config: &Config,
    token: &Token,
    uuid: Option<u128>,
    all: bool,
    body: &[u8],
) -> (r: Result<(Vec<u8>, RawTarget), ApiError>)
    ensures
        config.verify_token_spec(token) is Err ==> r is Err && r->Err_0
            == config.verify_token_spec(token)->Err_0,
        config.verify_token_spec(token) is Ok ==> {
            &&& hex_decode_spec(body@) is None ==> r is Err && r->Err_0 is NotAcceptable
            &&& hex_decode_spec(body@) is Some ==> {
                &&& (uuid is Some) == all ==> r is Err && r->Err_0 is BadRequest
                &&& (uuid is Some) != all ==> {
                    &&& r is Ok
                    &&& r->Ok_0.0@ == hex_decode_spec(body@).unwrap()
                    &&& uuid is Some ==> r->Ok_0.1 == RawTarget::One(uuid.unwrap())
                    &&& uuid is None ==> r->Ok_0.1 == RawTarget::All
                }
            }
        },
{
    match config.verify_token(token) {
        Err(e) => {
            return Err(e);
        },
        Ok(()) => {},
    }
    let payload = match hex_decode(body) {
        Ok(p) => p,
        Err(()) => {
            return Err(ApiError::NotAcceptable);
        },
    };
    if (uuid.is_some() && all) || (uuid.is_none() && !all) {
        return Err(ApiError::BadRequest);
    }
    match uuid {
        Some(u) => Ok((payload, RawTarget::One(u))),
        None => Ok((payload, RawTarget::All)),
    }
}

/// Checks an injection request for a subscriber channel: the admin token must
/// pass, the `uuid` key must be present, and the body must decode as hex.
pub fn prepare_sub_raw(
    config: &Config,
    token: &Token,
    uuid: Option<u128>,
    body: &[u8],
) -> (r: Result<(Vec<u8>, u128), ApiError>)
    ensures
        config.verify_token_spec(token) is Err ==> r is Err && r->Err_0
            == config.verify_token_spec(token)->Err_0,
        config.verify_token_spec(token) is Ok ==> {
            &&& hex_decode_spec(body@) is None ==> r is Err && r->Err_0 is NotAcceptable
            &&& hex_decode_spec(body@) is Some ==> {
                &&& uuid is None ==> r is Err && r->Err_0 is NotFound
                &&& uuid is Some ==> r is Ok && r->Ok_0.0@ == hex_decode_spec(body@).unwrap()
                    && r->Ok_0.1 == uuid.unwrap()
            }
        },
{
    match config.verify_token(token) {
        Err(e) => {
            return Err(e);
        },
        Ok(()) => {},
    }
    let payload = match hex_decode(body) {
        Ok(p) => p,
        Err(()) => {
            return Err(ApiError::NotAcceptable);
        },
    };
    match uuid {
        Some(u) => Ok((payload, u)),
        None => Err(ApiError::NotFound),
    }
}

} // verus!

