//! Player profiles and the user manager: pending handshakes, the token
//! session index, the registered profile store, and the ban flags.
//!
//! The manager upholds the single-session rule: at any time at most one
//! token in the session index points at a given player, and that token is
//! recorded in the player's profile.
use vstd::prelude::*;
use vstd::string::StringExecFns;

verus! {

/// An external session validator: a display name and the query URL.
#[derive(Debug, PartialEq)]
pub struct AuthProvider {
    pub name: String,
    pub url: String,
}

/// The configured list of validators, queried in parallel.
#[derive(Debug, PartialEq)]
pub struct AuthProviders(pub Vec<AuthProvider>);

/// The name a profile carries before any validator has vouched for it.
pub open spec fn unknown_provider_name() -> Seq<char> {
    "Unknown"@
}

/// Mathematical image of a validator entry.
pub struct AuthProviderV {
    pub name: Seq<char>,
    pub url: Seq<char>,
}

impl View for AuthProvider {
    type V = AuthProviderV;

    open spec fn view(&self) -> AuthProviderV {
        AuthProviderV { name: self.name@, url: self.url@ }
    }
}

impl AuthProvider {
    /// A provider that stands for "no validator": the placeholder name and an
    /// empty URL.
    pub open spec fn spec_is_empty(&self) -> bool {
        self.name@ == unknown_provider_name()
    }

    /// True on the placeholder provider that no validator has filled in.
    pub fn is_empty(&self) -> (r: bool)
        ensures
            r == self.spec_is_empty(),
    {
        self.name == "Unknown".to_owned()
    }
}

impl Clone for AuthProvider {
    fn clone(&self) -> (r: Self)
        ensures
            r == *self,
    {
        AuthProvider { name: self.name.clone(), url: self.url.clone() }
    }
}

impl Default for AuthProvider {
    /// The placeholder provider.
    fn default() -> (r: Self)
        ensures
            r.name@ == unknown_provider_name(),
            r.url@ == Seq::<char>::empty(),
    {
        AuthProvider { name: "Unknown".to_owned(), url: String::new() }
    }
}

/// The two validators configured out of the box: Mojang and Ely.by.
pub fn default_authproviders() -> (r: AuthProviders)
    ensures
        r.0@.len() == 2,
        r.0@[0].name@ == "Mojang"@,
        r.0@[0].url@ == "https://sessionserver.mojang.com/session/minecraft/hasJoined"@,
        r.0@[1].name@ == "ElyBy"@,
        r.0@[1].url@ == "http://minecraft.ely.by/session/hasJoined"@,
{
    let mut v: Vec<AuthProvider> = Vec::new();
    v.push(
        AuthProvider {
            name: "Mojang".to_owned(),
            url: "https://sessionserver.mojang.com/session/minecraft/hasJoined".to_owned(),
        },
    );
    v.push(
        AuthProvider {
            name: "ElyBy".to_owned(),
            url: "http://minecraft.ely.by/session/hasJoined".to_owned(),
        },
    );
    AuthProviders(v)
}

/// The built-in validator kinds of the older handshake path.
#[derive(Debug, Clone, PartialEq, Eq)]
pub enum AuthSystem {
    Internal,
    ElyBy,
    Mojang,
}

impl AuthSystem {
    /// The query URL of an external validator. The internal kind has none.
    pub fn get_url(&self) -> (r: String)
        requires
            !(self is Internal),
        ensures
            self is ElyBy ==> r@ == "http://minecraft.ely.by/session/hasJoined"@,
            self is Mojang ==> r@ == "https://sessionserver.mojang.com/session/minecraft/hasJoined"@,
    {
        match self {
            AuthSystem::Internal => String::new(),
            AuthSystem::ElyBy => "http://minecraft.ely.by/session/hasJoined".to_owned(),
            AuthSystem::Mojang => "https://sessionserver.mojang.com/session/minecraft/hasJoined".to_owned(),
        }
    }

    /// The lower-case name of the validator kind.
    pub fn name_string(&self) -> (r: String)
        ensures
            self is Internal ==> r@ == "internal"@,
            self is ElyBy ==> r@ == "elyby"@,
            self is Mojang ==> r@ == "mojang"@,
    {
        match self {
            AuthSystem::Internal => "internal".to_owned(),
            AuthSystem::ElyBy => "elyby".to_owned(),
            AuthSystem::Mojang => "mojang".to_owned(),
        }
    }
}

/// Extra per-player settings from the configuration file: a name, a ban
/// flag, and the cosmetic badge rows.
#[derive(Debug, Clone, PartialEq)]
pub struct AdvancedUsers {
    pub username: String,
    pub banned: bool,
    pub special: [u8; 6],
    pub pride: [u8; 25],
}

/// The rank a fresh profile carries.
pub open spec fn default_rank() -> Seq<char> {
    "default"@
}

/// The client version a fresh profile carries.
pub open spec fn default_version() -> Seq<char> {
    "0.1.4+1.20.1"@
}

/// A player profile, keyed by the player's 128-bit identifier.
#[derive(Debug)]
pub struct Userinfo {
    pub uuid: u128,
    pub nickname: String,
    pub rank: String,
    pub last_used: String,
    pub auth_provider: AuthProvider,
    /// The current session token; `None` when no session was ever opened.
    pub token: Option<String>,
    pub version: String,
    pub banned: bool,
}

/// Mathematical image of a profile.
pub struct UserinfoV {
    pub uuid: u128,
    pub nickname: Seq<char>,
    pub rank: Seq<char>,
    pub last_used: Seq<char>,
    pub provider_name: Seq<char>,
    pub provider_url: Seq<char>,
    pub token: Option<Seq<char>>,
    pub version: Seq<char>,
    pub banned: bool,
}

impl View for Userinfo {
    type V = UserinfoV;

    open spec fn view(&self) -> UserinfoV {
        UserinfoV {
            uuid: self.uuid,
            nickname: self.nickname@,
            rank: self.rank@,
            last_used: self.last_used@,
            provider_name: self.auth_provider.name@,
            provider_url: self.auth_provider.url@,
            token: match self.token {
                Some(t) => Some(t@),
                None => None,
            },
            version: self.version@,
            banned: self.banned,
        }
    }
}

impl Clone for Userinfo {
    fn clone(&self) -> (r: Self)
        ensures
            r == *self,
    {
        Userinfo {
            uuid: self.uuid,
            nickname: self.nickname.clone(),
            rank: self.rank.clone(),
            last_used: self.last_used.clone(),
            auth_provider: self.auth_provider.clone(),
            token: match &self.token {
                Some(t) => Some(t.clone()),
                None => None,
            },
            version: self.version.clone(),
            banned: self.banned,
        }
    }
}

/// Relies on chrono's `Utc::now` and `to_rfc3339_opts`: the moment of the
/// call rendered as an RFC 3339 timestamp with millisecond precision.
/// Nothing is promised of the result, since it depends on the clock.
#[verifier::external_body]
fn now_rfc3339() -> String {
    chrono::Utc::now().to_rfc3339_opts(chrono::SecondsFormat::Millis, true)
}

impl Default for Userinfo {
    /// A blank profile: identifier zero, empty nickname, the default rank and
    /// version, no provider, no token, not banned. The creation timestamp is
    /// the clock's, so nothing is said of it.
    fn default() -> (r: Self)
        ensures
            r.uuid == 0,
            r@.nickname == Seq::<char>::empty(),
            r@.rank == default_rank(),
            r@.provider_name == unknown_provider_name(),
            r@.provider_url == Seq::<char>::empty(),
            r@.token is None,
            r@.version == default_version(),
            !r.banned,
    {
        Userinfo {
            uuid: 0,
            nickname: String::new(),
            rank: "default".to_owned(),
            last_used: now_rfc3339(),
            auth_provider: AuthProvider::default(),
            token: None,
            version: "0.1.4+1.20.1".to_owned(),
            banned: false,
        }
    }
}

} // verus!
