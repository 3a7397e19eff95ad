//! The user manager: three maps and the rules that tie them together.
//!
//! `pending` holds handshakes that were started but not yet verified,
//! `authenticated` is the session index from token to player identifier, and
//! `registered` is the profile store. The well-formedness predicate [`wf`]
//! states the session rule: every session token is recorded in the profile of
//! the player it names, which also forces at most one live token per player.
use vstd::prelude::*;
use vstd::hash_map::{HashMapWithView, StringHashMap};
use crate::users::{UserinfoV, Userinfo, default_rank, default_version, unknown_provider_name};

verus! {

broadcast use vstd::std_specs::hash::group_hash_axioms;

/// Mathematical image of the user manager.
pub struct UManagerV {
    /// Handshake id to nickname.
    pub pending: Map<Seq<char>, Seq<char>>,
    /// Session token to player identifier.
    pub authenticated: Map<Seq<char>, u128>,
    /// Player identifier to profile.
    pub registered: Map<u128, UserinfoV>,
}

/// Every session token points at a registered player whose profile records
/// exactly that token.
pub open spec fn wf(v: UManagerV) -> bool {
    forall|t: Seq<char>| #[trigger]
        v.authenticated.contains_key(t) ==> {
            &&& v.registered.contains_key(v.authenticated[t])
            &&& v.registered[v.authenticated[t]].token == Some(t)
        }
}

/// Well-formedness leaves room for at most one live token per player: two
/// tokens of the same player are the same token.
pub proof fn lemma_single_session(v: UManagerV, t1: Seq<char>, t2: Seq<char>)
    requires
        wf(v),
        v.authenticated.contains_key(t1),
        v.authenticated.contains_key(t2),
        v.authenticated[t1] == v.authenticated[t2],
    ensures
        t1 == t2,
{
}

/// The upsert-merge of a profile: the fields the newcomer authoritatively
/// owns (a non-empty nickname, a named provider, a non-default rank, a
/// present token, a non-default version) override; all others stay.
pub open spec fn merge_v(exist: UserinfoV, new: UserinfoV) -> UserinfoV {
    UserinfoV {
        uuid: exist.uuid,
        nickname: if new.nickname.len() > 0 {
            new.nickname
        } else {
            exist.nickname
        },
        rank: if new.rank != default_rank() {
            new.rank
        } else {
            exist.rank
        },
        last_used: exist.last_used,
        provider_name: if new.provider_name != unknown_provider_name() {
            new.provider_name
        } else {
            exist.provider_name
        },
        provider_url: if new.provider_name != unknown_provider_name() {
            new.provider_url
        } else {
            exist.provider_url
        },
        token: if new.token is Some {
            new.token
        } else {
            exist.token
        },
        version: if new.version != default_version() {
            new.version
        } else {
            exist.version
        },
        banned: exist.banned,
    }
}

/// What the profile store looks like after an upsert-merge.
pub open spec fn spec_insert_user(m: Map<u128, UserinfoV>, uuid: u128, info: UserinfoV) -> Map<
    u128,
    UserinfoV,
> {
    if m.contains_key(uuid) {
        m.insert(uuid, merge_v(m[uuid], info))
    } else {
        m.insert(uuid, info)
    }
}

/// What the profile store looks like after a ban: a known player keeps every
/// other field; an unknown one is registered from the given profile. Either
/// way the flag ends up set.
pub open spec fn spec_ban(m: Map<u128, UserinfoV>, info: UserinfoV) -> Map<u128, UserinfoV> {
    if m.contains_key(info.uuid) {
        m.insert(info.uuid, UserinfoV { banned: true, ..m[info.uuid] })
    } else {
        m.insert(info.uuid, UserinfoV { banned: true, ..info })
    }
}

/// What the profile store looks like after an unban.
pub open spec fn spec_unban(m: Map<u128, UserinfoV>, uuid: u128) -> Map<u128, UserinfoV> {
    if m.contains_key(uuid) {
        m.insert(uuid, UserinfoV { banned: false, ..m[uuid] })
    } else {
        m
    }
}

/// What the session index looks like after a player's session is dropped.
pub open spec fn spec_remove(v: UManagerV, uuid: u128) -> Map<Seq<char>, u128> {
    if v.registered.contains_key(uuid) && v.registered[uuid].token is Some {
        v.authenticated.remove(v.registered[uuid].token.unwrap())
    } else {
        v.authenticated
    }
}

/// A second unban changes nothing: unbanning is idempotent.
pub proof fn lemma_unban_idempotent(m: Map<u128, UserinfoV>, uuid: u128)
    ensures
        spec_unban(spec_unban(m, uuid), uuid) == spec_unban(m, uuid),
{
    if m.contains_key(uuid) {
        assert(spec_unban(spec_unban(m, uuid), uuid) =~= spec_unban(m, uuid));
    }
}

/// A second removal of the same player's session changes nothing: removal is
/// idempotent on the session index.
pub proof fn lemma_remove_idempotent(v: UManagerV, uuid: u128)
    ensures
        spec_remove(UManagerV { authenticated: spec_remove(v, uuid), ..v }, uuid) == spec_remove(
            v,
            uuid,
        ),
{
    let once = spec_remove(v, uuid);
    let v2 = UManagerV { authenticated: once, ..v };
    if v.registered.contains_key(uuid) && v.registered[uuid].token is Some {
        assert(spec_remove(v2, uuid) =~= once);
    }
}

/// Merging the same data twice is the same as merging it once.
pub proof fn lemma_merge_idempotent(exist: UserinfoV, info: UserinfoV)
    ensures
        merge_v(merge_v(exist, info), info) == merge_v(exist, info),
        merge_v(info, info) == info,
{
}

/// Repeating an upsert-merge with identical data leaves the profile store
/// unchanged.
pub proof fn lemma_insert_user_idempotent(m: Map<u128, UserinfoV>, uuid: u128, info: UserinfoV)
    ensures
        spec_insert_user(spec_insert_user(m, uuid, info), uuid, info) == spec_insert_user(
            m,
            uuid,
            info,
        ),
{
    let m1 = spec_insert_user(m, uuid, info);
    if m.contains_key(uuid) {
        lemma_merge_idempotent(m[uuid], info);
        assert(spec_insert_user(m1, uuid, info) =~= m1);
    } else {
        lemma_merge_idempotent(info, info);
        assert(spec_insert_user(m1, uuid, info) =~= m1);
    }
}

/// The user manager. All operations keep [`wf`] intact, under the conditions
/// stated on each.
pub struct UManager {
    pending: StringHashMap<String>,
    authenticated: StringHashMap<u128>,
    registered: HashMapWithView<u128, Userinfo>,
    /// Insertion order of the registered players, for snapshot listings.
    registered_uuids: Vec<u128>,
}

impl View for UManager {
    type V = UManagerV;

    closed spec fn view(&self) -> UManagerV {
        UManagerV {
            pending: Map::new(
                |k: Seq<char>| self.pending@.contains_key(k),
                |k: Seq<char>| self.pending@[k]@,
            ),
            authenticated: self.authenticated@,
            registered: Map::new(
                |u: u128| self.registered@.contains_key(u),
                |u: u128| self.registered@[u]@,
            ),
        }
    }
}

impl UManager {
    /// The ordered key list mirrors the profile store exactly.
    pub closed spec fn inv(&self) -> bool {
        &&& self.registered_uuids@.no_duplicates()
        &&& forall|i: int|
            0 <= i < self.registered_uuids@.len() ==> self.registered@.contains_key(
                #[trigger] self.registered_uuids@[i],
            )
        &&& forall|u: u128| #[trigger]
            self.registered@.contains_key(u) ==> self.registered_uuids@.contains(u)
    }

    /// An empty manager.
    pub fn new() -> (r: Self)
        ensures
            r.inv(),
            r@.pending =~= Map::<Seq<char>, Seq<char>>::empty(),
            r@.authenticated =~= Map::<Seq<char>, u128>::empty(),
            r@.registered =~= Map::<u128, UserinfoV>::empty(),
            wf(r@),
    {
        let r = UManager {
            pending: StringHashMap::new(),
            authenticated: StringHashMap::new(),
            registered: HashMapWithView::new(),
            registered_uuids: Vec::new(),
        };
        proof {
            assert(r@.pending =~= Map::<Seq<char>, Seq<char>>::empty());
            assert(r@.registered =~= Map::<u128, UserinfoV>::empty());
        }
        r
    }

    /// Records a started handshake.
    pub fn pending_insert(&mut self, server_id: String, nickname: String)
        requires
            old(self).inv(),
        ensures
            final(self).inv(),
            final(self)@.pending == old(self)@.pending.insert(server_id@, nickname@),
            final(self)@.authenticated == old(self)@.authenticated,
            final(self)@.registered == old(self)@.registered,
    {
        let ghost nick_view = nickname@;
        self.pending.insert(server_id, nickname);
        proof {
            assert(self@.pending =~= old(self)@.pending.insert(server_id@, nick_view));
            assert(self@.registered =~= old(self)@.registered);
        }
    }

    /// Takes a started handshake out, returning its id and nickname; the
    /// handshake is single-use.
    pub fn pending_remove(&mut self, server_id: &str) -> (r: Option<(String, String)>)
        requires
            old(self).inv(),
        ensures
            final(self).inv(),
            final(self)@.pending == old(self)@.pending.remove(server_id@),
            final(self)@.authenticated == old(self)@.authenticated,
            final(self)@.registered == old(self)@.registered,
            r is Some <==> old(self)@.pending.contains_key(server_id@),
            r is Some ==> r.unwrap().0@ == server_id@ && r.unwrap().1@ == old(
                self,
            )@.pending[server_id@],
    {
        let found: Option<String> = match self.pending.get(server_id) {
            Some(n) => Some(n.clone()),
            None => None,
        };
        match found {
            Some(n) => {
                self.pending.remove(server_id);
                proof {
                    assert(self@.pending =~= old(self)@.pending.remove(server_id@));
                    assert(self@.registered =~= old(self)@.registered);
                }
                Some((server_id.to_owned(), n))
            },
            None => {
                proof {
                    assert(self@.pending =~= old(self)@.pending.remove(server_id@));
                    assert(self@.registered =~= old(self)@.registered);
                }
                None
            },
        }
    }

    /// Upsert-merges a profile, never touching the session index.
    pub fn insert_user(&mut self, uuid: u128, userinfo: Userinfo)
        requires
            old(self).inv(),
        ensures
            final(self).inv(),
            final(self)@.registered == spec_insert_user(old(self)@.registered, uuid, userinfo@),
            final(self)@.pending == old(self)@.pending,
            final(self)@.authenticated == old(self)@.authenticated,
            wf(old(self)@) && userinfo@.token is None ==> wf(final(self)@),
    {
        let existed: bool = self.registered.contains_key(&uuid);
        let merged: Userinfo = if existed {
            let exist = self.registered.get(&uuid).unwrap();
            let mut e = exist.clone();
            let Userinfo { uuid: _, nickname, rank, last_used: _, auth_provider, token, version, banned: _ } =
                userinfo;
            if !nickname.as_str().is_empty() {
                e.nickname = nickname;
            }
            if !auth_provider.is_empty() {
                e.auth_provider = auth_provider;
            }
            if !(rank == "default".to_owned()) {
                e.rank = rank;
            }
            if token.is_some() {
                e.token = token;
            }
            if !(version == "0.1.4+1.20.1".to_owned()) {
                e.version = version;
            }
            proof {
                assert(e@ == merge_v(old(self)@.registered[uuid], userinfo@));
            }
            e
        } else {
            userinfo
        };
        self.registered.insert(uuid, merged);
        if !existed {
            self.registered_uuids.push(uuid);
        }
        proof {
            assert(self@.registered =~= spec_insert_user(old(self)@.registered, uuid, userinfo@));
            assert(self@.pending =~= old(self)@.pending);
            if !existed {
                assert forall|u: u128| #[trigger] self.registered@.contains_key(u) implies self
                    .registered_uuids@.contains(u) by {
                    if u == uuid {
                        assert(self.registered_uuids@.last() == uuid);
                    } else {
                        assert(old(self).registered_uuids@.contains(u));
                        let i = choose|i: int|
                            0 <= i < old(self).registered_uuids@.len() && old(
                                self,
                            ).registered_uuids@[i] == u;
                        assert(self.registered_uuids@[i] == u);
                    }
                }
                assert(!old(self).registered_uuids@.contains(uuid));
            }
        }
    }

    /// Opens a session: inserts the token into the session index and
    /// upsert-merges the profile. Fails exactly when the player already has a
    /// live session, and then changes nothing.
    pub fn insert(&mut self, uuid: u128, token: String, userinfo: Userinfo) -> (r: Result<(), ()>)
        requires
            old(self).inv(),
        ensures
            final(self).inv(),
            r is Err <==> (old(self)@.registered.contains_key(uuid)
                && old(self)@.registered[uuid].token is Some
                && old(self)@.authenticated.contains_key(
                old(self)@.registered[uuid].token.unwrap(),
            )),
            r is Err ==> final(self)@ == old(self)@,
            r is Ok ==> final(self)@.authenticated == old(self)@.authenticated.insert(
                token@,
                uuid,
            ),
            r is Ok ==> final(self)@.registered == spec_insert_user(
                old(self)@.registered,
                uuid,
                userinfo@,
            ),
            final(self)@.pending == old(self)@.pending,
            wf(old(self)@) && userinfo@.token == Some(token@) ==> wf(final(self)@),
    {
        let conflict: bool = match self.registered.get(&uuid) {
            Some(exist) => match &exist.token {
                Some(t) => self.authenticated.contains_key(t.as_str()),
                None => false,
            },
            None => false,
        };
        if conflict {
            proof {
                assert(final(self)@ =~~= old(self)@);
            }
            return Err(());
        }
        self.authenticated.insert(token, uuid);
        self.insert_user(uuid, userinfo);
        proof {
            assert(self@.pending =~= old(self)@.pending);
            if wf(old(self)@) && userinfo@.token == Some(token@) {
                let v = self@;
                let vo = old(self)@;
                assert forall|t: Seq<char>| #[trigger] v.authenticated.contains_key(t) implies {
                    &&& v.registered.contains_key(v.authenticated[t])
                    &&& v.registered[v.authenticated[t]].token == Some(t)
                } by {
                    if t == token@ {
                        assert(v.registered[uuid].token == Some(token@));
                    } else {
                        assert(vo.authenticated.contains_key(t));
                        let u = vo.authenticated[t];
                        if u == uuid {
                            assert(vo.registered[uuid].token == Some(t));
                            assert(false);
                        } else {
                            assert(v.registered[u] == vo.registered[u]);
                        }
                    }
                }
            }
        }
        Ok(())
    }

    /// Looks a profile up by session token.
    pub fn get(&self, token: &str) -> (r: Option<&Userinfo>)
        ensures
            r is Some <==> (self@.authenticated.contains_key(token@)
                && self@.registered.contains_key(self@.authenticated[token@])),
            r is Some ==> r.unwrap()@ == self@.registered[self@.authenticated[token@]],
    {
        match self.authenticated.get(token) {
            Some(uuid) => self.registered.get(uuid),
            None => None,
        }
    }

    /// Looks a profile up by player identifier.
    pub fn get_by_uuid(&self, uuid: &u128) -> (r: Option<&Userinfo>)
        ensures
            r is Some <==> self@.registered.contains_key(*uuid),
            r is Some ==> r.unwrap()@ == self@.registered[*uuid],
    {
        self.registered.get(uuid)
    }

    /// True when the token names a live session.
    pub fn is_authenticated(&self, token: &str) -> (r: bool)
        ensures
            r == self@.authenticated.contains_key(token@),
    {
        self.authenticated.contains_key(token)
    }

    /// True when the player is registered.
    pub fn is_registered(&self, uuid: &u128) -> (r: bool)
        ensures
            r == self@.registered.contains_key(*uuid),
    {
        self.registered.contains_key(uuid)
    }

    /// True when the player is registered and banned; an unknown player is
    /// not banned.
    pub fn is_banned(&self, uuid: &u128) -> (r: bool)
        ensures
            r == (self@.registered.contains_key(*uuid) && self@.registered[*uuid].banned),
    {
        match self.registered.get(uuid) {
            Some(u) => u.banned,
            None => false,
        }
    }

    /// Number of live sessions.
    pub fn count_authenticated(&self) -> (r: usize)
        ensures
            r == self@.authenticated.len(),
    {
        self.authenticated.len()
    }

    /// Marks the player banned, registering the given profile (with the flag
    /// forced on) if the player is unknown. Does not end a live session by
    /// itself.
    pub fn ban(&mut self, banned_user: &Userinfo)
        requires
            old(self).inv(),
        ensures
            final(self).inv(),
            final(self)@.registered == spec_ban(old(self)@.registered, banned_user@),
            final(self)@.registered[banned_user.uuid].banned,
            final(self)@.pending == old(self)@.pending,
            final(self)@.authenticated == old(self)@.authenticated,
            wf(old(self)@) && (old(self)@.registered.contains_key(banned_user.uuid)
                || banned_user@.token is None) ==> wf(final(self)@),
    {
        let uuid = banned_user.uuid;
        let existed: bool = self.registered.contains_key(&uuid);
        if existed {
            let mut e = self.registered.get(&uuid).unwrap().clone();
            e.banned = true;
            self.registered.insert(uuid, e);
        } else {
            let mut e = banned_user.clone();
            e.banned = true;
            self.registered.insert(uuid, e);
            self.registered_uuids.push(uuid);
        }
        proof {
            assert(self@.registered =~= spec_ban(old(self)@.registered, banned_user@));
            assert(self@.pending =~= old(self)@.pending);
            if !existed {
                assert forall|u: u128| #[trigger] self.registered@.contains_key(u) implies self
                    .registered_uuids@.contains(u) by {
                    if u == uuid {
                        assert(self.registered_uuids@.last() == uuid);
                    } else {
                        let i = choose|i: int|
                            0 <= i < old(self).registered_uuids@.len() && old(
                            self,
                        ).registered_uuids@[i] == u;
                        assert(self.registered_uuids@[i] == u);
                    }
                }
                assert(!old(self).registered_uuids@.contains(uuid));
            }
            if wf(old(self)@) {
                let v = self@;
                let vo = old(self)@;
                if vo.registered.contains_key(uuid) || banned_user@.token is None {
                    assert forall|t: Seq<char>| #[trigger] v.authenticated.contains_key(t) implies {
                        &&& v.registered.contains_key(v.authenticated[t])
                        &&& v.registered[v.authenticated[t]].token == Some(t)
                    } by {
                        let u = v.authenticated[t];
                        assert(vo.registered[u].token == Some(t));
                    }
                }
            }
        }
    }

    /// Clears the ban flag; unknown players are left alone.
    pub fn unban(&mut self, uuid: &u128)
        requires
            old(self).inv(),
        ensures
            final(self).inv(),
            final(self)@.registered == spec_unban(old(self)@.registered, *uuid),
            final(self)@.pending == old(self)@.pending,
            final(self)@.authenticated == old(self)@.authenticated,
            wf(old(self)@) ==> wf(final(self)@),
    {
        let existed: bool = self.registered.contains_key(uuid);
        if existed {
            let mut e = self.registered.get(uuid).unwrap().clone();
            e.banned = false;
            self.registered.insert(*uuid, e);
        }
        proof {
            assert(self@.registered =~= spec_unban(old(self)@.registered, *uuid));
            assert(self@.pending =~= old(self)@.pending);
            if wf(old(self)@) {
                let v = self@;
                let vo = old(self)@;
                assert forall|t: Seq<char>| #[trigger] v.authenticated.contains_key(t) implies {
                    &&& v.registered.contains_key(v.authenticated[t])
                    &&& v.registered[v.authenticated[t]].token == Some(t)
                } by {
                    let u = v.authenticated[t];
                    assert(vo.registered[u].token == Some(t));
                }
            }
        }
    }

    /// Ends the player's session: the token recorded in the profile leaves
    /// the session index. The profile itself stays, so running this twice is
    /// the same as running it once.
    pub fn remove(&mut self, uuid: &u128)
        requires
            old(self).inv(),
        ensures
            final(self).inv(),
            final(self)@.authenticated == spec_remove(old(self)@, *uuid),
            final(self)@.pending == old(self)@.pending,
            final(self)@.registered == old(self)@.registered,
            wf(old(self)@) ==> wf(final(self)@),
    {
        let token: Option<String> = match self.registered.get(uuid) {
            Some(u) => match &u.token {
                Some(t) => Some(t.clone()),
                None => None,
            },
            None => None,
        };
        if let Some(t) = token {
            self.authenticated.remove(t.as_str());
        }
        proof {
            assert(self@.registered =~= old(self)@.registered);
            assert(self@.pending =~= old(self)@.pending);
            assert(self@.authenticated =~= spec_remove(old(self)@, *uuid));
        }
    }

    /// A snapshot of every registered profile; each pair is a true entry, and
    /// every entry appears exactly once.
    pub fn get_all_registered(&self) -> (r: Vec<(u128, Userinfo)>)
        requires
            self.inv(),
        ensures
            forall|i: int|
                0 <= i < r@.len() ==> self@.registered.contains_key(#[trigger] r@[i].0)
                    && r@[i].1@ == self@.registered[r@[i].0],
            forall|u: u128| #[trigger]
                self@.registered.contains_key(u) ==> exists|i: int|
                    0 <= i < r@.len() && r@[i].0 == u,
            forall|i: int, j: int| 0 <= i < j < r@.len() ==> r@[i].0 != r@[j].0,
    {
        let mut out: Vec<(u128, Userinfo)> = Vec::new();
        let mut k: usize = 0;
        while k < self.registered_uuids.len()
            invariant
                self.inv(),
                k <= self.registered_uuids@.len(),
                out@.len() == k,
                forall|i: int| 0 <= i < k ==> (#[trigger] out@[i]).0 == self.registered_uuids@[i],
                forall|i: int|
                    0 <= i < k ==> self@.registered.contains_key(#[trigger] out@[i].0)
                        && out@[i].1@ == self@.registered[out@[i].0],
            decreases self.registered_uuids@.len() - k,
        {
            let uuid = self.registered_uuids[k];
            let info = self.registered.get(&uuid).unwrap().clone();
            out.push((uuid, info));
            k = k + 1;
        }
        proof {
            assert forall|u: u128| #[trigger] self@.registered.contains_key(u) implies exists|
                i: int,
            |
                0 <= i < out@.len() && out@[i].0 == u by {
                let i = choose|i: int|
                    0 <= i < self.registered_uuids@.len() && self.registered_uuids@[i] == u;
                assert(out@[i].0 == u);
            }
        }
        out
    }

    /// A snapshot of the session index: every listed pair is a live session,
    /// and every live session is listed. Needs the manager to be well-formed,
    /// since the listing walks the profiles.
    pub fn get_all_authenticated(&self) -> (r: Vec<(String, u128)>)
        requires
            self.inv(),
            wf(self@),
        ensures
            forall|i: int|
                0 <= i < r@.len() ==> self@.authenticated.contains_key(#[trigger] r@[i].0@)
                    && self@.authenticated[r@[i].0@] == r@[i].1,
            forall|t: Seq<char>| #[trigger]
                self@.authenticated.contains_key(t) ==> exists|i: int|
                    0 <= i < r@.len() && r@[i].0@ == t,
    {
        let mut out: Vec<(String, u128)> = Vec::new();
        let mut k: usize = 0;
        while k < self.registered_uuids.len()
            invariant
                self.inv(),
                wf(self@),
                k <= self.registered_uuids@.len(),
                forall|i: int|
                    0 <= i < out@.len() ==> self@.authenticated.contains_key(
                        (#[trigger] out@[i]).0@,
                    ) && self@.authenticated[out@[i].0@] == out@[i].1,
                forall|t: Seq<char>| #[trigger]
                    self@.authenticated.contains_key(t) && self.registered_uuids@.take(
                        k as int,
                    ).contains(self@.authenticated[t]) ==> exists|i: int|
                        0 <= i < out@.len() && out@[i].0@ == t,
            decreases self.registered_uuids@.len() - k,
        {
            let ghost out0 = out@;
            let uuid = self.registered_uuids[k];
            let info = self.registered.get(&uuid).unwrap();
            match &info.token {
                Some(t) => {
                    if self.authenticated.contains_key(t.as_str()) {
                        let who = *self.authenticated.get(t.as_str()).unwrap();
                        if who == uuid {
                            out.push((t.clone(), uuid));
                        }
                    }
                },
                None => {},
            }
            k = k + 1;
            proof {
                assert(out@ == out0 || (out@.len() == out0.len() + 1 && forall|i: int|
                    0 <= i < out0.len() ==> out@[i] == out0[i]));
                assert forall|t: Seq<char>| #[trigger]
                    self@.authenticated.contains_key(t) && self.registered_uuids@.take(
                        k as int,
                    ).contains(self@.authenticated[t]) implies exists|i: int|
                    0 <= i < out@.len() && out@[i].0@ == t by {
                    let u = self@.authenticated[t];
                    assert(self.registered_uuids@.take(k as int) =~= self.registered_uuids@.take(
                        k - 1,
                    ).push(self.registered_uuids@[k - 1]));
                    if self.registered_uuids@.take(k - 1).contains(u) {
                        let i = choose|i: int| 0 <= i < out0.len() && out0[i].0@ == t;
                        assert(out@[i].0@ == t);
                    } else {
                        assert(u == uuid);
                        assert(self@.registered[uuid].token == Some(t));
                        assert(info@.token == Some(t));
                        assert(out@[out@.len() - 1].0@ == t);
                    }
                }
            }
        }
        proof {
            assert forall|t: Seq<char>| #[trigger] self@.authenticated.contains_key(t) implies exists|
                i: int,
            |
                0 <= i < out@.len() && out@[i].0@ == t by {
                let u = self@.authenticated[t];
                assert(self.registered_uuids@.contains(u));
                assert(self.registered_uuids@.take(self.registered_uuids@.len() as int) =~= self
                    .registered_uuids@);
            }
        }
        out
    }
}

} // verus!
