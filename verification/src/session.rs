//! The per-connection session state machine and the state-ping replay store.
//!
//! The connection's runtime (sockets, channels, timers) lives outside the
//! crate; this module makes every protocol decision. Each step takes the
//! decoded or raw frame and returns the actions the runtime must carry out:
//! what to send back, what to broadcast, which subscriptions to start or
//! cancel, and when to run the ban ritual.
use vstd::prelude::*;
use crate::codec::{
    decode_c2s_spec, encode_s2c, encode_s2c_spec, decode_c2s, C2SMessage, C2SMessageV,
    MessageLoadError, S2CMessage, S2CMessageV,
};
use crate::manager::UManager;
use crate::users::Userinfo;
use vstd::hash_map::HashMapWithView;

verus! {

broadcast use vstd::std_specs::hash::group_hash_axioms;

/// The function id the client reserves for state-ping control frames.
pub const STATE_PING_FUNC_ID: u32 = 252645133;

/// Cap on stored state pings per player; additions beyond it are dropped.
pub const MAX_STATE_PINGS: usize = 64;

/// A message placed in a session's mailbox by another task.
#[derive(Debug)]
pub enum SessionMessage {
    /// Forward these bytes to the client.
    Ping(Vec<u8>),
    /// The player was banned; run the ban ritual and end the session.
    Banned,
}

/// Per-player lists of encoded server pings, replayed to new subscribers.
pub struct StatePingStore {
    pings: HashMapWithView<u128, Vec<Vec<u8>>>,
}

impl View for StatePingStore {
    type V = Map<u128, Seq<Seq<u8>>>;

    closed spec fn view(&self) -> Map<u128, Seq<Seq<u8>>> {
        Map::new(
            |u: u128| self.pings@.contains_key(u),
            |u: u128| self.pings@[u].deep_view(),
        )
    }
}

impl StatePingStore {
    /// An empty store.
    pub fn new() -> (r: Self)
        ensures
            r@ =~= Map::<u128, Seq<Seq<u8>>>::empty(),
    {
        let r = StatePingStore { pings: HashMapWithView::new() };
        proof {
            assert(r@ =~~= Map::<u128, Seq<Seq<u8>>>::empty());
        }
        r
    }

    /// Resets the player's list to empty.
    pub fn reset(&mut self, uuid: u128)
        ensures
            final(self)@ == old(self)@.insert(uuid, Seq::<Seq<u8>>::empty()),
    {
        self.pings.insert(uuid, Vec::new());
        proof {
            assert(self@ =~~= old(self)@.insert(uuid, Seq::<Seq<u8>>::empty()));
        }
    }

    /// Appends an encoded ping to the player's list, starting a list if none
    /// is there and dropping the ping once the list is full.
    pub fn push_ping(&mut self, uuid: u128, ping: Vec<u8>)
        ensures
            final(self)@ == old(self)@.insert(uuid, spec_push_ping(old(self)@, uuid, ping@)),
    {
        let ghost ping_view = ping@;
        match self.pings.get(&uuid) {
            Some(v) => {
                if v.len() < MAX_STATE_PINGS {
                    let mut list = v.clone();
                    proof {
                        assert(list.deep_view() =~~= old(self)@[uuid]);
                    }
                    list.push(ping);
                    proof {
                        assert(list.deep_view() =~~= old(self)@[uuid].push(ping_view));
                    }
                    self.pings.insert(uuid, list);
                }
            },
            None => {
                let mut list: Vec<Vec<u8>> = Vec::new();
                list.push(ping);
                proof {
                    assert(list.deep_view() =~~= seq![ping_view]);
                }
                self.pings.insert(uuid, list);
            },
        }
        proof {
            assert(self@ =~~= old(self)@.insert(uuid, spec_push_ping(old(self)@, uuid, ping_view)));
        }
    }

    /// The player's stored pings, oldest first; `None` when no list exists.
    pub fn get_pings(&self, uuid: u128) -> (r: Option<&Vec<Vec<u8>>>)
        ensures
            r is Some <==> self@.contains_key(uuid),
            r is Some ==> r.unwrap().deep_view() == self@[uuid],
    {
        self.pings.get(&uuid)
    }
}

/// The player's list after an append, with the cap applied.
pub open spec fn spec_push_ping(m: Map<u128, Seq<Seq<u8>>>, uuid: u128, ping: Seq<u8>) -> Seq<
    Seq<u8>,
> {
    if m.contains_key(uuid) {
        if m[uuid].len() < MAX_STATE_PINGS {
            m[uuid].push(ping)
        } else {
            m[uuid]
        }
    } else {
        seq![ping]
    }
}

/// The state a running session keeps between frames.
pub struct SessionState {
    /// The authenticated player.
    pub uuid: u128,
    /// Display name, for the runtime's logs.
    pub nickname: String,
    /// Armed by a state-ping control frame: the next normal ping is stored.
    pub next_state_ping: bool,
    /// Players this session has live forwarders for.
    pub subscriptions: Vec<u128>,
}

/// Mathematical image of a session: the subscriptions as a set.
pub struct SessionStateV {
    pub uuid: u128,
    pub nickname: Seq<char>,
    pub next_state_ping: bool,
    pub subscriptions: Set<u128>,
}

impl View for SessionState {
    type V = SessionStateV;

    open spec fn view(&self) -> SessionStateV {
        SessionStateV {
            uuid: self.uuid,
            nickname: self.nickname@,
            next_state_ping: self.next_state_ping,
            subscriptions: self.subscriptions@.to_set(),
        }
    }
}

impl SessionState {
    /// A session just past authentication: no subscriptions, capture disarmed.
    pub fn new(uuid: u128, nickname: String) -> (r: Self)
        ensures
            r@.uuid == uuid,
            r@.nickname == nickname@,
            !r@.next_state_ping,
            r@.subscriptions =~= Set::<u128>::empty(),
            r.subscriptions@.no_duplicates(),
    {
        let r = SessionState { uuid, nickname, next_state_ping: false, subscriptions: Vec::new() };
        proof {
            assert(r.subscriptions@.to_set() =~= Set::<u128>::empty());
        }
        r
    }
}

/// What the runtime must do after a protocol step, in order.
#[derive(Debug)]
pub enum WsAction {
    /// Send these bytes on this session's socket.
    Send(Vec<u8>),
    /// Publish these bytes on this player's broadcast channel.
    Broadcast(Vec<u8>),
    /// Subscribe to this player's channel, spawn the forwarder, and replay
    /// that player's stored state pings after a short delay.
    StartSubscription(u128),
    /// Cancel the forwarder for this player.
    CancelSubscription(u128),
    /// Send the ban toast, pause, then close the connection.
    BanRitual,
}

/// Why a running session ends on the spot.
#[derive(Debug)]
pub enum SessionHalt {
    /// The client sent a token after authentication: a protocol violation.
    TokenReplay,
    /// The frame did not decode as a client message.
    BadFrame(MessageLoadError),
}

/// WebSocket close code asking the client to authenticate again.
pub const CLOSE_REAUTH_CODE: u16 = 4000;

/// WebSocket close code delivered at the end of the ban ritual.
pub const CLOSE_BANNED_CODE: u16 = 4001;

/// Why the authentication step turns a connection away.
#[derive(Debug)]
pub enum AuthModeError {
    /// The first frame did not decode as a client message.
    RecvError(MessageLoadError),
    /// The first frame was not a token, or the token was empty.
    UnauthorizedAction,
    /// The token bytes are not UTF-8.
    ConvertError,
    /// The token names no live session: the runtime closes with the re-auth
    /// code.
    AuthenticationFailure,
    /// The player is banned: the runtime sends the acceptance frame and then
    /// runs the ban ritual. Carries the nickname.
    Banned(String),
}

/// Relies on `String::from_utf8` of std: it succeeds exactly on valid UTF-8
/// and returns its decoding.
#[verifier::external_body]
fn utf8_to_string(bytes: Vec<u8>) -> (r: Option<String>)
    ensures
        r is Some <==> vstd::utf8::valid_utf8(bytes@),
        r is Some ==> r.unwrap()@ == vstd::utf8::decode_utf8(bytes@),
{
    String::from_utf8(bytes).ok()
}

/// The authentication step: exactly one frame decides whether the connection
/// becomes a session.
///
/// A frame that does not decode, is not a token, or holds an empty or
/// non-UTF-8 token is turned away without consulting the manager; a token
/// that names no live session asks for re-authentication; a banned player's
/// token starts the ban ritual; anything else hands back the player's
/// profile.
pub fn authenticate_frame(um: &UManager, frame: &[u8]) -> (r: Result<Userinfo, AuthModeError>)
    ensures
        ({
            let d = decode_c2s_spec(frame@);
            &&& d is Err ==> r is Err && r->Err_0 is RecvError && r->Err_0->RecvError_0@
                == d->Err_0
            &&& d is Ok && !(d->Ok_0 is Token) ==> r is Err && r->Err_0 is UnauthorizedAction
            &&& d is Ok && d->Ok_0 is Token ==> {
                let tok = d->Ok_0->Token_0;
                &&& tok.len() == 0 ==> r is Err && r->Err_0 is UnauthorizedAction
                &&& tok.len() > 0 && !vstd::utf8::valid_utf8(tok) ==> r is Err && r->Err_0
                    is ConvertError
                &&& tok.len() > 0 && vstd::utf8::valid_utf8(tok) ==> {
                    let chars = vstd::utf8::decode_utf8(tok);
                    let v = um@;
                    &&& !(v.authenticated.contains_key(chars) && v.registered.contains_key(
                        v.authenticated[chars],
                    )) ==> r is Err && r->Err_0 is AuthenticationFailure
                    &&& v.authenticated.contains_key(chars) && v.registered.contains_key(
                        v.authenticated[chars],
                    ) ==> {
                        let profile = v.registered[v.authenticated[chars]];
                        &&& profile.banned ==> r is Err && r->Err_0 is Banned
                            && r->Err_0->Banned_0@ == profile.nickname
                        &&& !profile.banned ==> r is Ok && r->Ok_0@ == profile
                    }
                }
            }
        }),
{
    match decode_c2s(frame) {
        Err(e) => Err(AuthModeError::RecvError(e)),
        Ok(msg) => match msg {
            C2SMessage::Token(bytes) => {
                if bytes.len() == 0 {
                    return Err(AuthModeError::UnauthorizedAction);
                }
                match utf8_to_string(bytes) {
                    None => Err(AuthModeError::ConvertError),
                    Some(token) => match um.get(token.as_str()) {
                        None => Err(AuthModeError::AuthenticationFailure),
                        Some(user) => {
                            if user.banned {
                                Err(AuthModeError::Banned(user.nickname.clone()))
                            } else {
                                Ok(user.clone())
                            }
                        },
                    },
                }
            },
            _ => Err(AuthModeError::UnauthorizedAction),
        },
    }
}

/// Holds of the action list for a normal ping: the encoded server ping goes
/// back to the sender exactly when echo is set, and is broadcast either way.
pub open spec fn ping_actions(s2c: Seq<u8>, echo: bool, acts: Seq<WsAction>) -> bool {
    if echo {
        &&& acts.len() == 2
        &&& acts[0] is Send && acts[0]->Send_0@ == s2c
        &&& acts[1] is Broadcast && acts[1]->Broadcast_0@ == s2c
    } else {
        &&& acts.len() == 1
        &&& acts[0] is Broadcast && acts[0]->Broadcast_0@ == s2c
    }
}

/// One step of the running loop on a client frame.
///
/// Every outgoing or broadcast ping is exactly the encoding of the server
/// ping that carries this session's player, the client's function id, echo
/// flag and payload; a subscribe or unsubscribe naming the session's own
/// player is silently ignored.
pub fn handle_client_frame(
    sess: &mut SessionState,
    store: &mut StatePingStore,
    frame: &[u8],
) -> (r: Result<Vec<WsAction>, SessionHalt>)
    requires
        old(sess).subscriptions@.no_duplicates(),
        !old(sess)@.subscriptions.contains(old(sess)@.uuid),
    ensures
        final(sess).subscriptions@.no_duplicates(),
        !final(sess)@.subscriptions.contains(final(sess)@.uuid),
        final(sess)@.uuid == old(sess)@.uuid,
        final(sess)@.nickname == old(sess)@.nickname,
        ({
            let d = decode_c2s_spec(frame@);
            &&& d is Err ==> r is Err && r->Err_0 is BadFrame && r->Err_0->BadFrame_0@ == d->Err_0
                && final(sess)@ == old(sess)@ && final(store)@ == old(store)@
            &&& d is Ok ==> match d->Ok_0 {
                C2SMessageV::Token(_) => r is Err && r->Err_0 is TokenReplay && final(sess)@ == old(sess)@ && final(store)@ == old(store)@,
                C2SMessageV::Ping(f, e, p) => r is Ok && (if f != STATE_PING_FUNC_ID {
                    let s2c = encode_s2c_spec(
                        S2CMessageV::Ping(old(sess)@.uuid, f, e, p),
                    );
                    &&& ping_actions(s2c, e, r->Ok_0@)
                    &&& final(store)@ == (if old(sess)@.next_state_ping {
                        old(store)@.insert(
                            old(sess)@.uuid,
                            spec_push_ping(old(store)@, old(sess)@.uuid, s2c),
                        )
                    } else {
                        old(store)@
                    })
                    &&& final(sess)@ == SessionStateV { next_state_ping: false, ..old(sess)@ }
                } else {
                    &&& r->Ok_0@.len() == 0
                    &&& (p.len() >= 2 && p[1] == 0 ==> final(store)@ == old(store)@.insert(
                        old(sess)@.uuid,
                        Seq::<Seq<u8>>::empty(),
                    ) && final(sess)@ == old(sess)@)
                    &&& (p.len() >= 2 && p[1] == 1 ==> final(store)@ == old(store)@ && final(sess)@ == SessionStateV {
                        next_state_ping: !old(sess)@.next_state_ping,
                        ..old(sess)@
                    })
                    &&& (!(p.len() >= 2 && (p[1] == 0 || p[1] == 1)) ==> final(store)@ == old(store)@ && final(sess)@ == old(sess)@)
                }),
                C2SMessageV::Sub(u) => r is Ok && final(store)@ == old(store)@ && (if u == old(sess)@.uuid {
                    r->Ok_0@.len() == 0 && final(sess)@ == old(sess)@
                } else {
                    &&& r->Ok_0@.len() == 1
                    &&& r->Ok_0@[0] is StartSubscription && r->Ok_0@[0]->StartSubscription_0 == u
                    &&& final(sess)@ == SessionStateV {
                        subscriptions: old(sess)@.subscriptions.insert(u),
                        ..old(sess)@
                    }
                }),
                C2SMessageV::Unsub(u) => r is Ok && final(store)@ == old(store)@ && (if old(sess)@.subscriptions.contains(u) {
                    &&& r->Ok_0@.len() == 1
                    &&& r->Ok_0@[0] is CancelSubscription && r->Ok_0@[0]->CancelSubscription_0
                        == u
                    &&& final(sess)@ == SessionStateV {
                        subscriptions: old(sess)@.subscriptions.remove(u),
                        ..old(sess)@
                    }
                } else {
                    r->Ok_0@.len() == 0 && final(sess)@ == old(sess)@
                }),
            }
        }),
{
    let msg = match decode_c2s(frame) {
        Ok(m) => m,
        Err(e) => {
            return Err(SessionHalt::BadFrame(e));
        },
    };
    match msg {
        C2SMessage::Token(_) => Err(SessionHalt::TokenReplay),
        C2SMessage::Ping(f, e, p) => {
            let mut acts: Vec<WsAction> = Vec::new();
            if f != STATE_PING_FUNC_ID {
                let s2c = encode_s2c(&S2CMessage::Ping(sess.uuid, f, e, p));
                if sess.next_state_ping {
                    store.push_ping(sess.uuid, s2c.clone());
                    sess.next_state_ping = false;
                }
                if e {
                    acts.push(WsAction::Send(s2c.clone()));
                }
                acts.push(WsAction::Broadcast(s2c));
                proof {
                    if !old(sess)@.next_state_ping {
                        assert(final(store)@ =~~= old(store)@);
                    }
                }
            } else {
                if p.len() >= 2 {
                    let b = p[1];
                    if b == 0 {
                        store.reset(sess.uuid);
                    } else if b == 1 {
                        sess.next_state_ping = !sess.next_state_ping;
                    }
                }
            }
            Ok(acts)
        },
        C2SMessage::Sub(u) => {
            let mut acts: Vec<WsAction> = Vec::new();
            if u != sess.uuid {
                if !contains_u128(&sess.subscriptions, u) {
                    sess.subscriptions.push(u);
                    proof {
                        let now = sess.subscriptions@;
                        let before = old(sess).subscriptions@;
                        assert forall|y: u128| now.contains(y) implies before.contains(y) || y
                            == u by {
                            let j = choose|j: int| 0 <= j < now.len() && now[j] == y;
                            if j < now.len() - 1 {
                                assert(before[j] == y);
                            }
                        }
                        assert forall|y: u128| before.contains(y) implies now.contains(y) by {
                            let j = choose|j: int| 0 <= j < before.len() && before[j] == y;
                            assert(now[j] == y);
                        }
                        assert(now[now.len() - 1] == u);
                        assert(sess.subscriptions@.to_set() =~= old(sess)@.subscriptions.insert(
                            u,
                        ));
                    }
                } else {
                    proof {
                        assert(sess.subscriptions@.to_set() =~= old(sess)@.subscriptions.insert(
                            u,
                        ));
                    }
                }
                acts.push(WsAction::StartSubscription(u));
            }
            Ok(acts)
        },
        C2SMessage::Unsub(u) => {
            let mut acts: Vec<WsAction> = Vec::new();
            match index_of_u128(&sess.subscriptions, u) {
                Some(i) => {
                    let ghost before = sess.subscriptions@;
                    sess.subscriptions.swap_remove(i);
                    proof {
                        lemma_swap_remove_set(before, i as int);
                        assert(sess.subscriptions@.to_set() =~= old(sess)@.subscriptions.remove(
                            u,
                        ));
                    }
                    acts.push(WsAction::CancelSubscription(u));
                },
                None => {
                    proof {
                        assert(!old(sess)@.subscriptions.contains(u));
                    }
                },
            }
            Ok(acts)
        },
    }
}

/// True when the vector holds the value.
fn contains_u128(v: &Vec<u128>, x: u128) -> (r: bool)
    ensures
        r == v@.contains(x),
{
    let mut i: usize = 0;
    while i < v.len()
        invariant
            i <= v@.len(),
            forall|j: int| 0 <= j < i ==> v@[j] != x,
        decreases v@.len() - i,
    {
        if v[i] == x {
            return true;
        }
        i = i + 1;
    }
    false
}

/// The index of the value, if it is there.
fn index_of_u128(v: &Vec<u128>, x: u128) -> (r: Option<usize>)
    ensures
        r is Some <==> v@.contains(x),
        r is Some ==> 0 <= r.unwrap() < v@.len() && v@[r.unwrap() as int] == x,
{
    let mut i: usize = 0;
    while i < v.len()
        invariant
            i <= v@.len(),
            forall|j: int| 0 <= j < i ==> v@[j] != x,
        decreases v@.len() - i,
    {
        if v[i] == x {
            return Some(i);
        }
        i = i + 1;
    }
    None
}

/// Removing the element at `i` by a swap with the last keeps exactly the
/// other elements, when no element repeats.
proof fn lemma_swap_remove_set(s: Seq<u128>, i: int)
    requires
        s.no_duplicates(),
        0 <= i < s.len(),
    ensures
        s.update(i, s.last()).drop_last().to_set() =~= s.to_set().remove(s[i]),
        s.update(i, s.last()).drop_last().no_duplicates(),
{
    let x = s[i];
    let t = s.update(i, s.last()).drop_last();
    assert forall|y: u128| t.to_set().contains(y) implies s.to_set().remove(x).contains(y) by {
        let j = choose|j: int| 0 <= j < t.len() && t[j] == y;
        if j == i {
            assert(s[s.len() - 1] == y);
            assert(y != x || i == s.len() - 1);
            assert(s.contains(y));
            if y == x {
                assert(s[i] == s[s.len() - 1] && i < s.len() - 1);
            }
        } else {
            assert(s[j] == y && j != i);
            assert(y != x);
        }
    }
    assert forall|y: u128| s.to_set().remove(x).contains(y) implies t.to_set().contains(y) by {
        let j = choose|j: int| 0 <= j < s.len() && s[j] == y;
        assert(j != i);
        if j == s.len() - 1 {
            if i < s.len() - 1 {
                assert(t[i] == y);
            }
        } else {
            assert(t[j] == y);
        }
    }
    assert forall|a: int, b: int| 0 <= a < b < t.len() implies t[a] != t[b] by {
        if a == i {
            assert(t[a] == s[s.len() - 1] && t[b] == s[b]);
        } else if b == i {
            assert(t[b] == s[s.len() - 1] && t[a] == s[a]);
        } else {
            assert(t[a] == s[a] && t[b] == s[b]);
        }
    }
}

/// One step of the running loop on a mailbox message: a forwarded ping goes
/// to the client; a ban notice triggers the ritual and ends the loop. The
/// boolean says whether the session keeps running.
pub fn handle_session_message(msg: SessionMessage) -> (r: (Vec<WsAction>, bool))
    ensures
        msg is Ping ==> r.1 && r.0@.len() == 1 && r.0@[0] is Send && r.0@[0]->Send_0@
            == msg->Ping_0@,
        msg is Banned ==> !r.1 && r.0@.len() == 1 && r.0@[0] is BanRitual,
{
    let mut acts: Vec<WsAction> = Vec::new();
    match msg {
        SessionMessage::Ping(bytes) => {
            acts.push(WsAction::Send(bytes));
            (acts, true)
        },
        SessionMessage::Banned => {
            acts.push(WsAction::BanRitual);
            (acts, false)
        },
    }
}

/// The toast title of the ban ritual: the UTF-8 bytes of "You're banned!".
pub open spec fn ban_toast_title() -> Seq<u8> {
    seq![89u8, 111u8, 117u8, 39u8, 114u8, 101u8, 32u8, 98u8, 97u8, 110u8, 110u8, 101u8, 100u8, 33u8]
}

/// The first frame of the ban ritual: a toast of severity 2 titled
/// "You're banned!", with no body.
pub fn ban_toast_frame() -> (r: Vec<u8>)
    ensures
        r@ == encode_s2c_spec(S2CMessageV::Toast(2, ban_toast_title(), None)),
{
    let title: Vec<u8> = vec![89u8, 111u8, 117u8, 39u8, 114u8, 101u8, 32u8, 98u8, 97u8, 110u8, 110u8, 101u8, 100u8, 33u8];
    proof {
        assert(title@ =~= ban_toast_title());
    }
    encode_s2c(&S2CMessage::Toast(2, title, None))
}

/// The acceptance frame sent after a good token.
pub fn auth_frame() -> (r: Vec<u8>)
    ensures
        r@ == encode_s2c_spec(S2CMessageV::Auth),
{
    encode_s2c(&S2CMessage::Auth)
}

} // verus!
