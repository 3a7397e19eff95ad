//! Mirroring the host process's ban list and the configuration's per-player
//! settings into the user manager.
//!
//! A watcher outside the crate reads and parses the files; the decisions are
//! here: which players a changed ban list bans and unbans, and how the
//! configured per-player settings land in the profile store.
use vstd::prelude::*;
use crate::manager::{merge_v, UManager};
use crate::users::{default_rank, default_version, unknown_provider_name, AdvancedUsers, Userinfo, UserinfoV};

verus! {

/// One entry of the host process's ban list.
#[derive(Debug)]
pub struct BannedPlayer {
    pub uuid: u128,
    pub name: String,
}

/// Mathematical image of a ban-list entry.
pub struct BannedPlayerV {
    pub uuid: u128,
    pub name: Seq<char>,
}

impl View for BannedPlayer {
    type V = BannedPlayerV;

    open spec fn view(&self) -> BannedPlayerV {
        BannedPlayerV { uuid: self.uuid, name: self.name@ }
    }
}

impl DeepView for BannedPlayer {
    type V = BannedPlayerV;

    open spec fn deep_view(&self) -> BannedPlayerV {
        self@
    }
}

impl Clone for BannedPlayer {
    fn clone(&self) -> (r: Self)
        ensures
            r == *self,
    {
        BannedPlayer { uuid: self.uuid, name: self.name.clone() }
    }
}

impl BannedPlayer {
    /// The profile a ban-list entry registers: the name, the flag, defaults
    /// elsewhere.
    pub fn into_userinfo(&self) -> (r: Userinfo)
        ensures
            r@.uuid == self.uuid,
            r@.nickname == self.name@,
            r@.banned,
            r@.token is None,
    {
        let mut info = Userinfo::default();
        info.uuid = self.uuid;
        info.nickname = self.name.clone();
        info.banned = true;
        info
    }
}

/// A sequence of entries holds a matching entry.
pub open spec fn holds_entry(s: Seq<BannedPlayerV>, p: BannedPlayerV) -> bool {
    exists|j: int| 0 <= j < s.len() && s[j] == p
}

/// True when some entry of `list` equals `p` in identifier and name.
fn list_contains(list: &Vec<BannedPlayer>, p: &BannedPlayer) -> (r: bool)
    ensures
        r == holds_entry(list.deep_view(), p@),
{
    let mut i: usize = 0;
    while i < list.len()
        invariant
            i <= list@.len(),
            forall|j: int| 0 <= j < i ==> list.deep_view()[j] != p@,
        decreases list@.len() - i,
    {
        if list[i].uuid == p.uuid && list[i].name == p.name {
            proof {
                assert(list.deep_view()[i as int] == p@);
            }
            return true;
        }
        i = i + 1;
    }
    false
}

/// Splits a ban-list change: entries of `new_list` absent from `old_list`
/// are to be banned, entries of `old_list` absent from `new_list` are to be
/// unbanned.
pub fn diff_bans(old_list: &Vec<BannedPlayer>, new_list: &Vec<BannedPlayer>) -> (r: (
    Vec<BannedPlayer>,
    Vec<BannedPlayer>,
))
    ensures
        forall|i: int|
            0 <= i < r.0.deep_view().len() ==> holds_entry(
                new_list.deep_view(),
                #[trigger] r.0.deep_view()[i],
            ) && !holds_entry(old_list.deep_view(), r.0.deep_view()[i]),
        forall|i: int|
            0 <= i < new_list.deep_view().len() ==> (!holds_entry(
                old_list.deep_view(),
                #[trigger] new_list.deep_view()[i],
            ) ==> holds_entry(r.0.deep_view(), new_list.deep_view()[i])),
        forall|i: int|
            0 <= i < r.1.deep_view().len() ==> holds_entry(
                old_list.deep_view(),
                #[trigger] r.1.deep_view()[i],
            ) && !holds_entry(new_list.deep_view(), r.1.deep_view()[i]),
        forall|i: int|
            0 <= i < old_list.deep_view().len() ==> (!holds_entry(
                new_list.deep_view(),
                #[trigger] old_list.deep_view()[i],
            ) ==> holds_entry(r.1.deep_view(), old_list.deep_view()[i])),
{
    let mut to_ban: Vec<BannedPlayer> = Vec::new();
    let mut i: usize = 0;
    while i < new_list.len()
        invariant
            i <= new_list@.len(),
            forall|k: int|
                0 <= k < to_ban.deep_view().len() ==> holds_entry(
                    new_list.deep_view(),
                    #[trigger] to_ban.deep_view()[k],
                ) && !holds_entry(old_list.deep_view(), to_ban.deep_view()[k]),
            forall|k: int|
                0 <= k < i ==> (!holds_entry(
                    old_list.deep_view(),
                    #[trigger] new_list.deep_view()[k],
                ) ==> holds_entry(to_ban.deep_view(), new_list.deep_view()[k])),
        decreases new_list@.len() - i,
    {
        let ghost before = to_ban.deep_view();
        if !list_contains(old_list, &new_list[i]) {
            let entry = new_list[i].clone();
            to_ban.push(entry);
            proof {
                assert(to_ban.deep_view()[before.len() as int] == new_list.deep_view()[i as int]);
                assert(forall|k: int|
                    0 <= k < before.len() ==> #[trigger] to_ban.deep_view()[k] == before[k]);
            }
        }
        i = i + 1;
        proof {
            assert(forall|k: int|
                0 <= k < before.len() ==> #[trigger] to_ban.deep_view()[k] == before[k]);
            assert forall|k: int|
                0 <= k < i && !holds_entry(
                    old_list.deep_view(),
                    #[trigger] new_list.deep_view()[k],
                ) implies holds_entry(to_ban.deep_view(), new_list.deep_view()[k]) by {
                if k < i - 1 {
                    let j = choose|j: int|
                        0 <= j < before.len() && before[j] == new_list.deep_view()[k];
                    assert(to_ban.deep_view()[j] == new_list.deep_view()[k]);
                } else {
                    assert(to_ban.deep_view()[before.len() as int] == new_list.deep_view()[k]);
                }
            }
        }
    }
    let mut to_unban: Vec<BannedPlayer> = Vec::new();
    let mut j: usize = 0;
    while j < old_list.len()
        invariant
            j <= old_list@.len(),
            forall|k: int|
                0 <= k < to_unban.deep_view().len() ==> holds_entry(
                    old_list.deep_view(),
                    #[trigger] to_unban.deep_view()[k],
                ) && !holds_entry(new_list.deep_view(), to_unban.deep_view()[k]),
            forall|k: int|
                0 <= k < j ==> (!holds_entry(
                    new_list.deep_view(),
                    #[trigger] old_list.deep_view()[k],
                ) ==> holds_entry(to_unban.deep_view(), old_list.deep_view()[k])),
        decreases old_list@.len() - j,
    {
        let ghost before = to_unban.deep_view();
        if !list_contains(new_list, &old_list[j]) {
            let entry = old_list[j].clone();
            to_unban.push(entry);
            proof {
                assert(to_unban.deep_view()[before.len() as int] == old_list.deep_view()[
                    j as int]);
                assert(forall|k: int|
                    0 <= k < before.len() ==> #[trigger] to_unban.deep_view()[k] == before[k]);
            }
        }
        j = j + 1;
        proof {
            assert(forall|k: int|
                0 <= k < before.len() ==> #[trigger] to_unban.deep_view()[k] == before[k]);
            assert forall|k: int|
                0 <= k < j && !holds_entry(
                    new_list.deep_view(),
                    #[trigger] old_list.deep_view()[k],
                ) implies holds_entry(to_unban.deep_view(), old_list.deep_view()[k]) by {
                if k < j - 1 {
                    let jj = choose|jj: int|
                        0 <= jj < before.len() && before[jj] == old_list.deep_view()[k];
                    assert(to_unban.deep_view()[jj] == old_list.deep_view()[k]);
                } else {
                    assert(to_unban.deep_view()[before.len() as int] == old_list.deep_view()[k]);
                }
            }
        }
    }
    (to_ban, to_unban)
}

/// Marks every listed player banned, registering the unknown ones.
pub fn apply_bans(um: &mut UManager, players: &Vec<BannedPlayer>)
    requires
        old(um).inv(),
    ensures
        final(um).inv(),
        final(um)@.pending == old(um)@.pending,
        final(um)@.authenticated == old(um)@.authenticated,
        forall|i: int|
            0 <= i < players.deep_view().len() ==> {
                let u = (#[trigger] players.deep_view()[i]).uuid;
                final(um)@.registered.contains_key(u) && final(um)@.registered[u].banned
            },
        forall|u: u128| #[trigger]
            old(um)@.registered.contains_key(u) ==> final(um)@.registered.contains_key(u),
        forall|u: u128| #[trigger]
            final(um)@.registered.contains_key(u) ==> old(um)@.registered.contains_key(u) || exists|
                i: int,
            | 0 <= i < players.deep_view().len() && (#[trigger] players.deep_view()[i]).uuid == u,
        forall|u: u128|
            (#[trigger] final(um)@.registered.contains_key(u) && old(
                um,
            )@.registered.contains_key(u) && final(um)@.registered[u] != old(um)@.registered[u])
                ==> final(um)@.registered[u] == (UserinfoV {
                banned: true,
                ..old(um)@.registered[u]
            }),
        forall|u: u128|
            (#[trigger] final(um)@.registered.contains_key(u) && (!old(
                um,
            )@.registered.contains_key(u) || final(um)@.registered[u] != old(um)@.registered[u]))
                ==> exists|i: int|
                0 <= i < players.deep_view().len() && (#[trigger] players.deep_view()[i]).uuid
                    == u,
{
    let mut i: usize = 0;
    while i < players.len()
        invariant
            um.inv(),
            i <= players@.len(),
            um@.pending == old(um)@.pending,
            um@.authenticated == old(um)@.authenticated,
            forall|k: int|
                0 <= k < i ==> {
                    let u = (#[trigger] players.deep_view()[k]).uuid;
                    um@.registered.contains_key(u) && um@.registered[u].banned
                },
            forall|u: u128| #[trigger]
                old(um)@.registered.contains_key(u) ==> um@.registered.contains_key(u),
            forall|u: u128|
                (#[trigger] um@.registered.contains_key(u) && (!old(
                    um,
                )@.registered.contains_key(u) || um@.registered[u] != old(um)@.registered[u]))
                    ==> exists|k: int|
                    0 <= k < i && (#[trigger] players.deep_view()[k]).uuid == u,
            forall|u: u128|
                (#[trigger] um@.registered.contains_key(u) && old(um)@.registered.contains_key(u)
                    && um@.registered[u] != old(um)@.registered[u]) ==> um@.registered[u]
                    == (UserinfoV { banned: true, ..old(um)@.registered[u] }),
        decreases players@.len() - i,
    {
        let ghost pre = um@;
        let info = players[i].into_userinfo();
        um.ban(&info);
        i = i + 1;
        proof {
            assert forall|u: u128|
                (#[trigger] um@.registered.contains_key(u) && (!old(
                    um,
                )@.registered.contains_key(u) || um@.registered[u] != old(um)@.registered[u]))
                    implies exists|k: int|
                0 <= k < i && (#[trigger] players.deep_view()[k]).uuid == u by {
                if u == players.deep_view()[i - 1].uuid {
                    assert((players.deep_view()[i - 1]).uuid == u);
                } else {
                    assert(um@.registered[u] == pre.registered[u]);
                    let k = choose|k: int|
                        0 <= k < i - 1 && (#[trigger] players.deep_view()[k]).uuid == u;
                    assert(0 <= k < i && players.deep_view()[k].uuid == u);
                }
            }
        }
    }
}

/// Clears the ban flag of every listed player.
pub fn apply_unbans(um: &mut UManager, players: &Vec<BannedPlayer>)
    requires
        old(um).inv(),
    ensures
        final(um).inv(),
        final(um)@.pending == old(um)@.pending,
        final(um)@.authenticated == old(um)@.authenticated,
        final(um)@.registered.dom() == old(um)@.registered.dom(),
        forall|i: int|
            0 <= i < players.deep_view().len() ==> {
                let u = (#[trigger] players.deep_view()[i]).uuid;
                final(um)@.registered.contains_key(u) ==> !final(um)@.registered[u].banned
            },
        forall|u: u128|
            (#[trigger] final(um)@.registered.contains_key(u) && final(um)@.registered[u] != old(
                um,
            )@.registered[u]) ==> final(um)@.registered[u] == (UserinfoV {
                banned: false,
                ..old(um)@.registered[u]
            }),
        forall|u: u128|
            (#[trigger] final(um)@.registered.contains_key(u) && final(um)@.registered[u] != old(
                um,
            )@.registered[u]) ==> exists|i: int|
                0 <= i < players.deep_view().len() && (#[trigger] players.deep_view()[i]).uuid
                    == u,
{
    let mut i: usize = 0;
    while i < players.len()
        invariant
            um.inv(),
            i <= players@.len(),
            um@.pending == old(um)@.pending,
            um@.authenticated == old(um)@.authenticated,
            um@.registered.dom() == old(um)@.registered.dom(),
            forall|k: int|
                0 <= k < i ==> {
                    let u = (#[trigger] players.deep_view()[k]).uuid;
                    um@.registered.contains_key(u) ==> !um@.registered[u].banned
                },
            forall|u: u128|
                (#[trigger] um@.registered.contains_key(u) && um@.registered[u] != old(
                    um,
                )@.registered[u]) ==> um@.registered[u] == (UserinfoV {
                    banned: false,
                    ..old(um)@.registered[u]
                }),
            forall|u: u128|
                (#[trigger] um@.registered.contains_key(u) && um@.registered[u] != old(
                    um,
                )@.registered[u]) ==> exists|k: int|
                    0 <= k < i && (#[trigger] players.deep_view()[k]).uuid == u,
        decreases players@.len() - i,
    {
        let ghost pre = um@;
        um.unban(&players[i].uuid);
        proof {
            assert(um@.registered.dom() =~= old(um)@.registered.dom());
        }
        i = i + 1;
        proof {
            assert forall|u: u128|
                (#[trigger] um@.registered.contains_key(u) && um@.registered[u] != old(
                    um,
                )@.registered[u]) implies exists|k: int|
                0 <= k < i && (#[trigger] players.deep_view()[k]).uuid == u by {
                if u == players.deep_view()[i - 1].uuid {
                    assert((players.deep_view()[i - 1]).uuid == u);
                } else {
                    assert(um@.registered[u] == pre.registered[u]);
                    let k = choose|k: int|
                        0 <= k < i - 1 && (#[trigger] players.deep_view()[k]).uuid == u;
                    assert(0 <= k < i && players.deep_view()[k].uuid == u);
                }
            }
        }
    }
}

/// The profile a configuration entry writes, up to its creation timestamp
/// and the ban flag, which is enforced separately.
pub open spec fn advanced_profile_ok(info: UserinfoV, uuid: u128, username: Seq<char>) -> bool {
    &&& info.uuid == uuid
    &&& info.nickname == username
    &&& info.rank == default_rank()
    &&& info.provider_name == unknown_provider_name()
    &&& info.provider_url == Seq::<char>::empty()
    &&& info.token is None
    &&& info.version == default_version()
}

/// What one configuration entry leaves in the profile store: the upsert-merge
/// of the entry's profile over what was there, with the configured ban flag
/// forced on top.
pub open spec fn advanced_entry_applied(
    m_old: Map<u128, UserinfoV>,
    m_new: Map<u128, UserinfoV>,
    uuid: u128,
    settings: AdvancedUsers,
) -> bool {
    &&& m_new.contains_key(uuid)
    &&& m_new[uuid].banned == settings.banned
    &&& exists|info: UserinfoV|
        advanced_profile_ok(info, uuid, settings.username@) && m_new[uuid] == (UserinfoV {
            banned: settings.banned,
            ..(if m_old.contains_key(uuid) {
                merge_v(m_old[uuid], info)
            } else {
                info
            })
        })
}

/// Writes the configuration's per-player settings into the manager: each
/// entry's profile is upsert-merged and its ban flag enforced both ways;
/// players the configuration does not name keep their profiles. The entries
/// come from a keyed table, so no identifier repeats.
pub fn apply_advanced_users(um: &mut UManager, entries: &Vec<(u128, AdvancedUsers)>)
    requires
        old(um).inv(),
        forall|i: int, j: int| 0 <= i < j < entries@.len() ==> entries@[i].0 != entries@[j].0,
    ensures
        final(um).inv(),
        final(um)@.pending == old(um)@.pending,
        final(um)@.authenticated == old(um)@.authenticated,
        forall|i: int|
            0 <= i < entries@.len() ==> advanced_entry_applied(
                old(um)@.registered,
                final(um)@.registered,
                (#[trigger] entries@[i]).0,
                entries@[i].1,
            ),
        forall|u: u128| #[trigger]
            old(um)@.registered.contains_key(u) ==> final(um)@.registered.contains_key(u),
        forall|u: u128|
            (#[trigger] final(um)@.registered.contains_key(u) && (!old(
                um,
            )@.registered.contains_key(u) || final(um)@.registered[u] != old(um)@.registered[u]))
                ==> exists|i: int| 0 <= i < entries@.len() && (#[trigger] entries@[i]).0 == u,
{
    let mut i: usize = 0;
    while i < entries.len()
        invariant
            um.inv(),
            i <= entries@.len(),
            forall|a: int, b: int| 0 <= a < b < entries@.len() ==> entries@[a].0 != entries@[b].0,
            um@.pending == old(um)@.pending,
            um@.authenticated == old(um)@.authenticated,
            forall|k: int|
                0 <= k < i ==> advanced_entry_applied(
                    old(um)@.registered,
                    um@.registered,
                    (#[trigger] entries@[k]).0,
                    entries@[k].1,
                ),
            forall|u: u128| #[trigger]
                old(um)@.registered.contains_key(u) ==> um@.registered.contains_key(u),
            forall|u: u128|
                (#[trigger] um@.registered.contains_key(u) && (!old(
                    um,
                )@.registered.contains_key(u) || um@.registered[u] != old(um)@.registered[u]))
                    ==> exists|k: int| 0 <= k < i && (#[trigger] entries@[k]).0 == u,
        decreases entries@.len() - i,
    {
        let ghost pre = um@;
        let uuid = entries[i].0;
        let ghost settings_view = entries@[i as int].1;
        let settings = &entries[i].1;
        let mut info = Userinfo::default();
        info.uuid = uuid;
        info.nickname = settings.username.clone();
        info.banned = settings.banned;
        let ghost info_view = info@;
        let banned = settings.banned;
        um.insert_user(uuid, info);
        if banned {
            let mut flag = Userinfo::default();
            flag.uuid = uuid;
            flag.banned = true;
            um.ban(&flag);
        } else {
            um.unban(&uuid);
        }
        i = i + 1;
        proof {
            // The entry's own key saw nothing before this iteration, so the
            // merge base is the original profile.
            assert(pre.registered.contains_key(uuid) == old(um)@.registered.contains_key(uuid)
                && (pre.registered.contains_key(uuid) ==> pre.registered[uuid] == old(
                um,
            )@.registered[uuid])) by {
                if pre.registered.contains_key(uuid) && (!old(um)@.registered.contains_key(uuid)
                    || pre.registered[uuid] != old(um)@.registered[uuid]) {
                    let k = choose|k: int| 0 <= k < i - 1 && (#[trigger] entries@[k]).0 == uuid;
                    assert(entries@[k].0 != entries@[i - 1].0);
                }
            }
            assert(advanced_profile_ok(info_view, uuid, settings_view.username@));
            assert(advanced_entry_applied(
                old(um)@.registered,
                um@.registered,
                uuid,
                settings_view,
            ));
            assert forall|k: int| 0 <= k < i implies advanced_entry_applied(
                old(um)@.registered,
                um@.registered,
                (#[trigger] entries@[k]).0,
                entries@[k].1,
            ) by {
                if k < i - 1 {
                    let u = entries@[k].0;
                    assert(entries@[k].0 != entries@[i - 1].0);
                    assert(um@.registered.contains_key(u) && um@.registered[u] == pre.registered[
                        u]);
                    let w = choose|w: UserinfoV|
                        advanced_profile_ok(w, u, entries@[k].1.username@) && pre.registered[u]
                            == (UserinfoV {
                            banned: entries@[k].1.banned,
                            ..(if old(um)@.registered.contains_key(u) {
                                merge_v(old(um)@.registered[u], w)
                            } else {
                                w
                            })
                        });
                    assert(advanced_profile_ok(w, u, entries@[k].1.username@) && um@.registered[u]
                        == (UserinfoV {
                        banned: entries@[k].1.banned,
                        ..(if old(um)@.registered.contains_key(u) {
                            merge_v(old(um)@.registered[u], w)
                        } else {
                            w
                        })
                    }));
                }
            }
            assert forall|u: u128|
                (#[trigger] um@.registered.contains_key(u) && (!old(
                    um,
                )@.registered.contains_key(u) || um@.registered[u] != old(um)@.registered[u]))
                    implies exists|k: int| 0 <= k < i && (#[trigger] entries@[k]).0 == u by {
                if u == uuid {
                    assert((entries@[i - 1]).0 == u);
                } else {
                    assert(um@.registered[u] == pre.registered[u]);
                    let k = choose|k: int| 0 <= k < i - 1 && (#[trigger] entries@[k]).0 == u;
                    assert(0 <= k < i && entries@[k].0 == u);
                }
            }
        }
    }
}

} // verus!
