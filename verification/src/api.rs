use crate::errors::ApiError;
use crate::models::{
    dist_sq, dist_sq_exec, valid_point, FriendRow, Friendship, GeoPoint, Nearby, NearbyModel,
    User, UserModel, DISTANCE_THRESHOLD, RECENCY_WINDOW_SECS,
};
use crate::store::{
    friendship_views, lemma_addfriend_wf, lemma_pair_index_of, lemma_register_wf,
    lemma_token_index_of, lemma_update_wf, pair_index, spec_addfriend, spec_register, spec_update,
    user_index_by_name, user_index_by_token, users_distinct, valid_user, find_pair_index,
    find_user_index_by_name, find_user_index_by_token, Store, StoreModel,
};
use vstd::prelude::*;

verus! {

/// A registration request: the username to claim and, optionally, a first
/// location. For a friend request, the same body names the target.
pub struct NewUser {
    pub username: String,
    pub loc: Option<GeoPoint>,
}

/// A field update: both fields are mandatory; there is no partial update.
pub struct Update {
    pub loc: GeoPoint,
    pub completion: i32,
}

/// An identity result, seen as its mathematical value.
pub open spec fn result_view(r: Result<User, ApiError>) -> Result<UserModel, ApiError> {
    match r {
        Ok(u) => Ok(u@),
        Err(e) => Err(e),
    }
}

/// Registers a new identity: a single all-or-nothing insert. A username or
/// token collision reports `Conflict` and stores nothing; on success the
/// stored identity is returned in full, with the call time as its liveness
/// timestamp and a progress marker of zero.
pub fn register(store: &mut Store, new_user: &NewUser, token: u128, now: i64) -> (r: Result<
    User,
    ApiError,
>)
    requires
        old(store)@.wf(),
        0 <= now,
        match new_user.loc {
            Some(p) => valid_point(p),
            None => true,
        },
    ensures
        final(store)@ == spec_register(old(store)@, new_user.username@, new_user.loc, token, now).0,
        result_view(r) == spec_register(old(store)@, new_user.username@, new_user.loc, token, now).1,
        final(store)@.wf(),
{
    let ghost m0 = store@;
    let by_name = find_user_index_by_name(&store.users, &new_user.username);
    let by_token = find_user_index_by_token(&store.users, token);
    if by_name.is_some() || by_token.is_some() {
        proof {
            assert(user_index_by_name(m0.users, new_user.username@) is Some || user_index_by_token(
                m0.users,
                token,
            ) is Some);
        }
        return Err(ApiError::Conflict);
    }
    proof {
        assert(user_index_by_name(m0.users, new_user.username@) is None);
        assert(user_index_by_token(m0.users, token) is None);
    }
    let u = User {
        username: new_user.username.clone(),
        token,
        last_location: new_user.loc,
        last_online: now,
        completion: 0,
    };
    let ret = u.clone();
    store.users.push(u);
    proof {
        assert(store@.users =~= m0.users.push(ret@));
        lemma_register_wf(m0, new_user.username@, new_user.loc, token, now);
    }
    Ok(ret)
}

/// Adds or accepts a friend request: one atomic conflict-resolving write on
/// the canonical pair key. A self-request is rejected and never stored; a
/// first request inserts a pending row with the caller as source; a repeat
/// by the source is a no-op; a request by the other party accepts the row,
/// and the acceptance time never regresses.
pub fn addfriend(store: &mut Store, source: &String, target: &String, now: i64) -> (r: Result<
    (),
    ApiError,
>)
    requires
        old(store)@.wf(),
        0 <= now,
    ensures
        final(store)@ == spec_addfriend(old(store)@, source@, target@, now).0,
        r == spec_addfriend(old(store)@, source@, target@, now).1,
        final(store)@.wf(),
{
    let ghost m0 = store@;
    if *source == *target {
        return Err(ApiError::SelfFriendRequest);
    }
    match find_pair_index(&store.friendships, source, target) {
        None => {
            proof {
                assert(pair_index(m0.friends, source@, target@) is None);
            }
            let row = Friendship { source: source.clone(), target: target.clone(), accepted: None };
            store.friendships.push(row);
            proof {
                assert(store@.friends =~= m0.friends.push(
                    FriendRow { source: source@, target: target@, accepted: None },
                ));
                lemma_addfriend_wf(m0, source@, target@, now);
            }
            Ok(())
        },
        Some(k) => {
            proof {
                lemma_pair_index_of(m0.friends, source@, target@, k as int);
            }
            if store.friendships[k].source == *source {
                Ok(())
            } else {
                let acc: i64 = match store.friendships[k].accepted {
                    None => now,
                    Some(t) => if now <= t {
                        now
                    } else {
                        t
                    },
                };
                let old_row = store.friendships.remove(k);
                let new_row = Friendship {
                    source: old_row.source,
                    target: old_row.target,
                    accepted: Some(acc),
                };
                store.friendships.insert(k, new_row);
                proof {
                    assert(store@.friends =~= m0.friends.update(
                        k as int,
                        FriendRow {
                            source: m0.friends[k as int].source,
                            target: m0.friends[k as int].target,
                            accepted: Some(acc),
                        },
                    ));
                    lemma_addfriend_wf(m0, source@, target@, now);
                }
                Ok(())
            }
        },
    }
}

/// Does the row involve the identity named `name`, as source or as target?
pub open spec fn involves(f: FriendRow, name: Seq<char>) -> bool {
    f.source == name || f.target == name
}

/// All rows involving `name`, pending and accepted alike, in store order.
pub open spec fn friends_of(friends: Seq<FriendRow>, name: Seq<char>) -> Seq<FriendRow> {
    friends.filter(|f: FriendRow| involves(f, name))
}

/// Lists every relationship row, pending or accepted, that involves the
/// named identity, in store order.
pub fn friends(store: &Store, username: &String) -> (r: Vec<Friendship>)
    ensures
        friendship_views(r@) == friends_of(store@.friends, username@),
{
    let mut out: Vec<Friendship> = Vec::new();
    let mut i: usize = 0;
    while i < store.friendships.len()
        invariant
            i <= store.friendships@.len(),
            friendship_views(out@) == friends_of(
                store@.friends.subrange(0, i as int),
                username@,
            ),
        decreases store.friendships@.len() - i,
    {
        let ghost prefix = store@.friends.subrange(0, i as int);
        let ghost el = store@.friends[i as int];
        let ghost out0 = out@;
        let f = &store.friendships[i];
        if f.source == *username || f.target == *username {
            out.push(f.clone());
        }
        proof {
            broadcast use vstd::prelude::Seq::lemma_filter_push;

            assert(store@.friends.subrange(0, i as int + 1) =~= prefix.push(el));
            if involves(el, username@) {
                assert(friendship_views(out@) =~= friendship_views(out0).push(el));
                assert(friends_of(prefix.push(el), username@) == friends_of(
                    prefix,
                    username@,
                ).push(el));
            } else {
                assert(friendship_views(out@) =~= friendship_views(out0));
                assert(friends_of(prefix.push(el), username@) == friends_of(prefix, username@));
            }
        }
        i += 1;
    }
    proof {
        assert(store@.friends.subrange(0, store.friendships@.len() as int) =~= store@.friends);
    }
    out
}

/// The proximity results, row by row, as mathematical values.
pub open spec fn nearby_views(v: Seq<Nearby>) -> Seq<NearbyModel> {
    v.map_values(|n: Nearby| n@)
}

/// Is `u` an active peer of the caller `c` at time `now`? Both filters are
/// independent and both must hold: within the distance threshold of the
/// caller's location, and seen strictly within the trailing recency window.
/// The caller itself is no peer, and an identity without a location never
/// matches.
pub open spec fn nearby_match(u: UserModel, c: UserModel, now: i64) -> bool {
    match (c.last_location, u.last_location) {
        (Some(cp), Some(up)) => {
            &&& u.username != c.username
            &&& dist_sq(up, cp) <= (DISTANCE_THRESHOLD as int) * (DISTANCE_THRESHOLD as int)
            &&& now - RECENCY_WINDOW_SECS < u.last_online
        },
        _ => false,
    }
}

/// The proximity projection of an identity. An identity without a location
/// never passes the filter, so the fallback point of the second arm is never
/// seen in a query answer.
pub open spec fn peer_view(u: UserModel) -> NearbyModel {
    match u.last_location {
        Some(p) => NearbyModel {
            username: u.username,
            last_location: p,
            last_online: u.last_online,
        },
        None => NearbyModel {
            username: u.username,
            last_location: GeoPoint { x: 0, y: 0 },
            last_online: u.last_online,
        },
    }
}

/// Exactly the projections of the identities that pass both filters, in
/// table order.
pub open spec fn nearby_peers(users: Seq<UserModel>, c: UserModel, now: i64) -> Seq<NearbyModel> {
    users.filter(|u: UserModel| nearby_match(u, c, now)).map_values(|u: UserModel| peer_view(u))
}

/// Under the store invariant, an identity that fails either proximity
/// filter contributes no entry: no answer row carries its username. In
/// particular, a peer within the distance threshold but seen too long ago,
/// and a peer seen just now but outside the threshold, are both excluded.
pub proof fn lemma_nearby_excludes(users: Seq<UserModel>, c: UserModel, now: i64, idx: int)
    requires
        users_distinct(users),
        0 <= idx < users.len(),
        !nearby_match(users[idx], c, now),
    ensures
        forall|i: int|
            0 <= i < nearby_peers(users, c, now).len() ==> (#[trigger] nearby_peers(
                users,
                c,
                now,
            )[i]).username != users[idx].username,
{
    let pred = |u: UserModel| nearby_match(u, c, now);
    let filtered = users.filter(pred);
    assert forall|i: int|
        0 <= i < nearby_peers(users, c, now).len() implies (#[trigger] nearby_peers(
        users,
        c,
        now,
    )[i]).username != users[idx].username by {
        broadcast use vstd::prelude::Seq::lemma_filter_pred;
        broadcast use vstd::prelude::Seq::lemma_filter_contains_rev;

        assert(nearby_peers(users, c, now)[i] == peer_view(filtered[i]));
        assert(pred(filtered[i]));
        assert(filtered.contains(filtered[i]));
        assert(users.contains(filtered[i]));
        let j = choose|j: int| 0 <= j < users.len() && users[j] == filtered[i];
        assert(users[j].username != users[idx].username);
        assert(peer_view(filtered[i]).username == users[j].username);
    }
}

/// The entries stand in ascending order of squared distance to `cp`.
pub open spec fn sorted_by_dist(v: Seq<Nearby>, cp: GeoPoint) -> bool {
    forall|i1: int, i2: int| #![trigger v[i1], v[i2]]
        0 <= i1 <= i2 < v.len() ==> dist_sq(v[i1].last_location, cp) <= dist_sq(
            v[i2].last_location,
            cp,
        )
}

/// Every entry carries a bounded location.
pub open spec fn points_valid(v: Seq<Nearby>) -> bool {
    forall|i: int| #![trigger v[i]] 0 <= i < v.len() ==> valid_point(v[i].last_location)
}

/// Decides both proximity filters for one identity and hands back its
/// location exactly when it qualifies.
fn peer_location(u: &User, caller: &User, cp: GeoPoint, now: i64) -> (r: Option<GeoPoint>)
    requires
        0 <= now,
        valid_point(cp),
        caller@.last_location == Some(cp),
        match u@.last_location {
            Some(p) => valid_point(p),
            None => true,
        },
    ensures
        match r {
            Some(p) => nearby_match(u@, caller@, now) && u@.last_location == Some(p),
            None => !nearby_match(u@, caller@, now),
        },
{
    if u.username == caller.username {
        return None;
    }
    match u.last_location {
        None => None,
        Some(p) => {
            if !(u.last_online > now - RECENCY_WINDOW_SECS) {
                return None;
            }
            let d = dist_sq_exec(p, cp);
            let t: i128 = DISTANCE_THRESHOLD as i128;
            proof {
                assert(t == 1000);
            }
            if d <= t * t {
                Some(p)
            } else {
                None
            }
        },
    }
}

/// Inserts `entry` at its place in the distance ordering: the answer grows
/// by exactly this entry and stays sorted.
#[verifier::loop_isolation(false)]
fn insert_by_distance(out: &mut Vec<Nearby>, entry: Nearby, cp: GeoPoint)
    requires
        valid_point(cp),
        valid_point(entry.last_location),
        points_valid(old(out)@),
        sorted_by_dist(old(out)@, cp),
    ensures
        nearby_views(final(out)@).to_multiset() == nearby_views(old(out)@).to_multiset().insert(
            entry@,
        ),
        sorted_by_dist(final(out)@, cp),
        points_valid(final(out)@),
{
    let d = dist_sq_exec(entry.last_location, cp);
    let mut k: usize = 0;
    while k < out.len() && dist_sq_exec(out[k].last_location, cp) <= d
        invariant
            k <= out@.len(),
            forall|i: int| #![trigger out@[i]]
                0 <= i < k ==> dist_sq(out@[i].last_location, cp) <= d,
        decreases out@.len() - k,
    {
        k += 1;
    }
    let ghost out0 = out@;
    let ghost v0 = nearby_views(out@);
    let ghost e = entry@;
    out.insert(k, entry);
    proof {
        broadcast use vstd::seq_lib::group_to_multiset_ensures;

        let ki = k as int;
        out0.insert_ensures(ki, entry);
        v0.insert_ensures(ki, e);
        assert forall|i: int| 0 <= i < nearby_views(out@).len() implies #[trigger] nearby_views(
            out@,
        )[i] == v0.insert(ki, e)[i] by {
            assert(nearby_views(out@)[i] == out@[i]@);
            if i < ki {
                assert(out@[i] == out0[i]);
                assert(v0[i] == out0[i]@);
            } else if i > ki {
                assert(out@[i] == out0[i - 1]);
                assert(v0[i - 1] == out0[i - 1]@);
            }
        }
        assert(nearby_views(out@) =~= v0.insert(ki, e));
        assert(v0.insert(ki, e).to_multiset() == v0.to_multiset().insert(e));
        assert forall|i1: int, i2: int| #![trigger out@[i1], out@[i2]]
            0 <= i1 <= i2 < out@.len() implies dist_sq(out@[i1].last_location, cp) <= dist_sq(
            out@[i2].last_location,
            cp,
        ) by {
            if i1 < ki && i2 < ki {
                assert(out@[i1] == out0[i1] && out@[i2] == out0[i2]);
            } else if i1 < ki && i2 == ki {
                assert(out@[i1] == out0[i1] && out@[i2] == entry);
            } else if i1 < ki && i2 > ki {
                assert(out@[i1] == out0[i1] && out@[i2] == out0[i2 - 1]);
            } else if i1 == ki && i2 > ki {
                assert(out@[i1] == entry && out@[i2] == out0[i2 - 1]);
                assert(dist_sq(out0[ki].last_location, cp) > d);
                assert(dist_sq(out0[i2 - 1].last_location, cp) >= dist_sq(
                    out0[ki].last_location,
                    cp,
                ));
            } else if i1 > ki {
                assert(out@[i1] == out0[i1 - 1] && out@[i2] == out0[i2 - 1]);
            }
        }
        assert forall|i: int| #![trigger out@[i]] 0 <= i < out@.len() implies valid_point(
            out@[i].last_location,
        ) by {
            if i < ki {
                assert(out@[i] == out0[i]);
            } else if i > ki {
                assert(out@[i] == out0[i - 1]);
            } else {
                assert(out@[i] == entry);
            }
        }
    }
}

/// The windowed proximity query: exactly the identities other than the
/// caller that lie within the distance threshold of the caller's location
/// and were seen strictly within the trailing recency window, each once,
/// ordered ascending by squared distance to the caller. A caller without a
/// location gets the empty answer, never an error.
#[verifier::loop_isolation(false)]
pub fn nearby(store: &Store, caller: &User, now: i64) -> (r: Vec<Nearby>)
    requires
        store@.wf(),
        0 <= now,
        match caller@.last_location {
            Some(p) => valid_point(p),
            None => true,
        },
    ensures
        nearby_views(r@).to_multiset() == nearby_peers(store@.users, caller@, now).to_multiset(),
        match caller@.last_location {
            Some(cp) => sorted_by_dist(r@, cp),
            None => r@.len() == 0,
        },
{
    let ghost m = store@;
    let ghost c = caller@;
    let cp = match caller.last_location {
        None => {
            let empty: Vec<Nearby> = Vec::new();
            proof {
                m.users.lemma_all_neg_filter_empty(|u: UserModel| nearby_match(u, c, now));
                assert(nearby_peers(m.users, c, now) =~= Seq::<NearbyModel>::empty());
                assert(nearby_views(empty@) =~= Seq::<NearbyModel>::empty());
            }
            return empty;
        },
        Some(p) => p,
    };
    let mut out: Vec<Nearby> = Vec::new();
    proof {
        assert(nearby_views(out@) =~= Seq::<NearbyModel>::empty());
        let ghost pre0 = m.users.subrange(0, 0);
        assert(pre0 =~= Seq::<UserModel>::empty());
        pre0.lemma_all_neg_filter_empty(|u: UserModel| nearby_match(u, c, now));
        assert(nearby_peers(pre0, c, now) =~= Seq::<NearbyModel>::empty());
    }
    let mut j: usize = 0;
    while j < store.users.len()
        invariant
            j <= store.users@.len(),
            nearby_views(out@).to_multiset() == nearby_peers(
                m.users.subrange(0, j as int),
                c,
                now,
            ).to_multiset(),
            sorted_by_dist(out@, cp),
            points_valid(out@),
        decreases store.users@.len() - j,
    {
        let ghost prefix = m.users.subrange(0, j as int);
        let ghost uj = m.users[j as int];
        let u = &store.users[j];
        proof {
            assert(valid_user(uj));
        }
        match peer_location(u, caller, cp, now) {
            Some(p) => {
                let entry = Nearby {
                    username: u.username.clone(),
                    last_location: p,
                    last_online: u.last_online,
                };
                proof {
                    assert(entry@ == peer_view(uj));
                }
                insert_by_distance(&mut out, entry, cp);
                proof {
                    broadcast use vstd::prelude::Seq::lemma_filter_push;
                    broadcast use vstd::seq_lib::group_to_multiset_ensures;

                    assert(m.users.subrange(0, j as int + 1) =~= prefix.push(uj));
                    assert(nearby_peers(prefix.push(uj), c, now) =~= nearby_peers(
                        prefix,
                        c,
                        now,
                    ).push(peer_view(uj)));
                    assert(nearby_peers(prefix, c, now).push(peer_view(uj)).to_multiset()
                        == nearby_peers(prefix, c, now).to_multiset().insert(peer_view(uj)));
                }
            },
            None => {
                proof {
                    broadcast use vstd::prelude::Seq::lemma_filter_push;

                    assert(m.users.subrange(0, j as int + 1) =~= prefix.push(uj));
                    assert(nearby_peers(prefix.push(uj), c, now) =~= nearby_peers(
                        prefix,
                        c,
                        now,
                    ));
                }
            },
        }
        j += 1;
    }
    proof {
        assert(m.users.subrange(0, store.users@.len() as int) =~= m.users);
    }
    out
}

/// Updates the caller's location and progress marker, both mandatory, and
/// refreshes the liveness timestamp alongside; an unknown token changes
/// nothing, and the call itself always succeeds.
pub fn update(store: &mut Store, token: u128, upd: &Update, now: i64) -> (r: Result<(), ApiError>)
    requires
        old(store)@.wf(),
        0 <= now,
        valid_point(upd.loc),
    ensures
        final(store)@ == spec_update(old(store)@, token, upd.loc, upd.completion, now),
        r == Ok::<(), ApiError>(()),
        final(store)@.wf(),
{
    let ghost m0 = store@;
    match find_user_index_by_token(&store.users, token) {
        None => {
            proof {
                assert(user_index_by_token(m0.users, token) is None);
            }
            Ok(())
        },
        Some(k) => {
            proof {
                lemma_token_index_of(m0.users, token, k as int);
            }
            let old_user = store.users.remove(k);
            let new_user = User {
                username: old_user.username,
                token: old_user.token,
                last_location: Some(upd.loc),
                last_online: now,
                completion: upd.completion,
            };
            store.users.insert(k, new_user);
            proof {
                assert(store@.users =~= m0.users.update(
                    k as int,
                    UserModel {
                        username: m0.users[k as int].username,
                        token: m0.users[k as int].token,
                        last_location: Some(upd.loc),
                        last_online: now,
                        completion: upd.completion,
                    },
                ));
                lemma_update_wf(m0, token, upd.loc, upd.completion, now);
            }
            Ok(())
        },
    }
}

} // verus!
