use crate::errors::ApiError;
use crate::models::{valid_point, FriendRow, Friendship, GeoPoint, User, UserModel};
use vstd::prelude::*;

verus! {

/// The mathematical state of the store: the users table and the
/// friendship table.
pub ghost struct StoreModel {
    pub users: Seq<UserModel>,
    pub friends: Seq<FriendRow>,
}

/// A stored identity carries a nonnegative liveness timestamp and, if any,
/// a bounded location.
pub open spec fn valid_user(u: UserModel) -> bool {
    &&& 0 <= u.last_online
    &&& match u.last_location {
        Some(p) => valid_point(p),
        None => true,
    }
}

/// A relationship row never relates an identity to itself, and its
/// acceptance time, if set, is nonnegative.
pub open spec fn valid_row(f: FriendRow) -> bool {
    &&& f.source != f.target
    &&& match f.accepted {
        Some(t) => 0 <= t,
        None => true,
    }
}

/// Does row `f` stand for the unordered pair `{a, b}`?
pub open spec fn same_pair(f: FriendRow, a: Seq<char>, b: Seq<char>) -> bool {
    ||| (f.source == a && f.target == b)
    ||| (f.source == b && f.target == a)
}

/// Usernames are unique keys and tokens are bound one-to-one to identities.
pub open spec fn users_distinct(users: Seq<UserModel>) -> bool {
    forall|i: int, j: int|
        #![trigger users[i], users[j]]
        0 <= i < j < users.len() ==> users[i].username != users[j].username && users[i].token
            != users[j].token
}

/// At most one row exists per unordered pair of usernames.
pub open spec fn pairs_unique(friends: Seq<FriendRow>) -> bool {
    forall|i: int, j: int|
        #![trigger friends[i], friends[j]]
        0 <= i < j < friends.len() ==> !same_pair(friends[j], friends[i].source, friends[i].target)
}

impl StoreModel {
    /// The store invariant: key uniqueness on both tables and per-row
    /// validity.
    pub open spec fn wf(self) -> bool {
        &&& users_distinct(self.users)
        &&& forall|i: int| 0 <= i < self.users.len() ==> valid_user(#[trigger] self.users[i])
        &&& pairs_unique(self.friends)
        &&& forall|i: int| 0 <= i < self.friends.len() ==> valid_row(#[trigger] self.friends[i])
    }
}

/// Index of the identity named `name`, if one is stored.
pub open spec fn user_index_by_name(users: Seq<UserModel>, name: Seq<char>) -> Option<int> {
    if exists|i: int| 0 <= i < users.len() && #[trigger] users[i].username == name {
        Some(choose|i: int| 0 <= i < users.len() && #[trigger] users[i].username == name)
    } else {
        None
    }
}

/// Index of the identity holding `token`, if one is stored.
pub open spec fn user_index_by_token(users: Seq<UserModel>, token: u128) -> Option<int> {
    if exists|i: int| 0 <= i < users.len() && #[trigger] users[i].token == token {
        Some(choose|i: int| 0 <= i < users.len() && #[trigger] users[i].token == token)
    } else {
        None
    }
}

/// Index of the row for the unordered pair `{a, b}`, if one is stored.
pub open spec fn pair_index(friends: Seq<FriendRow>, a: Seq<char>, b: Seq<char>) -> Option<int> {
    if exists|i: int| 0 <= i < friends.len() && same_pair(#[trigger] friends[i], a, b) {
        Some(choose|i: int| 0 <= i < friends.len() && same_pair(#[trigger] friends[i], a, b))
    } else {
        None
    }
}

/// Under key uniqueness, any index whose row stands for the pair is the
/// index `pair_index` picks.
pub proof fn lemma_pair_index_of(friends: Seq<FriendRow>, a: Seq<char>, b: Seq<char>, k: int)
    requires
        pairs_unique(friends),
        0 <= k < friends.len(),
        same_pair(friends[k], a, b),
    ensures
        pair_index(friends, a, b) == Some(k),
{
    let j = choose|i: int| 0 <= i < friends.len() && same_pair(#[trigger] friends[i], a, b);
    if j != k {
        let lo = if j < k {
            j
        } else {
            k
        };
        let hi = if j < k {
            k
        } else {
            j
        };
        assert(same_pair(friends[hi], friends[lo].source, friends[lo].target));
    }
}

/// Under username uniqueness, any index whose identity carries the name is
/// the index `user_index_by_name` picks.
pub proof fn lemma_name_index_of(users: Seq<UserModel>, name: Seq<char>, k: int)
    requires
        users_distinct(users),
        0 <= k < users.len(),
        users[k].username == name,
    ensures
        user_index_by_name(users, name) == Some(k),
{
    let j = choose|i: int| 0 <= i < users.len() && #[trigger] users[i].username == name;
    if j != k {
        assert(users[if j < k {
            j
        } else {
            k
        }].username != users[if j < k {
            k
        } else {
            j
        }].username);
    }
}

/// Under token uniqueness, any index whose identity holds the token is the
/// index `user_index_by_token` picks.
pub proof fn lemma_token_index_of(users: Seq<UserModel>, token: u128, k: int)
    requires
        users_distinct(users),
        0 <= k < users.len(),
        users[k].token == token,
    ensures
        user_index_by_token(users, token) == Some(k),
{
    let j = choose|i: int| 0 <= i < users.len() && #[trigger] users[i].token == token;
    if j != k {
        assert(users[if j < k {
            j
        } else {
            k
        }].token != users[if j < k {
            k
        } else {
            j
        }].token);
    }
}

/// Registration: one all-or-nothing insert. A username or token collision
/// leaves the store untouched and reports `Conflict`; otherwise the new
/// identity is appended with the call time as its liveness timestamp and a
/// progress marker of zero, and returned in full.
pub open spec fn spec_register(
    m: StoreModel,
    username: Seq<char>,
    loc: Option<GeoPoint>,
    token: u128,
    now: i64,
) -> (StoreModel, Result<UserModel, ApiError>) {
    if user_index_by_name(m.users, username) is Some || user_index_by_token(m.users, token)
        is Some {
        (m, Err(ApiError::Conflict))
    } else {
        let u = UserModel { username, token, last_location: loc, last_online: now, completion: 0 };
        (StoreModel { users: m.users.push(u), friends: m.friends }, Ok(u))
    }
}

/// The acceptance time after a reciprocal request at time `now`: set when
/// still pending, and never moved later once set.
pub open spec fn accept_time(prev: Option<i64>, now: i64) -> Option<i64> {
    match prev {
        None => Some(now),
        Some(t) => Some(
            if now <= t {
                now
            } else {
                t
            },
        ),
    }
}

/// The friendship state machine, one atomic conflict-resolving write on the
/// canonical pair key:
/// - a self-request is rejected and never stored;
/// - with no row for the pair, a pending row is inserted with the caller as
///   source;
/// - a repeat by the recorded source is a no-op;
/// - a request by the other party accepts the row, and an acceptance time,
///   once set, never regresses.
pub open spec fn spec_addfriend(m: StoreModel, source: Seq<char>, target: Seq<char>, now: i64) -> (
    StoreModel,
    Result<(), ApiError>,
) {
    if source == target {
        (m, Err(ApiError::SelfFriendRequest))
    } else {
        match pair_index(m.friends, source, target) {
            None => {
                let row = FriendRow { source, target, accepted: None };
                (StoreModel { users: m.users, friends: m.friends.push(row) }, Ok(()))
            },
            Some(k) => {
                if m.friends[k].source == source {
                    (m, Ok(()))
                } else {
                    let row = FriendRow {
                        source: m.friends[k].source,
                        target: m.friends[k].target,
                        accepted: accept_time(m.friends[k].accepted, now),
                    };
                    (StoreModel { users: m.users, friends: m.friends.update(k, row) }, Ok(()))
                }
            },
        }
    }
}

/// The authentication write: resolve `token` to its identity, refresh its
/// liveness timestamp, and return the refreshed identity; no identity, no
/// change.
pub open spec fn spec_touch(m: StoreModel, token: u128, now: i64) -> (
    StoreModel,
    Option<UserModel>,
) {
    match user_index_by_token(m.users, token) {
        None => (m, None),
        Some(i) => {
            let u = UserModel {
                username: m.users[i].username,
                token: m.users[i].token,
                last_location: m.users[i].last_location,
                last_online: now,
                completion: m.users[i].completion,
            };
            (StoreModel { users: m.users.update(i, u), friends: m.friends }, Some(u))
        },
    }
}

/// The field update: both fields are mandatory, the liveness timestamp is
/// refreshed alongside; an unknown token changes nothing.
pub open spec fn spec_update(
    m: StoreModel,
    token: u128,
    loc: GeoPoint,
    completion: i32,
    now: i64,
) -> StoreModel {
    match user_index_by_token(m.users, token) {
        None => m,
        Some(i) => {
            let u = UserModel {
                username: m.users[i].username,
                token: m.users[i].token,
                last_location: Some(loc),
                last_online: now,
                completion,
            };
            StoreModel { users: m.users.update(i, u), friends: m.friends }
        },
    }
}

/// The executable store: the users table and the friendship table, each a
/// vector of rows.
pub struct Store {
    pub users: Vec<User>,
    pub friendships: Vec<Friendship>,
}

/// The users table, row by row, as mathematical values.
pub open spec fn user_views(users: Seq<User>) -> Seq<UserModel> {
    users.map_values(|u: User| u@)
}

/// The friendship table, row by row, as mathematical values.
pub open spec fn friendship_views(friendships: Seq<Friendship>) -> Seq<FriendRow> {
    friendships.map_values(|f: Friendship| f@)
}

impl View for Store {
    type V = StoreModel;

    open spec fn view(&self) -> StoreModel {
        StoreModel {
            users: user_views(self.users@),
            friends: friendship_views(self.friendships@),
        }
    }
}

impl Store {
    /// An empty store, trivially well formed.
    pub fn new() -> (r: Store)
        ensures
            r@.wf(),
            r@.users.len() == 0,
            r@.friends.len() == 0,
    {
        Store { users: Vec::new(), friendships: Vec::new() }
    }

    /// The authentication write: refresh the liveness timestamp of the
    /// identity holding `token` and hand the refreshed identity back, or
    /// report that no identity holds it.
    pub fn touch_token(&mut self, token: u128, now: i64) -> (r: Option<User>)
        requires
            old(self)@.wf(),
            0 <= now,
        ensures
            final(self)@ == spec_touch(old(self)@, token, now).0,
            match r {
                Some(u) => spec_touch(old(self)@, token, now).1 == Some(u@),
                None => spec_touch(old(self)@, token, now).1 is None,
            },
            final(self)@.wf(),
    {
        let ghost m0 = self@;
        match find_user_index_by_token(&self.users, token) {
            None => {
                proof {
                    assert(user_index_by_token(m0.users, token) is None);
                }
                None
            },
            Some(k) => {
                proof {
                    lemma_token_index_of(m0.users, token, k as int);
                }
                let old_user = self.users.remove(k);
                let new_user = User {
                    username: old_user.username,
                    token: old_user.token,
                    last_location: old_user.last_location,
                    last_online: now,
                    completion: old_user.completion,
                };
                let ret = new_user.clone();
                self.users.insert(k, new_user);
                proof {
                    assert(self@.users =~= m0.users.update(k as int, ret@));
                    lemma_touch_wf(m0, token, now);
                }
                Some(ret)
            },
        }
    }
}

/// Linear scan for the identity named `name`: the first hit, or the
/// certainty that none is stored.
pub fn find_user_index_by_name(users: &Vec<User>, name: &String) -> (r: Option<usize>)
    ensures
        match r {
            Some(i) => i < users@.len() && user_views(users@)[i as int].username == name@,
            None => forall|j: int|
                0 <= j < users@.len() ==> user_views(users@)[j].username != name@,
        },
{
    let mut i: usize = 0;
    while i < users.len()
        invariant
            i <= users@.len(),
            forall|j: int| 0 <= j < i ==> user_views(users@)[j].username != name@,
        decreases users@.len() - i,
    {
        if users[i].username == *name {
            return Some(i);
        }
        i += 1;
    }
    None
}

/// Linear scan for the identity holding `token`: the first hit, or the
/// certainty that none is stored.
pub fn find_user_index_by_token(users: &Vec<User>, token: u128) -> (r: Option<usize>)
    ensures
        match r {
            Some(i) => i < users@.len() && user_views(users@)[i as int].token == token,
            None => forall|j: int| 0 <= j < users@.len() ==> user_views(users@)[j].token != token,
        },
{
    let mut i: usize = 0;
    while i < users.len()
        invariant
            i <= users@.len(),
            forall|j: int| 0 <= j < i ==> user_views(users@)[j].token != token,
        decreases users@.len() - i,
    {
        if users[i].token == token {
            return Some(i);
        }
        i += 1;
    }
    None
}

/// Linear scan for the row standing for the unordered pair `{a, b}`: the
/// first hit, or the certainty that none is stored.
pub fn find_pair_index(friendships: &Vec<Friendship>, a: &String, b: &String) -> (r: Option<usize>)
    ensures
        match r {
            Some(i) => i < friendships@.len() && same_pair(
                friendship_views(friendships@)[i as int],
                a@,
                b@,
            ),
            None => forall|j: int|
                0 <= j < friendships@.len() ==> !same_pair(
                    friendship_views(friendships@)[j],
                    a@,
                    b@,
                ),
        },
{
    let mut i: usize = 0;
    while i < friendships.len()
        invariant
            i <= friendships@.len(),
            forall|j: int| 0 <= j < i ==> !same_pair(friendship_views(friendships@)[j], a@, b@),
        decreases friendships@.len() - i,
    {
        let f = &friendships[i];
        if (f.source == *a && f.target == *b) || (f.source == *b && f.target == *a) {
            return Some(i);
        }
        i += 1;
    }
    None
}

/// Registration preserves the store invariant.
pub proof fn lemma_register_wf(
    m: StoreModel,
    username: Seq<char>,
    loc: Option<GeoPoint>,
    token: u128,
    now: i64,
)
    requires
        m.wf(),
        0 <= now,
        match loc {
            Some(p) => valid_point(p),
            None => true,
        },
    ensures
        spec_register(m, username, loc, token, now).0.wf(),
{
    let m1 = spec_register(m, username, loc, token, now).0;
    if user_index_by_name(m.users, username) is None && user_index_by_token(m.users, token)
        is None {
        let n = m.users.len() as int;
        assert forall|i: int, j: int| 0 <= i < j < m1.users.len() implies (m1.users[i].username
            != m1.users[j].username && m1.users[i].token != m1.users[j].token) by {
            if j < n {
                assert(m.users[i] == m1.users[i] && m.users[j] == m1.users[j]);
            } else {
                assert(m1.users[i] == m.users[i]);
                assert(!(0 <= i < m.users.len() && m.users[i].username == username));
                assert(!(0 <= i < m.users.len() && m.users[i].token == token));
            }
        }
        assert forall|i: int| 0 <= i < m1.users.len() implies valid_user(m1.users[i]) by {
            if i < n {
                assert(m1.users[i] == m.users[i]);
            }
        }
    }
}

/// A friend request preserves the store invariant.
pub proof fn lemma_addfriend_wf(m: StoreModel, source: Seq<char>, target: Seq<char>, now: i64)
    requires
        m.wf(),
        0 <= now,
    ensures
        spec_addfriend(m, source, target, now).0.wf(),
{
    let m1 = spec_addfriend(m, source, target, now).0;
    if source != target {
        match pair_index(m.friends, source, target) {
            None => {
                let n = m.friends.len() as int;
                assert forall|i: int, j: int| 0 <= i < j < m1.friends.len() implies !same_pair(
                    m1.friends[j],
                    m1.friends[i].source,
                    m1.friends[i].target,
                ) by {
                    if j < n {
                        assert(m.friends[i] == m1.friends[i] && m.friends[j] == m1.friends[j]);
                    } else {
                        assert(m1.friends[i] == m.friends[i]);
                        assert(!(0 <= i < m.friends.len() && same_pair(
                            m.friends[i],
                            source,
                            target,
                        )));
                    }
                }
                assert forall|i: int| 0 <= i < m1.friends.len() implies valid_row(
                    m1.friends[i],
                ) by {
                    if i < n {
                        assert(m1.friends[i] == m.friends[i]);
                    }
                }
            },
            Some(k) => {
                if m.friends[k].source != source {
                    assert(exists|i: int|
                        0 <= i < m.friends.len() && same_pair(#[trigger] m.friends[i], source, target));
                    assert forall|i: int, j: int| 0 <= i < j < m1.friends.len() implies !same_pair(
                        m1.friends[j],
                        m1.friends[i].source,
                        m1.friends[i].target,
                    ) by {
                        assert(m1.friends[i].source == m.friends[i].source && m1.friends[i].target
                            == m.friends[i].target);
                        assert(m1.friends[j].source == m.friends[j].source && m1.friends[j].target
                            == m.friends[j].target);
                    }
                    assert forall|i: int| 0 <= i < m1.friends.len() implies valid_row(
                        m1.friends[i],
                    ) by {
                        if i != k {
                            assert(m1.friends[i] == m.friends[i]);
                        }
                    }
                }
            },
        }
    }
}

/// The authentication write preserves the store invariant.
pub proof fn lemma_touch_wf(m: StoreModel, token: u128, now: i64)
    requires
        m.wf(),
        0 <= now,
    ensures
        spec_touch(m, token, now).0.wf(),
{
    let m1 = spec_touch(m, token, now).0;
    match user_index_by_token(m.users, token) {
        None => {},
        Some(k) => {
            assert(exists|i: int| 0 <= i < m.users.len() && #[trigger] m.users[i].token == token);
            assert forall|i: int, j: int| 0 <= i < j < m1.users.len() implies (m1.users[i].username
                != m1.users[j].username && m1.users[i].token != m1.users[j].token) by {
                assert(m1.users[i].username == m.users[i].username && m1.users[i].token
                    == m.users[i].token);
                assert(m1.users[j].username == m.users[j].username && m1.users[j].token
                    == m.users[j].token);
            }
            assert forall|i: int| 0 <= i < m1.users.len() implies valid_user(m1.users[i]) by {
                if i != k {
                    assert(m1.users[i] == m.users[i]);
                }
            }
        },
    }
}

/// The field update preserves the store invariant.
pub proof fn lemma_update_wf(m: StoreModel, token: u128, loc: GeoPoint, completion: i32, now: i64)
    requires
        m.wf(),
        0 <= now,
        valid_point(loc),
    ensures
        spec_update(m, token, loc, completion, now).wf(),
{
    let m1 = spec_update(m, token, loc, completion, now);
    match user_index_by_token(m.users, token) {
        None => {},
        Some(k) => {
            assert(exists|i: int| 0 <= i < m.users.len() && #[trigger] m.users[i].token == token);
            assert forall|i: int, j: int| 0 <= i < j < m1.users.len() implies (m1.users[i].username
                != m1.users[j].username && m1.users[i].token != m1.users[j].token) by {
                assert(m1.users[i].username == m.users[i].username && m1.users[i].token
                    == m.users[i].token);
                assert(m1.users[j].username == m.users[j].username && m1.users[j].token
                    == m.users[j].token);
            }
            assert forall|i: int| 0 <= i < m1.users.len() implies valid_user(m1.users[i]) by {
                if i != k {
                    assert(m1.users[i] == m.users[i]);
                }
            }
        },
    }
}

/// A friend request from an identity to itself is rejected outright and
/// never stored, whatever the state of the store.
pub proof fn lemma_self_request_rejected(m: StoreModel, a: Seq<char>, now: i64)
    ensures
        spec_addfriend(m, a, a, now) == (m, Err::<(), ApiError>(ApiError::SelfFriendRequest)),
{
}

/// Repeating a friend request leaves the relationship exactly as the
/// single request left it, whatever state the pair was in, as long as time
/// does not run backwards between the two calls.
pub proof fn lemma_addfriend_idempotent(
    m: StoreModel,
    a: Seq<char>,
    b: Seq<char>,
    n1: i64,
    n2: i64,
)
    requires
        m.wf(),
        0 <= n1 <= n2,
    ensures
        spec_addfriend(spec_addfriend(m, a, b, n1).0, a, b, n2) == spec_addfriend(m, a, b, n1),
{
    let m1 = spec_addfriend(m, a, b, n1).0;
    lemma_addfriend_wf(m, a, b, n1);
    if a != b {
        match pair_index(m.friends, a, b) {
            None => {
                let n = m.friends.len() as int;
                let row = FriendRow { source: a, target: b, accepted: None };
                assert(m1.friends[n] == row);
                lemma_pair_index_of(m1.friends, a, b, n);
            },
            Some(k) => {
                assert(exists|i: int|
                    0 <= i < m.friends.len() && same_pair(#[trigger] m.friends[i], a, b));
                if m.friends[k].source == a {
                } else {
                    let row1 = FriendRow {
                        source: m.friends[k].source,
                        target: m.friends[k].target,
                        accepted: accept_time(m.friends[k].accepted, n1),
                    };
                    assert(m1.friends[k] == row1);
                    lemma_pair_index_of(m1.friends, a, b, k);
                    assert(accept_time(row1.accepted, n2) == row1.accepted);
                    assert(m1.friends.update(k, row1) =~= m1.friends);
                }
            },
        }
    }
}

/// Two opposite-direction friend requests converge to exactly one
/// accepted row for the pair, whichever order they are applied in; the
/// initiator of the first request is recorded as source and the second
/// request's time as the acceptance time.
pub proof fn lemma_addfriend_converges(
    m: StoreModel,
    a: Seq<char>,
    b: Seq<char>,
    n1: i64,
    n2: i64,
)
    requires
        m.wf(),
        a != b,
        0 <= n1,
        0 <= n2,
        pair_index(m.friends, a, b) is None,
    ensures
        ({
            let m1 = spec_addfriend(m, a, b, n1).0;
            let m2 = spec_addfriend(m1, b, a, n2).0;
            &&& spec_addfriend(m, a, b, n1).1 == Ok::<(), ApiError>(())
            &&& spec_addfriend(m1, b, a, n2).1 == Ok::<(), ApiError>(())
            &&& m2.users == m.users
            &&& m2.friends == m.friends.push(
                FriendRow { source: a, target: b, accepted: Some(n2) },
            )
            &&& pair_index(m2.friends, a, b) == Some(m.friends.len() as int)
        }),
{
    let m1 = spec_addfriend(m, a, b, n1).0;
    lemma_addfriend_wf(m, a, b, n1);
    let n = m.friends.len() as int;
    let row = FriendRow { source: a, target: b, accepted: None };
    assert(m1.friends[n] == row);
    lemma_pair_index_of(m1.friends, b, a, n);
    let m2 = spec_addfriend(m1, b, a, n2).0;
    let row2 = FriendRow { source: a, target: b, accepted: Some(n2) };
    assert(m2.friends =~= m.friends.push(row2));
    lemma_addfriend_wf(m1, b, a, n2);
    lemma_pair_index_of(m2.friends, a, b, n);
}

/// Registration succeeds on a fresh username and a fresh credential, and
/// then the example flow holds in full: the returned identity and the one
/// appended row carry the given name, credential and location, the call
/// time as the liveness timestamp, and a progress marker of zero, with the
/// friendship table untouched. Credential freshness stands as an assumption
/// here because the store-assigned credential enters the model as a
/// parameter.
pub proof fn lemma_register_success(
    m: StoreModel,
    username: Seq<char>,
    loc: Option<GeoPoint>,
    token: u128,
    now: i64,
)
    requires
        user_index_by_name(m.users, username) is None,
        user_index_by_token(m.users, token) is None,
    ensures
        ({
            let u = UserModel {
                username,
                token,
                last_location: loc,
                last_online: now,
                completion: 0,
            };
            &&& spec_register(m, username, loc, token, now).1 == Ok::<UserModel, ApiError>(u)
            &&& spec_register(m, username, loc, token, now).0.users == m.users.push(u)
            &&& spec_register(m, username, loc, token, now).0.friends == m.friends
        }),
{
}

/// Once a registration for a name has succeeded, registering the same
/// name again fails with `Conflict`, changes nothing, and exactly one
/// identity with that name is stored.
pub proof fn lemma_register_conflict(
    m: StoreModel,
    username: Seq<char>,
    loc1: Option<GeoPoint>,
    loc2: Option<GeoPoint>,
    t1: u128,
    t2: u128,
    n1: i64,
    n2: i64,
)
    requires
        m.wf(),
        0 <= n1,
        match loc1 {
            Some(p) => valid_point(p),
            None => true,
        },
        spec_register(m, username, loc1, t1, n1).1 is Ok,
    ensures
        ({
            let m1 = spec_register(m, username, loc1, t1, n1).0;
            &&& spec_register(m1, username, loc2, t2, n2) == (
                m1,
                Err::<UserModel, ApiError>(ApiError::Conflict),
            )
            &&& forall|i: int|
                0 <= i < m1.users.len() && (#[trigger] m1.users[i]).username == username ==> i
                    == m.users.len()
            &&& m1.users[m.users.len() as int].username == username
        }),
{
    let m1 = spec_register(m, username, loc1, t1, n1).0;
    lemma_register_wf(m, username, loc1, t1, n1);
    let n = m.users.len() as int;
    assert(m1.users[n].username == username);
    lemma_name_index_of(m1.users, username, n);
    assert forall|i: int|
        0 <= i < m1.users.len() && (#[trigger] m1.users[i]).username == username implies i == n by {
        if i != n {
            lemma_name_index_of(m1.users, username, i);
        }
    }
}

} // verus!
