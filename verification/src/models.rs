use vstd::prelude::*;

verus! {

/// Largest coordinate magnitude a stored location may carry. Coordinates are
/// scaled integers; the bound keeps every squared distance inside `i128`.
pub const COORD_LIMIT: i64 = 4_000_000_000;

/// Proximity threshold: a peer is near when the squared distance between the
/// two locations is at most `DISTANCE_THRESHOLD * DISTANCE_THRESHOLD`.
pub const DISTANCE_THRESHOLD: i64 = 1000;

/// Liveness window of the proximity query: only peers seen strictly within
/// the trailing five minutes count as active.
pub const RECENCY_WINDOW_SECS: i64 = 300;

/// A two-dimensional location in scaled integer coordinates.
#[derive(Clone, Copy, Debug, PartialEq, Eq, Structural)]
pub struct GeoPoint {
    pub x: i64,
    pub y: i64,
}

/// A point whose coordinates stay within `COORD_LIMIT` in magnitude.
pub open spec fn valid_point(p: GeoPoint) -> bool {
    &&& -COORD_LIMIT <= p.x <= COORD_LIMIT
    &&& -COORD_LIMIT <= p.y <= COORD_LIMIT
}

/// Squared Euclidean distance between two points, over the mathematical
/// integers.
pub open spec fn dist_sq(p: GeoPoint, q: GeoPoint) -> int {
    (p.x - q.x) * (p.x - q.x) + (p.y - q.y) * (p.y - q.y)
}

/// Computes the squared distance between two bounded points exactly.
pub fn dist_sq_exec(p: GeoPoint, q: GeoPoint) -> (r: i128)
    requires
        valid_point(p),
        valid_point(q),
    ensures
        r == dist_sq(p, q),
{
    let dx: i128 = p.x as i128 - q.x as i128;
    let dy: i128 = p.y as i128 - q.y as i128;
    proof {
        assert(dx * dx + dy * dy <= 2 * ((2 * COORD_LIMIT) as int * (2 * COORD_LIMIT) as int)
            && dx * dx >= 0 && dy * dy >= 0) by (nonlinear_arith)
            requires
                -2 * (COORD_LIMIT as int) <= dx <= 2 * (COORD_LIMIT as int),
                -2 * (COORD_LIMIT as int) <= dy <= 2 * (COORD_LIMIT as int),
        ;
    }
    dx * dx + dy * dy
}

/// A registered identity: the username is the immutable key, the token the
/// opaque bearer credential bound one-to-one to it, `last_online` the
/// liveness timestamp in seconds, and `completion` the progress marker.
pub struct User {
    pub username: String,
    pub token: u128,
    pub last_location: Option<GeoPoint>,
    pub last_online: i64,
    pub completion: i32,
}

/// The mathematical value of a `User`.
pub ghost struct UserModel {
    pub username: Seq<char>,
    pub token: u128,
    pub last_location: Option<GeoPoint>,
    pub last_online: i64,
    pub completion: i32,
}

impl View for User {
    type V = UserModel;

    open spec fn view(&self) -> UserModel {
        UserModel {
            username: self.username@,
            token: self.token,
            last_location: self.last_location,
            last_online: self.last_online,
            completion: self.completion,
        }
    }
}

impl Clone for User {
    fn clone(&self) -> (r: Self)
        ensures
            r@ == self@,
    {
        User {
            username: self.username.clone(),
            token: self.token,
            last_location: self.last_location,
            last_online: self.last_online,
            completion: self.completion,
        }
    }
}

/// One relationship row: `source` is the initiator, `accepted` is the
/// acceptance time, still pending while `None`. Exactly one row exists per
/// unordered pair of usernames.
pub struct Friendship {
    pub source: String,
    pub target: String,
    pub accepted: Option<i64>,
}

/// The mathematical value of a `Friendship` row.
pub ghost struct FriendRow {
    pub source: Seq<char>,
    pub target: Seq<char>,
    pub accepted: Option<i64>,
}

impl View for Friendship {
    type V = FriendRow;

    open spec fn view(&self) -> FriendRow {
        FriendRow { source: self.source@, target: self.target@, accepted: self.accepted }
    }
}

impl Clone for Friendship {
    fn clone(&self) -> (r: Self)
        ensures
            r@ == self@,
    {
        Friendship {
            source: self.source.clone(),
            target: self.target.clone(),
            accepted: self.accepted,
        }
    }
}

/// One proximity result: a projection of an identity at query time.
pub struct Nearby {
    pub username: String,
    pub last_location: GeoPoint,
    pub last_online: i64,
}

/// The mathematical value of a `Nearby` entry.
pub ghost struct NearbyModel {
    pub username: Seq<char>,
    pub last_location: GeoPoint,
    pub last_online: i64,
}

impl View for Nearby {
    type V = NearbyModel;

    open spec fn view(&self) -> NearbyModel {
        NearbyModel {
            username: self.username@,
            last_location: self.last_location,
            last_online: self.last_online,
        }
    }
}

impl Clone for Nearby {
    fn clone(&self) -> (r: Self)
        ensures
            r@ == self@,
    {
        Nearby {
            username: self.username.clone(),
            last_location: self.last_location,
            last_online: self.last_online,
        }
    }
}

} // verus!
