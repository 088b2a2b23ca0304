use geofriend::api::{addfriend, friends, nearby, register, update, NewUser, Update};
use geofriend::auth::AuthMiddleware;
use geofriend::errors::ApiError;
use geofriend::models::GeoPoint;
use geofriend::store::Store;


fn ok(r: Result<geofriend::models::User, ApiError>) -> geofriend::models::User {
    match r {
        Ok(u) => u,
        Err(_) => panic!("expected success"),
    }
}

fn err(r: Result<geofriend::models::User, ApiError>) -> ApiError {
    match r {
        Ok(_) => panic!("expected failure"),
        Err(e) => e,
    }
}

fn reg(store: &mut Store, name: &str, token: u128, now: i64) -> Result<geofriend::models::User, ApiError> {
    let nu = NewUser { username: name.to_owned(), loc: Some(GeoPoint { x: 10, y: 20 }) };
    register(store, &nu, token, now)
}

#[test]
fn register_returns_full_identity() {
    let mut store = Store::new();
    let u = ok(reg(&mut store, "alice", 7, 100));
    assert_eq!(u.username, "alice");
    assert_eq!(u.completion, 0);
    assert_eq!(u.last_online, 100);
    assert_eq!(u.last_location, Some(GeoPoint { x: 10, y: 20 }));
}

#[test]
fn register_twice_conflicts_and_keeps_one_row() {
    let mut store = Store::new();
    ok(reg(&mut store, "alice", 7, 100));
    let second = reg(&mut store, "alice", 8, 200);
    assert_eq!(err(second), ApiError::Conflict);
    assert_eq!(store.users.len(), 1);
    assert_eq!(ApiError::Conflict.message(), "Could not insert user");
}

#[test]
fn self_friend_request_rejected() {
    let mut store = Store::new();
    let a = "alice".to_owned();
    let r = addfriend(&mut store, &a, &a, 50);
    assert_eq!(r.unwrap_err(), ApiError::SelfFriendRequest);
    assert_eq!(store.friendships.len(), 0);
}

#[test]
fn addfriend_converges_and_is_idempotent() {
    let mut store = Store::new();
    let a = "alice".to_owned();
    let b = "bob".to_owned();
    addfriend(&mut store, &a, &b, 10).unwrap();
    assert_eq!(store.friendships.len(), 1);
    assert!(store.friendships[0].accepted.is_none());
    // repeat by the same initiator: no-op
    addfriend(&mut store, &a, &b, 20).unwrap();
    assert_eq!(store.friendships.len(), 1);
    assert!(store.friendships[0].accepted.is_none());
    // reciprocal request accepts
    addfriend(&mut store, &b, &a, 30).unwrap();
    assert_eq!(store.friendships.len(), 1);
    assert_eq!(store.friendships[0].accepted, Some(30));
    // repeats never regress the acceptance time
    addfriend(&mut store, &b, &a, 40).unwrap();
    addfriend(&mut store, &a, &b, 50).unwrap();
    assert_eq!(store.friendships.len(), 1);
    assert_eq!(store.friendships[0].accepted, Some(30));
    let list = friends(&store, &a);
    assert_eq!(list.len(), 1);
    assert_eq!(list[0].source, "alice");
    assert_eq!(list[0].target, "bob");
}

#[test]
fn auth_gate_failure_modes() {
    let mut store = Store::new();
    let gate = AuthMiddleware;
    assert_eq!(err(gate.start(&mut store, None, 5)), ApiError::MalformedHeader);
    assert_eq!(err(gate.start(&mut store, Some("Token abc"), 5)), ApiError::MalformedHeader);
    assert_eq!(err(gate.start(&mut store, Some("Bearer not-a-uuid"), 5)), ApiError::InvalidToken);
    let header = format!("Bearer {}", uuid::Uuid::from_u128(42));
    assert_eq!(err(gate.start(&mut store, Some(header.as_str()), 5)), ApiError::UnknownToken);
}

#[test]
fn auth_success_refreshes_liveness() {
    let mut store = Store::new();
    ok(reg(&mut store, "alice", 42, 100));
    let gate = AuthMiddleware;
    let header = format!("Bearer {}", uuid::Uuid::from_u128(42));
    let u = ok(gate.start(&mut store, Some(header.as_str()), 500));
    assert_eq!(u.username, "alice");
    assert_eq!(u.last_online, 500);
    assert_eq!(store.users[0].last_online, 500);
}

#[test]
fn update_sets_both_fields() {
    let mut store = Store::new();
    ok(reg(&mut store, "alice", 42, 100));
    let upd = Update { loc: GeoPoint { x: 1, y: 2 }, completion: 9 };
    update(&mut store, 42, &upd, 300).unwrap();
    assert_eq!(store.users[0].last_location, Some(GeoPoint { x: 1, y: 2 }));
    assert_eq!(store.users[0].completion, 9);
    assert_eq!(store.users[0].last_online, 300);
}

fn reg_at(store: &mut Store, name: &str, x: i64, y: i64, token: u128, now: i64) -> geofriend::models::User {
    let nu = NewUser { username: name.to_owned(), loc: Some(GeoPoint { x, y }) };
    ok(register(store, &nu, token, now))
}

#[test]
fn nearby_filters_by_distance_and_recency() {
    let mut store = Store::new();
    let alice = reg_at(&mut store, "alice", 10, 20, 1, 1000);
    // within the threshold but seen too long ago: excluded
    reg_at(&mut store, "carol", 10, 520, 2, 100);
    // seen just now but outside the threshold: excluded
    reg_at(&mut store, "dave", 10, 2000, 3, 1000);
    // both filters hold: included
    let bob = reg_at(&mut store, "bob", 10, 520, 4, 900);
    let eve = reg_at(&mut store, "eve", 10, 120, 5, 1000);
    let r = nearby(&store, &alice, 1000);
    assert_eq!(r.len(), 2);
    // ordered ascending by distance: eve (100) before bob (500)
    assert_eq!(r[0].username, "eve");
    assert_eq!(r[0].last_location, GeoPoint { x: 10, y: 120 });
    assert_eq!(r[0].last_online, eve.last_online);
    assert_eq!(r[1].username, "bob");
    assert_eq!(r[1].last_location, GeoPoint { x: 10, y: 520 });
    assert_eq!(r[1].last_online, bob.last_online);
}

#[test]
fn nearby_boundary_cases() {
    let mut store = Store::new();
    let alice = reg_at(&mut store, "alice", 0, 0, 1, 1000);
    // exactly on the distance threshold: included
    reg_at(&mut store, "edge", 0, 1000, 2, 1000);
    // seen exactly at the window's edge: excluded (the window is strict)
    reg_at(&mut store, "stale", 0, 10, 3, 700);
    let r = nearby(&store, &alice, 1000);
    assert_eq!(r.len(), 1);
    assert_eq!(r[0].username, "edge");
}

#[test]
fn nearby_without_location_is_empty() {
    let mut store = Store::new();
    let nu = NewUser { username: "noloc".to_owned(), loc: None };
    let caller = ok(register(&mut store, &nu, 1, 1000));
    reg_at(&mut store, "bob", 0, 0, 2, 1000);
    let r = nearby(&store, &caller, 1000);
    assert_eq!(r.len(), 0);
}

#[test]
fn nearby_keeps_equally_distant_peers() {
    let mut store = Store::new();
    let alice = reg_at(&mut store, "alice", 0, 0, 1, 1000);
    reg_at(&mut store, "north", 0, 100, 2, 1000);
    reg_at(&mut store, "east", 100, 0, 3, 1000);
    let r = nearby(&store, &alice, 1000);
    assert_eq!(r.len(), 2);
    let mut names: Vec<String> = r.iter().map(|n| n.username.clone()).collect();
    names.sort();
    assert_eq!(names, vec!["east".to_owned(), "north".to_owned()]);
}
