use crate::api::result_view;
use crate::errors::ApiError;
use crate::models::{User, UserModel};
use crate::store::{spec_touch, Store, StoreModel};
use vstd::prelude::*;
use vstd::string::StrSliceExecFns;

verus! {

/// The 128-bit unique identifier a string of characters denotes, if any:
/// the value `uuid::Uuid::parse_str` reads out of it.
pub uninterp spec fn uuid_of(s: Seq<char>) -> Option<u128>;

/// Relies on uuid::Uuid::parse_str: whether a string is a valid textual
/// 128-bit unique identifier, and which value it denotes, depend on its
/// characters alone.
#[verifier::external_body]
fn parse_uuid(s: &str) -> (r: Option<u128>)
    ensures
        r == uuid_of(s@),
{
    match uuid::Uuid::parse_str(s) {
        Ok(u) => Some(u.as_u128()),
        Err(_) => None,
    }
}

/// The bearer credential inside an authorization header: everything after
/// the mandatory `Bearer ` prefix.
pub open spec fn parse_bearer(h: Seq<char>) -> Option<Seq<char>> {
    if h.len() >= 7 && h.subrange(0, 7) == "Bearer "@ {
        Some(h.subrange(7, h.len() as int))
    } else {
        None
    }
}

/// An optional header value, seen as its characters.
pub open spec fn header_view(h: Option<&str>) -> Option<Seq<char>> {
    match h {
        None => None,
        Some(s) => Some(s@),
    }
}

/// The whole authentication gate, as one step of the store: each failure is
/// a distinct kind, and a success refreshes the caller's liveness timestamp
/// even on read-only calls.
pub open spec fn spec_authenticate(m: StoreModel, header: Option<Seq<char>>, now: i64) -> (
    StoreModel,
    Result<UserModel, ApiError>,
) {
    match header {
        None => (m, Err(ApiError::MalformedHeader)),
        Some(h) => match parse_bearer(h) {
            None => (m, Err(ApiError::MalformedHeader)),
            Some(rest) => match uuid_of(rest) {
                None => (m, Err(ApiError::InvalidToken)),
                Some(t) => {
                    let step = spec_touch(m, t, now);
                    match step.1 {
                        None => (m, Err(ApiError::UnknownToken)),
                        Some(u) => (step.0, Ok(u)),
                    }
                },
            },
        },
    }
}

/// Checks the `Bearer ` prefix and hands back the credential after it.
fn strip_bearer(h: &str) -> (r: Option<&str>)
    ensures
        match r {
            Some(rest) => parse_bearer(h@) == Some(rest@),
            None => parse_bearer(h@) is None,
        },
{
    let n = h.unicode_len();
    if n < 7 {
        return None;
    }
    let prefix = "Bearer ";
    proof {
        reveal_strlit("Bearer ");
    }
    let mut i: usize = 0;
    while i < 7
        invariant
            0 <= i <= 7,
            n == h@.len(),
            7 <= n,
            prefix@ == "Bearer "@,
            prefix@.len() == 7,
            forall|j: int| 0 <= j < i ==> h@[j] == "Bearer "@[j],
        decreases 7 - i,
    {
        if h.get_char(i) != prefix.get_char(i) {
            proof {
                assert(h@.subrange(0, 7) != "Bearer "@) by {
                    if h@.subrange(0, 7) == "Bearer "@ {
                        assert(h@.subrange(0, 7)[i as int] == h@[i as int]);
                    }
                }
            }
            return None;
        }
        i += 1;
    }
    proof {
        assert(h@.subrange(0, 7) =~= "Bearer "@);
    }
    Some(h.substring_char(7, n))
}

/// The authentication gate standing before every handler but registration.
pub struct AuthMiddleware;

impl AuthMiddleware {
    /// Validates the authorization header, resolves the bearer credential to
    /// its identity through the store, and refreshes that identity's
    /// liveness timestamp. A missing header or one without the `Bearer `
    /// prefix fails `MalformedHeader`; a credential that is no 128-bit
    /// unique identifier fails `InvalidToken`; an unknown credential fails
    /// `UnknownToken`.
    pub fn start(&self, store: &mut Store, header: Option<&str>, now: i64) -> (r: Result<
        User,
        ApiError,
    >)
        requires
            old(store)@.wf(),
            0 <= now,
        ensures
            final(store)@ == spec_authenticate(old(store)@, header_view(header), now).0,
            result_view(r) == spec_authenticate(old(store)@, header_view(header), now).1,
            final(store)@.wf(),
    {
        let h = match header {
            None => {
                return Err(ApiError::MalformedHeader);
            },
            Some(h) => h,
        };
        let rest = match strip_bearer(h) {
            None => {
                return Err(ApiError::MalformedHeader);
            },
            Some(rest) => rest,
        };
        let token = match parse_uuid(rest) {
            None => {
                return Err(ApiError::InvalidToken);
            },
            Some(t) => t,
        };
        match store.touch_token(token, now) {
            None => Err(ApiError::UnknownToken),
            Some(u) => Ok(u),
        }
    }
}

} // verus!
