//! Who may change the store: a request must carry a token that verifies and
//! that grants the scope `admin`.
//!
//! Verifying a token's signature is the caller's work. This module finds the
//! tokens in the request and decides from what the verification said.
use crate::error::Status;
use crate::text::{contains, has_prefix, slice, to_chars, views};
use vstd::prelude::*;
use vstd::string::StringExecFns;

verus! {

/// A request that may change the store, with the token that allows it.
#[derive(Debug, PartialEq, Eq)]
pub struct ApiAuth {
    pub token: String,
}

/// Why a request may not change the store.
#[derive(Clone, Copy, Debug, PartialEq, Eq, Structural)]
pub enum ApiError {
    /// No token of the request verifies.
    Nil,
    /// The token verifies but does not grant the scope `admin`.
    NoAdminScope,
}

impl ApiError {
    /// What the error says.
    pub open spec fn text(self) -> Seq<char> {
        match self {
            ApiError::Nil => "Fail to verify token"@,
            ApiError::NoAdminScope => "Token has no admin scope as required"@,
        }
    }

    /// What the error says.
    pub fn message(&self) -> (r: String)
        ensures
            r@ == self.text(),
    {
        match self {
            ApiError::Nil => String::from_str("Fail to verify token"),
            ApiError::NoAdminScope => String::from_str("Token has no admin scope as required"),
        }
    }

    /// The status that answers the request: `Forbidden`.
    pub fn status(&self) -> (r: Status)
        ensures
            r == Status::Forbidden,
    {
        Status::Forbidden
    }
}

/// How a header that carries a token starts.
pub open spec fn bearer_prefix() -> Seq<char> {
    "Bearer "@
}

/// The token that the header `header` carries, if it carries one.
pub open spec fn token_of(header: Seq<char>) -> Option<Seq<char>> {
    if bearer_prefix().is_prefix_of(header) {
        Some(header.skip(bearer_prefix().len() as int))
    } else {
        None
    }
}

/// The token that an `Authorization` header carries: what follows `Bearer `.
pub fn bearer(header: &str) -> (r: Option<String>)
    ensures
        match r {
            Some(t) => token_of(header@) == Some(t@),
            None => token_of(header@).is_none(),
        },
{
    let v = to_chars(header);
    let p = to_chars("Bearer ");
    if has_prefix(&v, &p) {
        Some(slice(header, p.len(), v.len()))
    } else {
        None
    }
}

/// A token of the request, with the scopes that it grants where it verifies.
#[derive(Debug, PartialEq, Eq)]
pub struct Candidate {
    pub token: String,
    /// `None` where the token does not verify.
    pub scopes: Option<Vec<String>>,
}

/// What a [`Candidate`] holds.
pub ghost struct CandidateView {
    pub token: Seq<char>,
    pub scopes: Option<Seq<Seq<char>>>,
}

impl View for Candidate {
    type V = CandidateView;

    open spec fn view(&self) -> CandidateView {
        CandidateView {
            token: self.token@,
            scopes: match self.scopes {
                Some(s) => Some(views(s@)),
                None => None,
            },
        }
    }
}

/// The views of the candidates in `v`, in order.
pub open spec fn candidate_views(v: Seq<Candidate>) -> Seq<CandidateView> {
    v.map_values(|c: Candidate| c@)
}

/// Whether candidate `i` is the first whose token verifies.
pub open spec fn is_first_verified(c: Seq<CandidateView>, i: int) -> bool {
    &&& 0 <= i < c.len()
    &&& c[i].scopes.is_some()
    &&& forall|j: int| 0 <= j < i ==> (#[trigger] c[j]).scopes.is_none()
}

/// Whether `r` is the decision on a request with the tokens `c`: the first
/// token that verifies allows the request if it grants the scope `admin`, and
/// forbids it if not; a request without a token that verifies is forbidden.
pub open spec fn decided(c: Seq<CandidateView>, r: Result<ApiAuth, ApiError>) -> bool {
    match r {
        Ok(auth) => exists|i: int|
            is_first_verified(c, i) && (#[trigger] c[i]).scopes.unwrap().contains("admin"@)
                && auth.token@ == c[i].token,
        Err(ApiError::NoAdminScope) => exists|i: int|
            is_first_verified(c, i) && !(#[trigger] c[i]).scopes.unwrap().contains("admin"@),
        Err(ApiError::Nil) => forall|j: int| 0 <= j < c.len() ==> (#[trigger] c[j]).scopes.is_none(),
    }
}

impl ApiAuth {
    /// Decides whether a request may change the store, from the tokens it
    /// carries in the order of its headers.
    pub fn from_request(candidates: &Vec<Candidate>) -> (r: Result<ApiAuth, ApiError>)
        ensures
            decided(candidate_views(candidates@), r),
    {
        let admin = String::from_str("admin");
        let ghost c = candidate_views(candidates@);
        let mut i: usize = 0;
        while i < candidates.len()
            invariant
                i <= candidates.len(),
                c == candidate_views(candidates@),
                admin@ == "admin"@,
                forall|j: int| 0 <= j < i ==> (#[trigger] c[j]).scopes.is_none(),
            decreases candidates.len() - i,
        {
            match &candidates[i].scopes {
                Some(scopes) => {
                    assert(is_first_verified(c, i as int));
                    assert(c[i as int].scopes.unwrap() == views(scopes@));
                    if contains(scopes, &admin) {
                        return Ok(ApiAuth { token: candidates[i].token.clone() });
                    } else {
                        return Err(ApiError::NoAdminScope);
                    }
                },
                None => {},
            }
            i += 1;
        }
        Err(ApiError::Nil)
    }
}

} // verus!
