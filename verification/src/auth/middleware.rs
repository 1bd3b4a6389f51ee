//! Bearer to [`Principal`]. [`authenticate`] runs on every protected route and
//! gives the key's identity; [`require`] turns a missing scope into 403. Both
//! answer with [`Error`], so the body is the standard envelope.

use crate::auth::keys::{self, is_key, key_parts_are_unique, scope_name, stored_hash, Scope, ScopeSet};
use crate::auth::rate_limit::{checked, RateLimiter};
use crate::clock::unix_nanos;
use crate::db::{revoked, touched, Db, KeyRowView};
use crate::error::{outcome, Error, ErrorView, Result};
use crate::text::{begins_with, strip_prefix, trim, trimmed};
use vstd::prelude::*;

verus! {

/// Who is asking, and what they may do.
#[derive(Debug)]
pub struct Principal {
    pub key_id: String,
    pub name: String,
    pub scopes: ScopeSet,
}

#[verifier::ext_equal]
pub struct PrincipalView {
    pub key_id: Seq<char>,
    pub name: Seq<char>,
    pub scopes: Set<Scope>,
}

impl View for Principal {
    type V = PrincipalView;

    open spec fn view(&self) -> PrincipalView {
        PrincipalView { key_id: self.key_id@, name: self.name@, scopes: self.scopes@ }
    }
}

impl DeepView for Principal {
    type V = PrincipalView;

    open spec fn deep_view(&self) -> PrincipalView {
        self@
    }
}

/// What a check of one scope answers.
pub open spec fn allowed(scopes: Set<Scope>, scope: Scope) -> std::result::Result<(), ErrorView> {
    if scopes.contains(scope) {
        Ok(())
    } else {
        Err(ErrorView::Forbidden(scope_name(scope)))
    }
}

impl Clone for Principal {
    fn clone(&self) -> (r: Principal)
        ensures
            r@ == self@,
    {
        Principal {
            key_id: self.key_id.clone(),
            name: self.name.clone(),
            scopes: self.scopes.clone(),
        }
    }
}

impl Principal {
    pub fn require(&self, scope: Scope) -> (r: Result<()>)
        ensures
            outcome(r) == allowed(self@.scopes, scope),
    {
        if self.scopes.has(scope) {
            Ok(())
        } else {
            Err(Error::Forbidden(scope.as_str()))
        }
    }
}

pub struct AuthState {
    pub db: Db,
    pub limiter: RateLimiter,
}

impl AuthState {
    pub open spec fn wf(self) -> bool {
        self.db.wf() && self.limiter.wf()
    }
}

/// What an `Authorization` header presents as a key; nothing, where it is no
/// bearer.
pub open spec fn bearer(authorization: Option<Seq<char>>) -> Seq<char> {
    match authorization {
        Some(header) => if begins_with(header, "Bearer "@) {
            trimmed(header.skip("Bearer "@.len() as int))
        } else {
            Seq::empty()
        },
        None => Seq::empty(),
    }
}

/// The text is the key of that row: it has the row's id and its secret, and the
/// row is not revoked.
pub open spec fn opens(
    table: Map<Seq<char>, KeyRowView>,
    presented: Seq<char>,
    id: Seq<char>,
    secret: Seq<char>,
) -> bool {
    &&& is_key(presented, id, secret)
    &&& table.contains_key(id)
    &&& table[id].revoked_at is None
    &&& table[id].secret_sha256 == stored_hash(secret)
}

/// The row whose key is presented, if there is one.
pub open spec fn holder(
    table: Map<Seq<char>, KeyRowView>,
    presented: Seq<char>,
) -> Option<KeyRowView> {
    if exists|id: Seq<char>, secret: Seq<char>| opens(table, presented, id, secret) {
        let (id, _) = choose|id: Seq<char>, secret: Seq<char>| opens(table, presented, id, secret);
        Some(table[id])
    } else {
        None
    }
}

/// What a request is answered. Without a valid key it is refused and changes
/// nothing, and the refusal is the same whatever was wrong. With one it counts
/// against the key's rate; where that allows it, the use is recorded.
pub open spec fn authenticated(
    before: AuthState,
    after: AuthState,
    presented: Seq<char>,
    moment: u64,
    nanos: i128,
    r: Result<Principal>,
) -> bool {
    match holder(before.db@, presented) {
        None => {
            &&& outcome(r) == Err::<PrincipalView, ErrorView>(ErrorView::Unauthorized)
            &&& after == before
        },
        Some(row) => exists|answer: std::result::Result<(), u32>|
            {
                &&& #[trigger] checked(before.limiter, after.limiter, row.id, moment, answer)
                &&& match answer {
                    Err(retry_after_secs) => {
                        &&& outcome(r) == Err::<PrincipalView, ErrorView>(
                            ErrorView::RateLimited { retry_after_secs },
                        )
                        &&& after.db@ == before.db@
                    },
                    Ok(_) => {
                        &&& outcome(r) == Ok::<PrincipalView, ErrorView>(
                            PrincipalView {
                                key_id: row.id,
                                name: row.name,
                                scopes: row.scopes.to_set(),
                            },
                        )
                        &&& after.db@ == touched(before.db@, row.id, nanos)
                    },
                }
            },
    }
}

proof fn holder_is_found(
    table: Map<Seq<char>, KeyRowView>,
    presented: Seq<char>,
    id: Seq<char>,
    secret: Seq<char>,
)
    requires
        is_key(presented, id, secret),
    ensures
        holder(table, presented) == (if opens(table, presented, id, secret) {
            Some(table[id])
        } else {
            None
        }),
{
    assert forall|i: Seq<char>, s: Seq<char>| opens(table, presented, i, s) implies i == id && s
        == secret by {
        key_parts_are_unique(presented, id, secret, i, s);
    }
    if opens(table, presented, id, secret) {
        let (i, s) = choose|i: Seq<char>, s: Seq<char>| opens(table, presented, i, s);
        assert(opens(table, presented, i, s));
    }
}

/// The identity behind a request, from its `Authorization` header. It depends
/// on the moment of the call, as [`authenticate_at`] says for each moment.
pub fn authenticate(auth: &mut AuthState, authorization: Option<&str>) -> (r: Result<Principal>)
    requires
        old(auth).wf(),
    ensures
        final(auth).wf(),
        exists|moment: u64, nanos: i128|
            authenticated(
                *old(auth),
                *final(auth),
                bearer(authorization.deep_view()),
                moment,
                nanos,
                r,
            ),
{
    let moment: u64 = auth.limiter.moment();
    let nanos: i128 = unix_nanos();
    authenticate_at(auth, authorization, moment, nanos)
}

/// The same at a given moment: `moment` on the limiter's clock, `nanos` on the
/// wall clock.
pub fn authenticate_at(
    auth: &mut AuthState,
    authorization: Option<&str>,
    moment: u64,
    nanos: i128,
) -> (r: Result<Principal>)
    requires
        old(auth).wf(),
    ensures
        final(auth).wf(),
        authenticated(
            *old(auth),
            *final(auth),
            bearer(authorization.deep_view()),
            moment,
            nanos,
            r,
        ),
{
    let presented: &str = match authorization {
        Some(header) => match strip_prefix(header, "Bearer ") {
            Some(rest) => trim(rest),
            None => "",
        },
        None => "",
    };
    proof {
        reveal_strlit("");
        assert(presented@ =~= bearer(authorization.deep_view()));
    }
    let (id, secret) = match keys::parse(presented) {
        Some(parts) => parts,
        None => {
            return Err(Error::Unauthorized);
        },
    };
    proof {
        holder_is_found(auth.db@, presented@, id@, secret@);
    }
    let row = match auth.db.key(id) {
        Ok(Some(row)) => row,
        Ok(None) => {
            return Err(Error::Unauthorized);
        },
        Err(e) => {
            return Err(e);
        },
    };
    if row.revoked_at.is_some() || !keys::verify(secret, row.secret_sha256.as_str()) {
        return Err(Error::Unauthorized);
    }
    proof {
        auth.db.rows_stand_under_their_ids(id@);
    }
    let answer = auth.limiter.check_at(row.id.as_str(), moment);
    assert(checked(old(auth).limiter, auth.limiter, row.id@, moment, answer));
    match answer {
        Ok(()) => {},
        Err(retry_after_secs) => {
            return Err(Error::RateLimited { retry_after_secs });
        },
    }
    let _ = auth.db.touch_key_at(id, nanos);
    assert(checked(old(auth).limiter, auth.limiter, row.id@, moment, answer));
    let principal = Principal { scopes: row.scope_set(), key_id: row.id, name: row.name };
    Ok(principal)
}

/// Whether the one who asks holds the scope. A request without an identity is
/// refused as one without a key.
pub fn require(scope: Scope, principal: Option<&Principal>) -> (r: Result<()>)
    ensures
        outcome(r) == (match principal {
            Some(principal) => allowed(principal@.scopes, scope),
            None => Err(ErrorView::Unauthorized),
        }),
{
    match principal {
        Some(principal) => principal.require(scope),
        None => Err(Error::Unauthorized),
    }
}

// ---- laws -------------------------------------------------------------------

/// All failures are alike: what is not a key, has an unknown id, a wrong secret
/// or a revoked row, finds no holder, and is then refused with one answer.
pub proof fn invalid_keys_find_no_holder(
    table: Map<Seq<char>, KeyRowView>,
    presented: Seq<char>,
)
    requires
        forall|id: Seq<char>, secret: Seq<char>| #[trigger]
            is_key(presented, id, secret) ==> {
                ||| !table.contains_key(id)
                ||| table[id].revoked_at is Some
                ||| table[id].secret_sha256 != stored_hash(secret)
            },
    ensures
        holder(table, presented) is None,
{
}

/// A valid key finds its row.
pub proof fn valid_key_finds_its_holder(
    table: Map<Seq<char>, KeyRowView>,
    presented: Seq<char>,
    id: Seq<char>,
    secret: Seq<char>,
)
    requires
        opens(table, presented, id, secret),
    ensures
        holder(table, presented) == Some(table[id]),
{
    holder_is_found(table, presented, id, secret);
}

/// Once its row is revoked, a key opens nothing, and other keys open what they
/// opened before.
pub proof fn revocation_takes_effect(
    table: Map<Seq<char>, KeyRowView>,
    revoked_id: Seq<char>,
    at: Seq<char>,
    presented: Seq<char>,
    id: Seq<char>,
    secret: Seq<char>,
)
    requires
        is_key(presented, id, secret),
    ensures
        holder(revoked(table, revoked_id, at), presented) == (if id == revoked_id {
            None
        } else {
            holder(table, presented)
        }),
{
    holder_is_found(table, presented, id, secret);
    holder_is_found(revoked(table, revoked_id, at), presented, id, secret);
}

/// Recording the use of a key changes no one's access: each key still finds the
/// row it found, and of that row only the last use can differ.
pub proof fn recording_a_use_keeps_access(
    table: Map<Seq<char>, KeyRowView>,
    used: Seq<char>,
    nanos: i128,
    presented: Seq<char>,
)
    ensures
        match (holder(table, presented), holder(touched(table, used, nanos), presented)) {
            (None, None) => true,
            (Some(row), Some(after)) => after == (KeyRowView {
                last_used_at: after.last_used_at,
                ..row
            }),
            _ => false,
        },
{
    let after = touched(table, used, nanos);
    assert forall|id: Seq<char>, secret: Seq<char>|
        opens(after, presented, id, secret) == opens(table, presented, id, secret) by {}
    if exists|id: Seq<char>, secret: Seq<char>| is_key(presented, id, secret) {
        let (id, secret) = choose|id: Seq<char>, secret: Seq<char>| is_key(presented, id, secret);
        holder_is_found(table, presented, id, secret);
        holder_is_found(after, presented, id, secret);
    }
}

/// What is presented is what follows `Bearer `, without white space around it;
/// another header, or none, presents nothing, and nothing is no key.
pub proof fn a_bearer_presents_its_key(header: Seq<char>, key: Seq<char>, table: Map<
    Seq<char>,
    KeyRowView,
>)
    ensures
        header == "Bearer "@ + key ==> bearer(Some(header)) == trimmed(key),
        !begins_with(header, "Bearer "@) ==> bearer(Some(header)).len() == 0,
        bearer(None).len() == 0,
        holder(table, Seq::empty()) is None,
{
    reveal_strlit("Bearer ");
    reveal_strlit("osk_");
    if header == "Bearer "@ + key {
        assert(header.take(7) =~= "Bearer "@);
        assert(header.skip(7) =~= key);
    }
    assert forall|id: Seq<char>, secret: Seq<char>| #[trigger]
        is_key(Seq::empty(), id, secret) implies false by {
        assert((keys::PREFIX@ + id + "_"@ + secret).len() >= 4);
    }
    invalid_keys_find_no_holder(table, Seq::empty());
}

/// A scope that is held is allowed; one that is not is refused by its name.
pub proof fn held_scopes_alone_are_allowed(scopes: Set<Scope>, scope: Scope)
    ensures
        allowed(scopes, scope) is Ok <==> scopes.contains(scope),
        allowed(scopes, scope) matches Err(e) ==> e == ErrorView::Forbidden(scope_name(scope)),
{
}

/// A request with a valid key is answered by who holds it, or that it came too soon;
/// in the first case the use is recorded, in the second the table stays. What one
/// answer says of the wait is what the limiter says of it.
pub proof fn a_valid_key_is_known_or_asked_to_wait(
    before: AuthState,
    after: AuthState,
    presented: Seq<char>,
    id: Seq<char>,
    secret: Seq<char>,
    moment: u64,
    nanos: i128,
    r: Result<Principal>,
)
    requires
        opens(before.db@, presented, id, secret),
        authenticated(before, after, presented, moment, nanos, r),
    ensures
        match r {
            Ok(who) => {
                &&& who@.key_id == before.db@[id].id
                &&& who@.name == before.db@[id].name
                &&& forall|s: Scope| #[trigger]
                    who@.scopes.contains(s) <==> before.db@[id].scopes.contains(s)
                &&& checked(before.limiter, after.limiter, before.db@[id].id, moment, Ok(()))
                &&& after.db@ == touched(before.db@, before.db@[id].id, nanos)
            },
            Err(e) => {
                &&& e@ matches ErrorView::RateLimited { retry_after_secs } && checked(
                    before.limiter,
                    after.limiter,
                    before.db@[id].id,
                    moment,
                    Err(retry_after_secs),
                )
                &&& after.db@ == before.db@
            },
        },
{
    valid_key_finds_its_holder(before.db@, presented, id, secret);
}

} // verus!
