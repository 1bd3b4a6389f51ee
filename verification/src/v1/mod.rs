//! `/v1`, the contract. Additive changes only; anything breaking is `/v2`.
//!
//! Each module decides what a route does: what it refuses, what it asks of the
//! services behind it, and what it answers.

pub mod clients;
pub mod fleet;
pub mod health;
pub mod inference;
pub mod keys;
pub mod me;
pub mod ops;
pub mod pair;
pub mod rig;
pub mod sessions;
pub mod usage;
pub mod voice;
pub mod ws;

use crate::auth::keys::Scope;
use crate::auth::middleware::{allowed, authenticate_at, authenticated, bearer, require, AuthState, Principal};
use crate::clock::unix_nanos;
use crate::error::{ErrorView, Result};
use vstd::prelude::*;

verus! {

/// The areas of the API. All routes of an area are guarded alike.
#[derive(Debug, Clone, Copy, PartialEq, Eq, Structural)]
pub enum Area {
    /// `/health`, the spec and the docs.
    Public,
    /// `POST /pair` and `GET /pair/{code}`.
    PairOpen,
    /// `/me`.
    Me,
    /// `/keys*`.
    Keys,
    /// `/fleet/*` and `/rig`.
    Fleet,
    /// `/usage*`.
    Usage,
    /// `/inference/*`.
    Inference,
    /// `/voice*`.
    Voice,
    /// `/ops*` and `/clients`.
    Ops,
    /// `POST /pair/{code}/approve`.
    PairApprove,
    /// `/sessions*`, where `GET` and `POST` share paths and each route checks its
    /// own scope.
    Sessions,
}

/// An area that needs no key.
pub open spec fn is_public(area: Area) -> bool {
    area == Area::Public || area == Area::PairOpen
}

/// An area that needs no key.
pub fn needs_no_key(area: Area) -> (r: bool)
    ensures
        r == is_public(area),
{
    area == Area::Public || area == Area::PairOpen
}

/// The scope that all routes of an area need, where there is one.
pub open spec fn scope_for(area: Area) -> Option<Scope> {
    match area {
        Area::Keys => Some(Scope::KeysAdmin),
        Area::Fleet => Some(Scope::FleetRead),
        Area::Usage => Some(Scope::UsageRead),
        Area::Inference => Some(Scope::Inference),
        Area::Voice => Some(Scope::Voice),
        Area::Ops => Some(Scope::OpsRead),
        Area::PairApprove => Some(Scope::PairApprove),
        _ => None,
    }
}

/// The scope that all routes of an area need, where there is one.
pub fn required_scope(area: Area) -> (r: Option<Scope>)
    ensures
        r == scope_for(area),
{
    match area {
        Area::Keys => Some(Scope::KeysAdmin),
        Area::Fleet => Some(Scope::FleetRead),
        Area::Usage => Some(Scope::UsageRead),
        Area::Inference => Some(Scope::Inference),
        Area::Voice => Some(Scope::Voice),
        Area::Ops => Some(Scope::OpsRead),
        Area::PairApprove => Some(Scope::PairApprove),
        _ => None,
    }
}

/// Who comes in: anyone, to a public area; to any other, who presents a valid key
/// that holds the area's scope.
pub open spec fn entered(
    before: AuthState,
    after: AuthState,
    area: Area,
    presented: Seq<char>,
    moment: u64,
    nanos: i128,
    r: Result<Option<Principal>>,
) -> bool {
    if is_public(area) {
        r matches Ok(None) && after == before
    } else {
        exists|who: Result<Principal>|
            {
                &&& #[trigger] authenticated(before, after, presented, moment, nanos, who)
                &&& match who {
                    Err(e) => r matches Err(error) && error@ == e@,
                    Ok(who) => match scope_for(area) {
                        None => r matches Ok(Some(p)) && p@ == who@,
                        Some(scope) => match allowed(who@.scopes, scope) {
                            Ok(_) => r matches Ok(Some(p)) && p@ == who@,
                            Err(e) => r matches Err(error) && error@ == e,
                        },
                    },
                }
            }
    }
}

/// Lets a request into an area, at this moment.
pub fn enter(auth: &mut AuthState, area: Area, authorization: Option<&str>) -> (r: Result<
    Option<Principal>,
>)
    requires
        old(auth).wf(),
    ensures
        final(auth).wf(),
        exists|moment: u64, nanos: i128|
            entered(
                *old(auth),
                *final(auth),
                area,
                bearer(authorization.deep_view()),
                moment,
                nanos,
                r,
            ),
{
    let moment: u64 = auth.limiter.moment();
    let nanos: i128 = unix_nanos();
    enter_at(auth, area, authorization, moment, nanos)
}

/// The same at a given moment: `moment` on the limiter's clock, `nanos` on the wall
/// clock.
pub fn enter_at(
    auth: &mut AuthState,
    area: Area,
    authorization: Option<&str>,
    moment: u64,
    nanos: i128,
) -> (r: Result<Option<Principal>>)
    requires
        old(auth).wf(),
    ensures
        final(auth).wf(),
        entered(
            *old(auth),
            *final(auth),
            area,
            bearer(authorization.deep_view()),
            moment,
            nanos,
            r,
        ),
{
    if needs_no_key(area) {
        return Ok(None);
    }
    let found = authenticate_at(auth, authorization, moment, nanos);
    assert(authenticated(
        *old(auth),
        *auth,
        bearer(authorization.deep_view()),
        moment,
        nanos,
        found,
    ));
    let who = match found {
        Ok(who) => who,
        Err(e) => {
            return Err(e);
        },
    };
    match required_scope(area) {
        Some(scope) => match require(scope, Some(&who)) {
            Ok(()) => Ok(Some(who)),
            Err(e) => Err(e),
        },
        None => Ok(Some(who)),
    }
}

/// The routes of an area exist: those of the voice and of the services only where
/// there is one configured.
pub open spec fn served(area: Area, voice: bool, services: nat) -> bool {
    match area {
        Area::Voice => voice,
        Area::Ops => services > 0,
        _ => true,
    }
}

/// The routes of an area exist.
pub fn is_served(area: Area, voice: bool, services: usize) -> (r: bool)
    ensures
        r == served(area, voice, services as nat),
{
    match area {
        Area::Voice => voice,
        Area::Ops => services > 0,
        _ => true,
    }
}

// ---- laws ---------------------------------------------------------------------------

/// No key, no entry: where nothing valid is presented, every area but the public
/// ones answers the same refusal, and nothing changes.
pub proof fn without_a_key_only_public_areas_open(
    before: AuthState,
    after: AuthState,
    area: Area,
    presented: Seq<char>,
    moment: u64,
    nanos: i128,
    r: Result<Option<Principal>>,
)
    requires
        entered(before, after, area, presented, moment, nanos, r),
        crate::auth::middleware::holder(before.db@, presented) is None,
    ensures
        after == before,
        is_public(area) <==> r is Ok,
        !is_public(area) ==> (r matches Err(e) && e@ == ErrorView::Unauthorized),
{
}

/// Who is let into an area that has a scope holds that scope.
pub proof fn who_enters_holds_the_scope(
    before: AuthState,
    after: AuthState,
    area: Area,
    presented: Seq<char>,
    moment: u64,
    nanos: i128,
    r: Result<Option<Principal>>,
    scope: Scope,
)
    requires
        entered(before, after, area, presented, moment, nanos, r),
        scope_for(area) == Some(scope),
        r is Ok,
    ensures
        r matches Ok(Some(who)) && who@.scopes.contains(scope),
{
}

/// Each area needs its own scope, and each scope but those of sessions opens one
/// area; `/me` and the sessions' routes need a key alone.
pub proof fn each_area_needs_its_scope(area: Area)
    ensures
        scope_for(area) == Some(Scope::KeysAdmin) <==> area == Area::Keys,
        scope_for(area) == Some(Scope::FleetRead) <==> area == Area::Fleet,
        scope_for(area) == Some(Scope::UsageRead) <==> area == Area::Usage,
        scope_for(area) == Some(Scope::Inference) <==> area == Area::Inference,
        scope_for(area) == Some(Scope::Voice) <==> area == Area::Voice,
        scope_for(area) == Some(Scope::OpsRead) <==> area == Area::Ops,
        scope_for(area) == Some(Scope::PairApprove) <==> area == Area::PairApprove,
        scope_for(area) is None <==> area == Area::Public || area == Area::PairOpen || area
            == Area::Me || area == Area::Sessions,
        is_public(area) <==> area == Area::Public || area == Area::PairOpen,
{
}

/// The voice is there where it is configured, the services where there is one; every
/// other area is there always.
pub proof fn areas_are_there_where_configured(area: Area, voice: bool, services: nat)
    ensures
        served(area, voice, services) <==> (area == Area::Voice ==> voice) && (area == Area::Ops
            ==> services >= 1),
{
}

/// Who holds the scope of an area is let in, unless the key asks too often; who does
/// not is told which scope it is.
pub proof fn a_valid_key_enters_by_its_scopes(
    before: AuthState,
    after: AuthState,
    area: Area,
    presented: Seq<char>,
    moment: u64,
    nanos: i128,
    r: Result<Option<Principal>>,
)
    requires
        entered(before, after, area, presented, moment, nanos, r),
        !is_public(area),
        crate::auth::middleware::holder(before.db@, presented) is Some,
    ensures
        ({
            let row = crate::auth::middleware::holder(before.db@, presented)->Some_0;
            let may = match scope_for(area) {
                Some(scope) => row.scopes.contains(scope),
                None => true,
            };
            match r {
                Ok(who) => may && (who matches Some(p) && p@.key_id == row.id && p@.name == row.name
                    && forall|s: Scope| #[trigger] p@.scopes.contains(s) <==> row.scopes.contains(s)),
                Err(e) => {
                    ||| e@ is RateLimited
                    ||| !may && e@ == ErrorView::Forbidden(
                        crate::auth::keys::scope_name(scope_for(area)->Some_0),
                    )
                },
            }
        }),
{
}

} // verus!
