//! Routing of health-probe requests and the HTTP status of each answer.

use vstd::prelude::*;
use crate::health::{overall_status_of, CheckResult, HealthCheckResult, HealthCheckView, HealthStatus};
use crate::text::str_equals;

verus! {

/// What a request path asks for.
#[derive(Debug, Clone, Copy, PartialEq, Eq, Structural)]
pub enum Route {
    /// `GET /livez`: liveness, which runs no checker.
    Liveness,
    /// `GET /health`, `/healthz`, `/readyz`: full readiness, which runs every checker.
    Readiness,
    /// Any other method or path.
    NotFound,
}

/// The route of a request: only `GET` requests are answered, on `/livez`
/// and on `/health`, `/healthz`, `/readyz`; anything else is not found.
pub open spec fn route_of(method: Seq<char>, path: Seq<char>) -> Route {
    if method != "GET"@ {
        Route::NotFound
    } else if path == "/livez"@ {
        Route::Liveness
    } else if path == "/health"@ || path == "/healthz"@ || path == "/readyz"@ {
        Route::Readiness
    } else {
        Route::NotFound
    }
}

/// HTTP status `200 OK`.
pub open spec fn status_ok() -> u16 {
    200
}

/// HTTP status `503 Service Unavailable`.
pub open spec fn status_unavailable() -> u16 {
    503
}

/// HTTP status `404 Not Found`.
pub open spec fn status_not_found() -> u16 {
    404
}

/// The HTTP status of a probe answer: `200` when the probe passes, `503`
/// when it fails.
pub open spec fn probe_status_of(passed: bool) -> u16 {
    if passed {
        status_ok()
    } else {
        status_unavailable()
    }
}

/// Routes a request by its method and path.
pub fn route_for_request(method: &str, path: &str) -> (r: Route)
    ensures
        r == route_of(method@, path@),
{
    if !str_equals(method, "GET") {
        Route::NotFound
    } else if str_equals(path, "/livez") {
        Route::Liveness
    } else if str_equals(path, "/health") || str_equals(path, "/healthz") || str_equals(
        path,
        "/readyz",
    ) {
        Route::Readiness
    } else {
        Route::NotFound
    }
}

/// The HTTP status of a probe answer: `200` when the probe passes, `503`
/// when it fails.
pub fn probe_status(passed: bool) -> (r: u16)
    ensures
        r == probe_status_of(passed),
{
    if passed {
        200
    } else {
        503
    }
}

/// The HTTP status of an unknown path.
pub fn not_found_status() -> (r: u16)
    ensures
        r == status_not_found(),
{
    404
}

/// The HTTP status of a readiness answer: `200` when the overall status is
/// healthy or degraded, `503` when it is unhealthy.
pub fn readiness_status(result: &HealthCheckResult) -> (r: u16)
    ensures
        r == probe_status_of(result.status.spec_is_ready()),
{
    probe_status(result.status.is_ready())
}

/// The status word of a liveness answer: `healthy` or `unhealthy`.
pub fn liveness_word(alive: bool) -> (r: &'static str)
    ensures
        r@ == (if alive {
            "healthy"@
        } else {
            "unhealthy"@
        }),
{
    if alive {
        "healthy"
    } else {
        "unhealthy"
    }
}

/// Once the service is marked unhealthy (as during shutdown) both the
/// liveness and the readiness probe answer 503; liveness answers 200 again
/// once the override is cleared.
pub proof fn lemma_livez_follows_shutdown<C>(h: HealthCheckView<C>)
    ensures
        probe_status_of(h.with_override(Some(HealthStatus::Unhealthy)).live())
            == status_unavailable(),
        probe_status_of(
            h.with_override(Some(HealthStatus::Unhealthy)).with_override(None).live(),
        ) == status_ok(),
        probe_status_of(
            h.with_override(Some(HealthStatus::Unhealthy)).status_override->0.spec_is_ready(),
        ) == status_unavailable(),
{
}

/// Without an override, the readiness probe answers 503 exactly when some
/// check is unhealthy; with no checkers at all it answers 200.
pub proof fn lemma_readyz_unavailable_iff_some_unhealthy(checks: Seq<CheckResult>)
    ensures
        probe_status_of(overall_status_of(checks).spec_is_ready()) == status_unavailable()
            <==> exists|i: int| 0 <= i < checks.len() && (#[trigger] checks[i]).status is Unhealthy,
        checks.len() == 0 ==> probe_status_of(overall_status_of(checks).spec_is_ready())
            == status_ok(),
{
}

/// Exactly four requests are answered: `GET /livez` is the liveness probe,
/// `GET /health`, `GET /healthz` and `GET /readyz` are the readiness probe,
/// and every other method or path (`/`, `/livez/`, `POST /healthz`, ...) is
/// not found.
pub proof fn lemma_only_probe_paths_are_routed(method: Seq<char>, path: Seq<char>)
    ensures
        route_of(method, path) == Route::Liveness <==> method == seq!['G', 'E', 'T'] && path
            == seq!['/', 'l', 'i', 'v', 'e', 'z'],
        route_of(method, path) == Route::Readiness <==> method == seq!['G', 'E', 'T'] && (path
            == seq!['/', 'h', 'e', 'a', 'l', 't', 'h'] || path == seq![
            '/',
            'h',
            'e',
            'a',
            'l',
            't',
            'h',
            'z',
        ] || path == seq!['/', 'r', 'e', 'a', 'd', 'y', 'z']),
        method != seq!['G', 'E', 'T'] ==> route_of(method, path) == Route::NotFound,
{
    reveal_strlit("GET");
    reveal_strlit("/livez");
    reveal_strlit("/health");
    reveal_strlit("/healthz");
    reveal_strlit("/readyz");
    assert("GET"@ =~= seq!['G', 'E', 'T']);
    assert("/livez"@ =~= seq!['/', 'l', 'i', 'v', 'e', 'z']);
    assert("/health"@ =~= seq!['/', 'h', 'e', 'a', 'l', 't', 'h']);
    assert("/healthz"@ =~= seq!['/', 'h', 'e', 'a', 'l', 't', 'h', 'z']);
    assert("/readyz"@ =~= seq!['/', 'r', 'e', 'a', 'd', 'y', 'z']);
}

/// A passing probe answers `200 OK`, a failing one `503 Service
/// Unavailable`, and an unknown request `404 Not Found`.
pub proof fn lemma_probe_status_codes(passed: bool)
    ensures
        passed ==> probe_status_of(passed) == 200,
        !passed ==> probe_status_of(passed) == 503,
        status_not_found() == 404,
{
}

} // verus!
