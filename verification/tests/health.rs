use armature_cloudrun::probe::{liveness_word, not_found_status, probe_status, readiness_status, route_for_request};
use armature_cloudrun::{
    collect_results, overall_status, panicked_result, summarize_checks, task_result, CheckResult,
    CheckTimeout, FnHealthChecker, HealthCheck, HealthStatus, Route,
};

fn result(name: &str, status: HealthStatus) -> CheckResult {
    CheckResult { name: name.to_string(), status, message: None, duration_ms: None }
}

#[test]
fn status_readiness_and_health() {
    assert!(HealthStatus::Healthy.is_ready());
    assert!(HealthStatus::Degraded.is_ready());
    assert!(!HealthStatus::Unhealthy.is_ready());
    assert!(HealthStatus::Healthy.is_healthy());
    assert!(!HealthStatus::Degraded.is_healthy());
    assert!(!HealthStatus::Unhealthy.is_healthy());
}

#[test]
fn overall_status_is_the_worst() {
    assert_eq!(overall_status(&vec![]), HealthStatus::Healthy);
    assert_eq!(
        overall_status(&vec![result("a", HealthStatus::Healthy), result("b", HealthStatus::Healthy)]),
        HealthStatus::Healthy
    );
    assert_eq!(
        overall_status(&vec![result("a", HealthStatus::Degraded), result("b", HealthStatus::Healthy)]),
        HealthStatus::Degraded
    );
    assert_eq!(
        overall_status(&vec![
            result("a", HealthStatus::Degraded),
            result("b", HealthStatus::Unhealthy),
            result("c", HealthStatus::Degraded),
        ]),
        HealthStatus::Unhealthy
    );
    // The order in which checks finished does not matter.
    assert_eq!(
        overall_status(&vec![result("b", HealthStatus::Unhealthy), result("a", HealthStatus::Degraded)]),
        overall_status(&vec![result("a", HealthStatus::Degraded), result("b", HealthStatus::Unhealthy)]),
    );
}

#[test]
fn timed_out_checker_is_unhealthy_and_named() {
    let timeout = CheckTimeout { secs: 0, subsec_nanos: 50_000_000 };
    let r = task_result(None, "wedged".to_string(), &timeout, 51);
    assert_eq!(r.name, "wedged");
    assert_eq!(r.status, HealthStatus::Unhealthy);
    assert_eq!(r.message.as_deref(), Some("check did not complete within 50ms"));
    assert_eq!(r.duration_ms, Some(51));

    let five = CheckTimeout::default();
    let r = task_result(None, "slow".to_string(), &five, 5000);
    assert_eq!(r.message.as_deref(), Some("check did not complete within 5000ms"));

    let ok = task_result(Some(result("fine", HealthStatus::Healthy)), "fine".to_string(), &timeout, 3);
    assert_eq!(ok.name, "fine");
    assert_eq!(ok.status, HealthStatus::Healthy);
    assert_eq!(ok.message, None);
    assert_eq!(ok.duration_ms, Some(3));
}

#[test]
fn check_timeout_millis() {
    assert_eq!(CheckTimeout { secs: 2, subsec_nanos: 999_999 }.as_millis(), 2000);
    assert_eq!(CheckTimeout { secs: 0, subsec_nanos: 1_500_000 }.as_millis(), 1);
    assert_eq!(CheckTimeout::from_secs(7).as_millis(), 7000);
    assert_eq!(CheckTimeout { secs: u64::MAX, subsec_nanos: 999_999_999 }.as_millis(), u64::MAX as u128 * 1000 + 999);
}

#[test]
fn missing_results_are_reported_as_panicked_in_registration_order() {
    let names = vec!["db".to_string(), "cache".to_string(), "queue".to_string()];
    // Tasks complete out of order; the one for "cache" never reports.
    let completed = vec![
        (2, result("queue", HealthStatus::Degraded)),
        (0, result("db", HealthStatus::Healthy)),
    ];
    let results = collect_results(&names, completed);
    assert_eq!(results.len(), 3);
    assert_eq!(results[0].name, "db");
    assert_eq!(results[0].status, HealthStatus::Healthy);
    assert_eq!(results[1].name, "cache");
    assert_eq!(results[1].status, HealthStatus::Unhealthy);
    assert_eq!(results[1].message.as_deref(), Some("check panicked"));
    assert_eq!(results[1].duration_ms, None);
    assert_eq!(results[2].name, "queue");
    assert_eq!(results[2].status, HealthStatus::Degraded);

    let p = panicked_result("x".to_string());
    assert_eq!(p.status, HealthStatus::Unhealthy);
    assert_eq!(p.message.as_deref(), Some("check panicked"));
}

#[test]
fn summary_of_a_wedged_and_a_fine_checker() {
    let timeout = CheckTimeout { secs: 0, subsec_nanos: 50_000_000 };
    let names = vec!["wedged".to_string(), "fine".to_string()];
    let completed = vec![
        (1, task_result(Some(result("fine", HealthStatus::Healthy)), "fine".to_string(), &timeout, 1)),
        (0, task_result(None, "wedged".to_string(), &timeout, 50)),
    ];
    let r = summarize_checks(Some("svc".to_string()), None, 12, &names, completed);
    assert_eq!(r.status, HealthStatus::Unhealthy);
    assert_eq!(r.service.as_deref(), Some("svc"));
    assert_eq!(r.revision, None);
    assert_eq!(r.uptime_seconds, 12);
    let wedged = r.checks.iter().find(|c| c.name == "wedged").unwrap();
    assert_eq!(wedged.status, HealthStatus::Unhealthy);
    let fine = r.checks.iter().find(|c| c.name == "fine").unwrap();
    assert_eq!(fine.status, HealthStatus::Healthy);
    assert_eq!(readiness_status(&r), 503);
}

#[test]
fn four_healthy_checkers_summarize_healthy() {
    let names: Vec<String> = (0..4).map(|i| format!("slow-{i}")).collect();
    let completed: Vec<(usize, CheckResult)> =
        (0..4).map(|i| (i, result(&format!("slow-{i}"), HealthStatus::Healthy))).collect();
    let r = summarize_checks(None, None, 0, &names, completed);
    assert_eq!(r.status, HealthStatus::Healthy);
    assert_eq!(r.checks.len(), 4);
    assert_eq!(readiness_status(&r), 200);
}

#[test]
fn override_and_liveness() {
    let mut hc: HealthCheck<u8> = HealthCheck::new();
    assert!(hc.liveness());
    assert_eq!(hc.status_override(), None);
    assert!(hc.override_result(None, None, 0).is_none());
    assert_eq!(CheckTimeout::default(), CheckTimeout::from_secs(5));

    hc.register(1);
    hc.register(2);
    assert_eq!(hc.checkers(), &vec![1, 2]);
    // Liveness ignores checkers.
    assert!(hc.liveness());

    hc.mark_unhealthy();
    assert!(!hc.liveness());
    assert_eq!(probe_status(hc.liveness()), 503);
    let r = hc.override_result(Some("svc".to_string()), Some("rev".to_string()), 9).unwrap();
    assert_eq!(r.status, HealthStatus::Unhealthy);
    assert!(r.checks.is_empty());
    assert_eq!(r.service.as_deref(), Some("svc"));
    assert_eq!(r.revision.as_deref(), Some("rev"));
    assert_eq!(r.uptime_seconds, 9);

    hc.set_status(HealthStatus::Degraded);
    assert!(hc.liveness());

    hc.clear_status();
    assert!(hc.liveness());
    assert!(hc.override_result(None, None, 0).is_none());
    assert_eq!(hc.checkers(), &vec![1, 2]);

    let d: HealthCheck<u8> = HealthCheck::default();
    assert!(d.checkers().is_empty());
}

#[test]
fn fn_checker_results() {
    let c = FnHealthChecker::new("dep".to_string(), 7u32);
    assert_eq!(c.name(), "dep");
    assert_eq!(*c.check_fn(), 7);
    let ok = c.result_of(Ok(()));
    assert_eq!(ok.name, "dep");
    assert_eq!(ok.status, HealthStatus::Healthy);
    assert_eq!(ok.message, None);
    assert_eq!(ok.duration_ms, None);
    let bad = c.result_of(Err("dependency down".to_string()));
    assert_eq!(bad.status, HealthStatus::Unhealthy);
    assert_eq!(bad.message.as_deref(), Some("dependency down"));
}

#[test]
fn routes_and_probe_statuses() {
    assert_eq!(route_for_request("GET", "/livez"), Route::Liveness);
    assert_eq!(route_for_request("GET", "/health"), Route::Readiness);
    assert_eq!(route_for_request("GET", "/healthz"), Route::Readiness);
    assert_eq!(route_for_request("GET", "/readyz"), Route::Readiness);
    assert_eq!(route_for_request("GET", "/does-not-exist"), Route::NotFound);
    assert_eq!(route_for_request("GET", "/livez/"), Route::NotFound);
    assert_eq!(route_for_request("GET", ""), Route::NotFound);
    // Only GET is answered.
    assert_eq!(route_for_request("POST", "/healthz"), Route::NotFound);
    assert_eq!(route_for_request("HEAD", "/livez"), Route::NotFound);
    assert_eq!(route_for_request("get", "/readyz"), Route::NotFound);
    assert_eq!(probe_status(true), 200);
    assert_eq!(probe_status(false), 503);
    assert_eq!(not_found_status(), 404);
    assert_eq!(liveness_word(true), "healthy");
    assert_eq!(liveness_word(false), "unhealthy");
}

#[test]
fn readyz_with_an_unhealthy_checker_is_unavailable_but_livez_is_ok() {
    let mut hc: HealthCheck<()> = HealthCheck::new();
    hc.register(());
    let names = vec!["dep".to_string()];
    let checker = FnHealthChecker::new("dep".to_string(), ());
    let outcome = checker.result_of(Err("dependency down".to_string()));
    let r = summarize_checks(None, None, 0, &names, vec![(0, outcome)]);
    assert_eq!(readiness_status(&r), 503);
    assert_eq!(probe_status(hc.liveness()), 200);
}

#[test]
fn degraded_checks_are_ready_but_not_healthy() {
    let names = vec!["a".to_string(), "b".to_string()];
    let completed = vec![
        (0, result("a", HealthStatus::Healthy)),
        (1, result("b", HealthStatus::Degraded)),
    ];
    let r = summarize_checks(None, None, 0, &names, completed);
    assert_eq!(r.status, HealthStatus::Degraded);
    assert!(r.status.is_ready());
    assert!(!r.status.is_healthy());
    assert_eq!(readiness_status(&r), 200);
}

#[test]
fn readiness_during_shutdown_is_unavailable_without_running_checkers() {
    let mut hc: HealthCheck<&str> = HealthCheck::new();
    hc.register("db");
    hc.mark_unhealthy();
    let r = hc.override_result(None, None, 1).unwrap();
    assert!(r.checks.is_empty());
    assert_eq!(readiness_status(&r), 503);
    assert_eq!(probe_status(hc.liveness()), 503);
    hc.clear_status();
    assert_eq!(probe_status(hc.liveness()), 200);
}
