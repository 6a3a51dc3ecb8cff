use armature_cloudrun::error::Result;
use armature_cloudrun::{CloudRunConfig, CloudRunError, ConfigEnv};
use armature_cloudrun::text::{parse_unsigned, write_decimal};

fn env() -> ConfigEnv {
    ConfigEnv {
        port: None,
        k_service: None,
        k_revision: None,
        k_configuration: None,
        google_cloud_project: None,
        google_cloud_region: None,
        cloud_run_url: None,
        memory_limit_mb: None,
        cloud_run_timeout_seconds: None,
        cloud_run_concurrency: None,
    }
}

#[test]
fn env_values_parse_user_overrides_and_service_url() {
    let mut e = env();
    e.port = Some("9090".to_string());
    e.memory_limit_mb = Some("512".to_string());
    e.cloud_run_timeout_seconds = Some("120".to_string());
    e.cloud_run_concurrency = Some("42".to_string());
    e.cloud_run_url = Some("https://svc-abc123-uc.a.run.app".to_string());
    let cfg: CloudRunConfig<f32> = CloudRunConfig::from_env_values(e, Some(2.5));
    assert_eq!(cfg.port, 9090);
    assert_eq!(cfg.memory_limit_mb, Some(512));
    assert_eq!(cfg.cpu_limit, Some(2.5));
    assert_eq!(cfg.timeout_seconds, 120);
    assert_eq!(cfg.max_concurrent_requests, 42);
    assert_eq!(cfg.service_url().as_deref(), Some("https://svc-abc123-uc.a.run.app"));

    let cfg_no_url: CloudRunConfig<f32> = CloudRunConfig::from_env_values(env(), None);
    assert_eq!(cfg_no_url.service_url(), None);
}

#[test]
fn unset_or_invalid_values_fall_back_to_defaults() {
    let cfg: CloudRunConfig<f32> = CloudRunConfig::from_env_values(env(), None);
    assert_eq!(cfg.port, 8080);
    assert_eq!(cfg.host, "0.0.0.0");
    assert_eq!(cfg.memory_limit_mb, None);
    assert_eq!(cfg.timeout_seconds, 300);
    assert_eq!(cfg.max_concurrent_requests, 80);
    assert!(!cfg.is_cloud_run());

    let mut e = env();
    e.port = Some("70000".to_string());
    e.memory_limit_mb = Some("-1".to_string());
    e.cloud_run_timeout_seconds = Some(" 120".to_string());
    e.cloud_run_concurrency = Some("".to_string());
    e.k_service = Some("svc".to_string());
    let cfg: CloudRunConfig<f32> = CloudRunConfig::from_env_values(e, None);
    assert_eq!(cfg.port, 8080);
    assert_eq!(cfg.memory_limit_mb, None);
    assert_eq!(cfg.timeout_seconds, 300);
    assert_eq!(cfg.max_concurrent_requests, 80);
    assert!(cfg.is_cloud_run());
    assert_eq!(cfg.service.as_deref(), Some("svc"));
}

#[test]
fn defaults_and_builders() {
    let cfg: CloudRunConfig<f32> = CloudRunConfig::default();
    assert_eq!(cfg.port, 8080);
    assert_eq!(cfg.host, "0.0.0.0");
    assert_eq!(cfg.timeout_seconds, 300);
    assert_eq!(cfg.max_concurrent_requests, 80);
    assert_eq!(cfg.cpu_limit, None);
    assert_eq!(cfg.bind_address(), "0.0.0.0:8080");
    let cfg = cfg.port(3000).host("127.0.0.1".to_string());
    assert_eq!(cfg.bind_address(), "127.0.0.1:3000");
    let cfg = cfg.port(0);
    assert_eq!(cfg.bind_address(), "127.0.0.1:0");
    let cfg = cfg.port(65535).host("::1".to_string());
    assert_eq!(cfg.bind_address(), "::1:65535");
}

#[test]
fn unsigned_parsing_matches_std() {
    for s in ["0", "7", "+7", "007", "65535", "65536", "", "+", "-1", "1 ", "1a", "٣", "99999999999999999999999"] {
        assert_eq!(parse_unsigned(s, u16::MAX as u64), s.parse::<u16>().ok().map(u64::from), "{s:?}");
        assert_eq!(parse_unsigned(s, u32::MAX as u64), s.parse::<u32>().ok().map(u64::from), "{s:?}");
    }
    assert_eq!(parse_unsigned("4294967295", u32::MAX as u64), Some(4294967295));
    assert_eq!(parse_unsigned("4294967296", u32::MAX as u64), None);
}

#[test]
fn decimal_printing_round_trips() {
    for n in [0u128, 9, 10, 99, 100, 65535, u64::MAX as u128, u128::MAX] {
        let mut s = String::from("x=");
        write_decimal(n, &mut s);
        assert_eq!(s, format!("x={n}"));
    }
    for n in [0u64, 1, 80, 300, 65535, 4294967295] {
        let mut s = String::new();
        write_decimal(n as u128, &mut s);
        assert_eq!(parse_unsigned(&s, u32::MAX as u64), if n <= u32::MAX as u64 { Some(n) } else { None });
    }
}

#[test]
fn error_messages() {
    assert_eq!(CloudRunError::Config("bad".to_string()).message(), "Configuration error: bad");
    assert_eq!(CloudRunError::Metadata("m".to_string()).message(), "Metadata error: m");
    assert_eq!(CloudRunError::HealthCheck("h".to_string()).message(), "Health check error: h");
    assert_eq!(CloudRunError::Server("s".to_string()).message(), "Server error: s");
    let r: Result<()> = Err(CloudRunError::Server("x".to_string()));
    assert!(r.is_err());
}

#[test]
fn bind_address_port_reads_back() {
    for (host, port) in [("0.0.0.0", 8080u16), ("::1", 0), ("example.internal", 65535)] {
        let cfg: CloudRunConfig<f32> = CloudRunConfig::default().host(host.to_string()).port(port);
        let addr = cfg.bind_address();
        assert_eq!(&addr[..host.len()], host);
        assert_eq!(&addr[host.len()..host.len() + 1], ":");
        assert_eq!(parse_unsigned(&addr[host.len() + 1..], u16::MAX as u64), Some(port as u64));
    }
}
