//! # Armature Cloud Run
//!
//! Google Cloud Run deployment utilities: configuration from the Cloud Run
//! environment, health checks and probe routing, and instance metadata.

pub mod config;
pub mod error;
pub mod health;
pub mod metadata;
pub mod probe;
pub mod text;

pub use config::{CloudRunConfig, ConfigEnv};
pub use error::{CloudRunError, Result};
pub use health::{
    collect_results, overall_status, panicked_result, summarize_checks, task_result, CheckResult,
    CheckTimeout, FnHealthChecker, HealthCheck, HealthCheckResult, HealthStatus,
};
pub use metadata::{region_from_zone, FieldStatus, InstanceMetadata, ServiceMetadata};
pub use probe::Route;
