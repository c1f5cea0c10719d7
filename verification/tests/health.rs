//! Test of the liveness report.

use order_service::health::HealthStatus;

#[test]
fn health_status_reads_ok() {
    let report = HealthStatus::healthy();
    assert_eq!(report.status().as_str(), "ok");
}
