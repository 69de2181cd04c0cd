//! Verification of a node at boot.

use stellar_k8s::node_boot_verification::{
    generate_node_condition, generate_systemd_unit, installed_packages, node_boot_result,
    node_checks, parse_image_digest, parse_packages, verify_allowlisted_packages,
    verify_denylisted_packages, verify_image_digest, verify_kernel_version, verify_os_release,
    version_satisfies, CheckSeverity, CheckTimes, ExpectedImageSpec, NodeBootVerificationResult,
    VerificationCheck,
};
use stellar_k8s::str_map::StrMap;

#[test]
fn test_expected_image_spec_default() {
    let spec = ExpectedImageSpec::default();
    assert!(spec.image_digest.is_empty());
    assert!(spec.allowlisted_packages.is_empty());
}

#[test]
fn test_version_satisfies_exact() {
    assert!(version_satisfies("1.2.3", "1.2.3"));
    assert!(!version_satisfies("1.2.3", "1.2.4"));
}

#[test]
fn test_version_satisfies_wildcard() {
    assert!(version_satisfies("1.2.3", "1.2.*"));
    assert!(version_satisfies("1.2.10", "1.2.*"));
    assert!(!version_satisfies("1.3.0", "1.2.*"));
}

#[test]
fn test_node_condition_generation() {
    let result = NodeBootVerificationResult {
        node_name: "test-node".into(),
        timestamp: "2024-01-01T00:00:00Z".into(),
        overall_passed: true,
        total_duration_ms: 100,
        checks: vec![],
        image_spec_version: "sha256:abc".into(),
    };
    let condition = generate_node_condition(&result);
    assert_eq!(condition.status, "True");
    assert_eq!(condition.condition_type, "BootVerified");

    let failed_result = NodeBootVerificationResult {
        overall_passed: false,
        checks: vec![VerificationCheck { passed: false, ..Default::default() }],
        ..result
    };
    let condition = generate_node_condition(&failed_result);
    assert_eq!(condition.status, "False");
    assert_eq!(condition.reason, "BootVerificationFailed");
}

fn spec() -> ExpectedImageSpec {
    let mut packages = StrMap::new();
    packages.insert("curl".to_string(), "8.*".to_string());
    ExpectedImageSpec {
        image_digest: "sha256:abc".to_string(),
        kernel_version: "6.1.0".to_string(),
        os_release: "24.04".to_string(),
        allowlisted_packages: packages,
        denylisted_packages: vec!["telnet".to_string()],
    }
}

#[test]
fn packages_are_read_from_listings() {
    let installed = parse_packages("curl 8.5.0\nopenssl 3.0.2\n");
    assert_eq!(installed.get("curl").unwrap(), "8.5.0");
    assert_eq!(installed.len(), 2);
    let both = installed_packages(&vec!["curl 8.5.0\n".to_string(), "curl 8.6.0\n".to_string()]);
    assert_eq!(both.len(), 1);
}

#[test]
fn tampered_image_is_refused() {
    let good = verify_image_digest(&spec(), Some("sha256:abc".to_string()), 3);
    assert!(good.passed);
    assert_eq!(good.duration_ms, 3);
    let bad = verify_image_digest(&spec(), Some("sha256:def".to_string()), 3);
    assert!(!bad.passed);
    assert_eq!(bad.severity, CheckSeverity::Critical);
    let absent = verify_image_digest(&spec(), None, 0);
    assert!(!absent.passed);
}

#[test]
fn digest_is_read_whole() {
    assert_eq!(
        parse_image_digest("{\"status\": {\"id\": \"sha256:0123\", \"size\": 1}}"),
        Some("sha256:0123".to_string())
    );
    assert_eq!(parse_image_digest("none"), None);
}

#[test]
fn system_versions_are_compared() {
    assert!(verify_kernel_version(&spec(), Some("Linux version 6.1.0 (x)".to_string()), 0).passed);
    assert!(!verify_kernel_version(&spec(), Some("Linux version 5.4".to_string()), 0).passed);
    assert!(!verify_kernel_version(&spec(), None, 0).passed);
    let release = "NAME=\"Ubuntu\"\nVERSION_ID=\"24.04\"\n".to_string();
    assert!(verify_os_release(&spec(), Some(release), 0).passed);
    assert!(!verify_os_release(&spec(), None, 0).passed);
}

#[test]
fn packages_are_held_to_both_lists() {
    let mut installed = StrMap::new();
    installed.insert("curl".to_string(), "8.5.0".to_string());
    let checks = verify_allowlisted_packages(&spec(), &installed);
    assert_eq!(checks.len(), 1);
    assert!(checks[0].passed);
    assert!(verify_denylisted_packages(&spec(), &installed, 0).passed);
    installed.insert("telnet".to_string(), "1".to_string());
    installed.insert("curl".to_string(), "7.0".to_string());
    assert!(!verify_denylisted_packages(&spec(), &installed, 0).passed);
    assert!(!verify_allowlisted_packages(&spec(), &installed)[0].passed);
}

#[test]
fn one_failed_critical_check_fails_the_node() {
    let times = CheckTimes { image: 1, kernel: 2, release: 3, denied: 4 };
    let checks = node_checks(
        &spec(),
        Some("sha256:def".to_string()),
        Some("Linux version 6.1.0".to_string()),
        Some("VERSION_ID=24.04".to_string()),
        &StrMap::new(),
        Vec::new(),
        times,
    );
    let result =
        node_boot_result(&spec(), checks, "n".to_string(), "2024-01-01T00:00:00Z".to_string(), 9);
    assert!(!result.overall_passed);
    assert_eq!(result.image_spec_version, "sha256:abc");
    assert_eq!(result.total_duration_ms, 9);
}

#[test]
fn unit_runs_before_the_kubelet() {
    assert!(generate_systemd_unit().contains("\nBefore=kubelet.service\n"));
}

#[test]
fn empty_digest_is_refused() {
    assert!(!verify_image_digest(&spec(), Some(String::new()), 0).passed);
    let mut open = spec();
    open.image_digest = String::new();
    assert!(!verify_image_digest(&open, None, 0).passed);
    assert!(!verify_image_digest(&open, Some(String::new()), 0).passed);
}
