//! Certificates of the webhook and of the services.

use rcgen::{
    BasicConstraints, CertificateParams, DistinguishedName, DnType, ExtendedKeyUsagePurpose, IsCa,
    KeyPair, KeyUsagePurpose, SanType,
};
use stellar_k8s::clock::Timestamp;
use stellar_k8s::error::Error;
use stellar_k8s::mtls::mtls_config;
use stellar_k8s::security::cert_manager::{
    CertManager, CertManagerError, CertManagerResourceGenerator, CertStatus, CertificateInfo,
    InterServiceMtlsConfig, RenewalConfig,
};
use stellar_k8s::str_map::StrMap;
use stellar_k8s::webhook::cert_health::{
    judge_certificate, load_server_config, pem_blocks, server_identity, validate_files,
    validate_files_at, validate_serving_certificate, validate_serving_certificate_at,
    CertHealthError, CertHealthState, CertificateFacts, KeyDer,
};

const SERVICE: &str = "stellar-webhook.stellar-webhook.svc";

fn issued_certificates() -> (String, String, String) {
    let mut ca_params = CertificateParams::default();
    ca_params.is_ca = IsCa::Ca(BasicConstraints::Unconstrained);
    ca_params.distinguished_name = DistinguishedName::new();
    ca_params.distinguished_name.push(DnType::CommonName, "stellar-webhook-ca");
    ca_params.key_usages = vec![KeyUsagePurpose::KeyCertSign];
    let ca_key = KeyPair::generate().unwrap();
    let ca = ca_params.self_signed(&ca_key).unwrap();

    let mut leaf_params = CertificateParams::new(vec![SERVICE.to_string()]).unwrap();
    leaf_params.not_before = rcgen::date_time_ymd(2026, 1, 1);
    leaf_params.distinguished_name = DistinguishedName::new();
    leaf_params.distinguished_name.push(DnType::CommonName, "stellar-webhook");
    leaf_params.subject_alt_names = vec![SanType::DnsName(SERVICE.try_into().unwrap())];
    leaf_params.extended_key_usages = vec![ExtendedKeyUsagePurpose::ServerAuth];
    leaf_params.key_usages = vec![KeyUsagePurpose::DigitalSignature];
    let leaf_key = KeyPair::generate().unwrap();
    let issuer = rcgen::Issuer::from_params(&ca_params, &ca_key);
    let leaf = leaf_params.signed_by(&leaf_key, &issuer).unwrap();

    (leaf.pem(), leaf_key.serialize_pem(), ca.pem())
}

fn remaining_ratio(state: &CertHealthState, now: i64) -> f64 {
    let (left, whole) = state.remaining_parts(now);
    if whole <= 0 {
        return 0.0;
    }
    (left as f64 / whole as f64).clamp(0.0, 1.0)
}

#[test]
fn validates_trusted_service_certificate() {
    let (cert, _key, ca) = issued_certificates();
    let state = validate_serving_certificate(cert.as_bytes(), ca.as_bytes(), SERVICE)
        .expect("certificate should be valid");
    assert!(state.is_valid());
    assert!(remaining_ratio(&state, Timestamp::now().timestamp()) > 0.99);
    assert_eq!(state.not_before, 1_767_225_600);
}

#[test]
fn rejects_untrusted_certificate() {
    let (cert, _key, _ca) = issued_certificates();
    let (_other_cert, _other_key, other_ca) = issued_certificates();
    let error =
        validate_serving_certificate(cert.as_bytes(), other_ca.as_bytes(), SERVICE).unwrap_err();
    assert!(matches!(error, CertHealthError::Untrusted(_)));
}

#[test]
fn rejects_wrong_dns_name() {
    let (cert, _key, ca) = issued_certificates();
    let error = validate_serving_certificate(
        cert.as_bytes(),
        ca.as_bytes(),
        "different.stellar-webhook.svc",
    )
    .unwrap_err();
    assert!(matches!(error, CertHealthError::MissingDnsName(_)));
}

#[test]
fn rejects_leaf_certificate_as_ca() {
    let (cert, _key, ca) = issued_certificates();
    let error =
        validate_serving_certificate(cert.as_bytes(), cert.as_bytes(), SERVICE).unwrap_err();
    assert!(matches!(error, CertHealthError::NotCa));
    assert!(!ca.is_empty());
}

#[test]
fn detects_mismatched_private_key() {
    let (_cert2, other_key, _ca2) = issued_certificates();
    let (cert, _key, ca) = issued_certificates();
    let error = validate_files(
        cert.as_bytes(),
        other_key.as_bytes(),
        ca.as_bytes(),
        "tls.crt",
        "tls.key",
        SERVICE,
    )
    .unwrap_err();
    assert!(matches!(error, CertHealthError::InvalidServerIdentity(_)));
}

#[test]
fn matching_files_are_healthy() {
    let (cert, key, ca) = issued_certificates();
    let state = validate_files(
        cert.as_bytes(),
        key.as_bytes(),
        ca.as_bytes(),
        "tls.crt",
        "tls.key",
        SERVICE,
    )
    .unwrap();
    assert!(state.is_valid());
    assert!(
        load_server_config(cert.as_bytes(), key.as_bytes(), "tls.crt", "tls.key").is_ok()
    );
    let found = server_identity(cert.as_bytes(), key.as_bytes(), "tls.crt", "tls.key").unwrap();
    assert_eq!(found.certs.len(), 1);
    assert!(matches!(found.key, KeyDer::Pkcs8(_)));
}

#[test]
fn files_without_blocks_are_named() {
    let (cert, key, _ca) = issued_certificates();
    let error = server_identity(b"", key.as_bytes(), "tls.crt", "tls.key").unwrap_err();
    assert!(matches!(&error, CertHealthError::NoCertificate(p) if p == "tls.crt"));
    let error = server_identity(cert.as_bytes(), b"", "tls.crt", "tls.key").unwrap_err();
    assert!(matches!(&error, CertHealthError::NoPrivateKey(p) if p == "tls.key"));
    let error = validate_serving_certificate(b"", b"", SERVICE).unwrap_err();
    assert!(matches!(error, CertHealthError::Parse(_)));
}

#[test]
fn blocks_are_decoded() {
    let pem = b"-----BEGIN CERTIFICATE-----\nAQID\nBAUG\n-----END CERTIFICATE-----\n";
    assert_eq!(pem_blocks(pem, "CERTIFICATE"), vec![vec![1, 2, 3, 4, 5, 6]]);
    assert!(pem_blocks(pem, "PRIVATE KEY").is_empty());
}

fn facts() -> CertificateFacts {
    CertificateFacts {
        leaf_valid: true,
        ca_valid: true,
        ca_is_ca: true,
        signature_error: None,
        names: Ok(Some(vec![None, Some(SERVICE.to_string())])),
        server_usage: Ok(Some(true)),
        not_before: 1,
        not_after: 2,
    }
}

#[test]
fn certificate_is_judged_by_every_fact() {
    let state = judge_certificate(facts(), SERVICE).unwrap();
    assert_eq!((state.valid, state.not_before, state.not_after), (true, 1, 2));
    let mut f = facts();
    f.leaf_valid = false;
    assert!(matches!(judge_certificate(f, SERVICE), Err(CertHealthError::Expired)));
    let mut f = facts();
    f.ca_valid = false;
    assert!(matches!(judge_certificate(f, SERVICE), Err(CertHealthError::CaExpired)));
    let mut f = facts();
    f.server_usage = Ok(Some(false));
    assert!(matches!(judge_certificate(f, SERVICE), Err(CertHealthError::MissingServerAuth)));
    let mut f = facts();
    f.names = Ok(None);
    assert!(matches!(judge_certificate(f, SERVICE), Err(CertHealthError::MissingDnsName(_))));
}

#[test]
fn remaining_ratio_tracks_expiry_horizons() {
    let mut state = CertHealthState::default();
    state.not_before = 1_000;
    state.not_after = 1_100;
    assert!((remaining_ratio(&state, 1_025) - 0.75).abs() < f64::EPSILON);
    assert!((remaining_ratio(&state, 1_075) - 0.25).abs() < f64::EPSILON);
    assert!((remaining_ratio(&state, 1_090) - 0.10).abs() < f64::EPSILON);
    assert_eq!(remaining_ratio(&state, 1_101), 0.0);
}

#[test]
fn health_is_replaced_and_lost() {
    let mut state = CertHealthState::default();
    assert!(!state.is_valid());
    state.replace(&CertHealthState { valid: true, not_before: 1, not_after: 5 });
    assert!(state.is_valid());
    assert!(state
        .prometheus("0.500000")
        .ends_with("stellar_webhook_certificate_remaining_ratio 0.500000\n"));
    assert!(state.prometheus("0").contains("stellar_webhook_certificate_valid 1\n"));
    state.invalidate();
    assert!(!state.is_valid());
}

fn shifted(days: i64) -> Timestamp {
    let now = Timestamp::now();
    Timestamp::new(now.timestamp() + days * 86_400, now.subsec_nanos()).unwrap()
}

fn certificate(name: &str, from_days: i64, to_days: i64) -> CertificateInfo {
    CertificateInfo {
        name: name.to_string(),
        domain: "example.com".to_string(),
        issuer: "Let's Encrypt".to_string(),
        not_before: shifted(from_days),
        not_after: shifted(to_days),
        status: CertStatus::Active,
        serial_number: "1234567890".to_string(),
        fingerprint: "abc123".to_string(),
        auto_renew: true,
        renewal_threshold_days: 30,
    }
}

#[test]
fn test_certificate_info_expiry() {
    let cert = certificate("test-cert", -30, 60);
    assert!(!cert.is_expiring_soon(30));
    assert_eq!(cert.days_until_expiry(), 60);
}

#[test]
fn test_certificate_expiring_soon() {
    let cert = certificate("test-cert", -60, 15);
    assert!(cert.is_expiring_soon(30));
    assert_eq!(cert.days_until_expiry(), 15);
}

#[test]
fn test_cert_manager_add_and_get() {
    let mut manager = CertManager::new(RenewalConfig::default());
    manager.add_certificate(certificate("test-cert", 0, 90));
    let retrieved = manager.get_certificate("test-cert");

    assert!(retrieved.is_some());
    assert_eq!(retrieved.unwrap().domain, "example.com");
}

#[test]
fn test_cert_manager_expiring_soon() {
    let mut manager = CertManager::new(RenewalConfig::default());
    manager.add_certificate(certificate("expiring-cert", -60, 15));
    let expiring = manager.get_expiring_soon(30);

    assert_eq!(expiring.len(), 1);
    assert_eq!(expiring[0].name, "expiring-cert");
}

#[test]
fn ended_certificate_has_expired() {
    let mut manager = CertManager::new(RenewalConfig::default());
    manager.add_certificate(certificate("old", -60, -1));
    manager.add_certificate(certificate("new", 0, 90));
    assert_eq!(manager.get_expired().len(), 1);
    assert_eq!(manager.list_certificates().len(), 2);
    assert_eq!(certificate("old", -60, -1).calculate_status(30), CertStatus::Expired);
    assert_eq!(certificate("x", 0, 10).calculate_status(30), CertStatus::ExpiringSoon);
    assert_eq!(certificate("x", 0, 60).calculate_status(30), CertStatus::Active);
    let m = manager.get_metrics();
    assert_eq!((m.total_certificates, m.expired_certificates), (2, 1));
    assert!(m.to_prometheus("1.00").contains('2'));
}

#[test]
fn renewal_moves_the_end() {
    let mut manager = CertManager::new(RenewalConfig::default());
    manager.add_certificate(certificate("a", -60, 5));
    let renewed = manager.renew_certificate("a").unwrap();
    assert_eq!(renewed.status, CertStatus::Active);
    assert!(renewed.days_until_expiry() > 30);
    assert_eq!(manager.get_renewal_history().len(), 1);
    assert!(manager.get_renewal_history()[0].success);
    let error = manager.renew_certificate("b").unwrap_err();
    assert!(matches!(&error, CertManagerError::CertNotFound(n) if n == "b"));
    assert!(error.to_text().contains('b'));
}

#[test]
fn failed_renewal_keeps_the_end() {
    let mut manager = CertManager::new(RenewalConfig::default());
    let before = certificate("a", -60, 5);
    let end = before.not_after;
    manager.add_certificate(before);
    let now = Timestamp::now();
    let replies: Vec<Result<Timestamp, String>> =
        (0..10).map(|_| Err("refused".to_string())).collect();
    assert!(manager.renew_with("a", &replies, now, now).is_err());
    let kept = manager.get_certificate("a").unwrap();
    assert_eq!(kept.not_after, end);
    assert_eq!(kept.status, CertStatus::Failed);
}

#[test]
fn manifest_names_the_service() {
    let text = CertManagerResourceGenerator::generate_certificate_manifest(
        &InterServiceMtlsConfig::default(),
        "horizon",
    );
    assert!(text.contains("horizon"), "{text}");
    assert!(text.contains("kind: Certificate"), "{text}");
}

#[test]
fn certificate_holds_within_its_time() {
    let (cert, key, ca) = issued_certificates();
    let begin = 1_767_225_600;
    let judged = |seconds: i64, nanos: u32| {
        let now = Timestamp::new(seconds, nanos).unwrap();
        validate_serving_certificate_at(cert.as_bytes(), ca.as_bytes(), SERVICE, now)
    };
    let state = judged(begin, 0).unwrap();
    assert!(state.is_valid());
    assert_eq!(state.not_before, begin);
    assert!(matches!(judged(begin - 1, 999_999_999), Err(CertHealthError::Expired)));
    assert!(judged(state.not_after, 0).is_ok());
    assert!(matches!(judged(state.not_after + 1, 0), Err(CertHealthError::Expired)));
    let files = |seconds: i64| {
        validate_files_at(
            cert.as_bytes(),
            key.as_bytes(),
            ca.as_bytes(),
            "tls.crt",
            "tls.key",
            SERVICE,
            Timestamp::new(seconds, 0).unwrap(),
        )
    };
    assert!(files(begin).unwrap().is_valid());
    assert!(matches!(files(begin - 1), Err(CertHealthError::Expired)));
}

#[test]
fn server_certificate_comes_from_the_whole_secret() {
    let message = |data: &Option<StrMap<Vec<u8>>>| match mtls_config(data) {
        Err(Error::ConfigError(m)) => m,
        other => panic!("{other:?}"),
    };
    assert_eq!(message(&None), "Secret has no data");
    let mut data = StrMap::new();
    data.insert("ca.crt".to_string(), vec![3]);
    let data = Some(data);
    assert_eq!(message(&data), "Missing tls.crt");
    let mut data = data.unwrap();
    data.insert("tls.crt".to_string(), vec![1]);
    let data = Some(data);
    assert_eq!(message(&data), "Missing tls.key");
    let mut data = data.unwrap();
    data.insert("tls.key".to_string(), vec![2]);
    data.remove("ca.crt");
    let data = Some(data);
    assert_eq!(message(&data), "Missing ca.crt");
    let mut data = data.unwrap();
    data.insert("ca.crt".to_string(), vec![3]);
    let found = mtls_config(&Some(data)).unwrap();
    assert_eq!((found.cert_pem, found.key_pem, found.ca_pem), (vec![1], vec![2], vec![3]));
}

#[test]
fn certificate_has_expired_right_after_its_end() {
    let end = Timestamp::new(1_800_000_000, 0).unwrap();
    let later = |seconds: i64| Timestamp::new(1_800_000_000 + seconds, 0).unwrap();
    let mut cert = certificate("c", -60, 0);
    cert.not_after = end;
    assert_eq!(cert.calculate_status_at(30, end), CertStatus::ExpiringSoon);
    assert_eq!(cert.calculate_status_at(30, later(1)), CertStatus::Expired);
    assert!(!cert.has_ended_at(end));
    assert_eq!(cert.days_until_expiry_at(later(1)), 0);
    assert_eq!(cert.days_until_expiry_at(later(86_400)), -1);
    let mut manager = CertManager::new(RenewalConfig::default());
    manager.add_certificate(cert);
    assert!(manager.get_expired_at(end).is_empty());
    assert_eq!(manager.get_expired_at(later(3600)).len(), 1);
    assert_eq!(manager.get_metrics_at(later(3600)).expired_certificates, 1);
}
