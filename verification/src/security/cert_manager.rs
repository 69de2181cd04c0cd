//! The life of TLS certificates: when they end, and their renewal.

use vstd::prelude::*;
use vstd::string::*;
use crate::clock::{LAST_SECOND, Timestamp, later};
use crate::crd::control_plane_health::opt_view;
use crate::str_map::{
    StrMap, ascending, entry, lemma_read_after_write, lemma_viewed, viewed, with_entry,
};
use crate::text::{cat2, cat3, cat4, cat5, decimal, decimal_text, join, joined, views};

verus! {

/// Why something could not be done with a certificate.
#[verifier::ext_equal]
pub ghost enum Failure {
    NotFound(Seq<char>),
    Expired(Seq<char>),
    Renewal(Seq<char>),
    Config(Seq<char>),
}

/// Why something could not be done with a certificate.
#[derive(Debug)]
pub enum CertManagerError {
    CertNotFound(String),
    CertExpired(String),
    RenewalFailed(String),
    ConfigError(String),
}

impl View for CertManagerError {
    type V = Failure;

    open spec fn view(&self) -> Failure {
        match self {
            CertManagerError::CertNotFound(s) => Failure::NotFound(s@),
            CertManagerError::CertExpired(s) => Failure::Expired(s@),
            CertManagerError::RenewalFailed(s) => Failure::Renewal(s@),
            CertManagerError::ConfigError(s) => Failure::Config(s@),
        }
    }
}

impl Failure {
    /// The failure for people to read.
    pub open spec fn text(self) -> Seq<char> {
        match self {
            Failure::NotFound(s) => "Certificate not found: "@ + s,
            Failure::Expired(s) => "Certificate expired: "@ + s,
            Failure::Renewal(s) => "Renewal failed: "@ + s,
            Failure::Config(s) => "Configuration error: "@ + s,
        }
    }
}

impl CertManagerError {
    /// The error for people to read.
    pub fn to_text(&self) -> (r: String)
        ensures
            r@ == self@.text(),
    {
        match self {
            CertManagerError::CertNotFound(s) => cat2("Certificate not found: ", s),
            CertManagerError::CertExpired(s) => cat2("Certificate expired: ", s),
            CertManagerError::RenewalFailed(s) => cat2("Renewal failed: ", s),
            CertManagerError::ConfigError(s) => cat2("Configuration error: ", s),
        }
    }
}

#[derive(Clone, Copy, Debug, PartialEq, Eq, Structural)]
pub enum CertStatus {
    Active,
    ExpiringSoon,
    Expired,
    Renewing,
    Failed,
}

/// A certificate.
#[verifier::ext_equal]
pub ghost struct Cert {
    pub name: Seq<char>,
    pub domain: Seq<char>,
    pub issuer: Seq<char>,
    pub not_before: int,
    pub not_after: int,
    pub status: CertStatus,
    pub serial_number: Seq<char>,
    pub fingerprint: Seq<char>,
    pub auto_renew: bool,
    pub renewal_threshold_days: u32,
}

/// A certificate.
#[derive(Debug)]
pub struct CertificateInfo {
    pub name: String,
    pub domain: String,
    pub issuer: String,
    pub not_before: Timestamp,
    pub not_after: Timestamp,
    pub status: CertStatus,
    pub serial_number: String,
    pub fingerprint: String,
    pub auto_renew: bool,
    pub renewal_threshold_days: u32,
}

impl View for CertificateInfo {
    type V = Cert;

    open(crate) spec fn view(&self) -> Cert {
        Cert {
            name: self.name@,
            domain: self.domain@,
            issuer: self.issuer@,
            not_before: self.not_before.instant(),
            not_after: self.not_after.instant(),
            status: self.status,
            serial_number: self.serial_number@,
            fingerprint: self.fingerprint@,
            auto_renew: self.auto_renew,
            renewal_threshold_days: self.renewal_threshold_days,
        }
    }
}

/// The nanoseconds of a day.
pub const DAY: i128 = 86_400_000_000_000;

impl Cert {
    /// Whether no more than so many days are left.
    pub open spec fn ends_within(self, days: int, now: int) -> bool {
        now >= self.not_after - days * DAY
    }

    /// The days that are left. A day that has begun counts as a whole one; after
    /// the end the number is negative once a whole day has passed.
    pub open spec fn days_left(self, now: int) -> int {
        let n = self.not_after - now;
        if n > 0 {
            (n + DAY - 1) / (DAY as int)
        } else {
            -((-n) / (DAY as int))
        }
    }

    /// Whether the certificate has ended.
    pub open spec fn has_ended(self, now: int) -> bool {
        now > self.not_after
    }

    /// The status that follows from the end and the days that are left.
    pub open spec fn status_at(self, warning_days: int, now: int) -> CertStatus {
        if self.has_ended(now) {
            CertStatus::Expired
        } else if self.days_left(now) < warning_days {
            CertStatus::ExpiringSoon
        } else {
            CertStatus::Active
        }
    }
}

impl CertificateInfo {
    /// Whether no more than so many days are left, now.
    pub fn is_expiring_soon(&self, threshold_days: u32) -> (r: bool)
        ensures
            exists|now: int| r == #[trigger] self@.ends_within(threshold_days as int, now),
    {
        let now = Timestamp::now();
        self.is_expiring_soon_at(threshold_days, now)
    }

    /// Whether no more than so many days are left.
    pub fn is_expiring_soon_at(&self, threshold_days: u32, now: Timestamp) -> (r: bool)
        ensures
            r == self@.ends_within(threshold_days as int, now.instant()),
    {
        let left: i128 = self.not_after.nanos_since(now);
        let threshold: i128 = threshold_days as i128 * DAY;
        left <= threshold
    }

    /// The days that are left now. A day that has begun counts as a whole one.
    pub fn days_until_expiry(&self) -> (r: i64)
        ensures
            exists|now: int| r == #[trigger] self@.days_left(now),
    {
        let now = Timestamp::now();
        self.days_until_expiry_at(now)
    }

    /// The days that are left. A day that has begun counts as a whole one.
    pub fn days_until_expiry_at(&self, now: Timestamp) -> (r: i64)
        ensures
            r == self@.days_left(now.instant()),
    {
        let left: i128 = self.not_after.nanos_since(now);
        if left > 0 {
            ((left + DAY - 1) / DAY) as i64
        } else {
            -(((-left) / DAY) as i64)
        }
    }

    /// Whether the certificate has ended.
    pub fn has_ended_at(&self, now: Timestamp) -> (r: bool)
        ensures
            r == self@.has_ended(now.instant()),
    {
        self.not_after.is_before(now)
    }

    /// The status that follows from the end and the days that are left now.
    pub fn calculate_status(&self, warning_days: u32) -> (r: CertStatus)
        ensures
            exists|now: int| r == #[trigger] self@.status_at(warning_days as int, now),
    {
        let now = Timestamp::now();
        self.calculate_status_at(warning_days, now)
    }

    /// The status that follows from the end and the days that are left.
    pub fn calculate_status_at(&self, warning_days: u32, now: Timestamp) -> (r: CertStatus)
        ensures
            r == self@.status_at(warning_days as int, now.instant()),
    {
        let days: i64 = self.days_until_expiry_at(now);
        if self.has_ended_at(now) {
            CertStatus::Expired
        } else if days < warning_days as i64 {
            CertStatus::ExpiringSoon
        } else {
            CertStatus::Active
        }
    }

    /// The same certificate.
    pub fn copy(&self) -> (r: CertificateInfo)
        ensures
            r@ == self@,
    {
        CertificateInfo {
            name: self.name.clone(),
            domain: self.domain.clone(),
            issuer: self.issuer.clone(),
            not_before: self.not_before,
            not_after: self.not_after,
            status: self.status,
            serial_number: self.serial_number.clone(),
            fingerprint: self.fingerprint.clone(),
            auto_renew: self.auto_renew,
            renewal_threshold_days: self.renewal_threshold_days,
        }
    }
}

/// A certificate counts as expired once it has ended, and up to its end never.
/// Within no days at all ends just one that is at its end or past it.
pub proof fn law_expired_has_ended(c: Cert, warning_days: int, now: int)
    requires
        warning_days >= 0,
    ensures
        c.status_at(warning_days, now) == CertStatus::Expired <==> now > c.not_after,
        c.days_left(now) < 0 ==> c.status_at(warning_days, now) == CertStatus::Expired,
        c.ends_within(0, now) == (now >= c.not_after),
{
}

#[derive(Debug)]
pub struct RenewalConfig {
    pub enabled: bool,
    pub threshold_days: u32,
    pub max_retries: u32,
    pub retry_delay_seconds: u32,
    pub notification_webhook: Option<String>,
    pub notification_email: Option<String>,
}

impl Default for RenewalConfig {
    fn default() -> (r: Self)
        ensures
            r.enabled,
            r.threshold_days == 30,
            r.max_retries == 3,
            r.retry_delay_seconds == 300,
            r.notification_webhook is None,
            r.notification_email is None,
    {
        RenewalConfig {
            enabled: true,
            threshold_days: 30,
            max_retries: 3,
            retry_delay_seconds: 300,
            notification_webhook: None,
            notification_email: None,
        }
    }
}

/// How the services know each other by their certificates.
#[derive(Debug)]
pub struct InterServiceMtlsConfig {
    pub enabled: bool,
    pub issuer_name: String,
    pub namespace: String,
    pub stellar_core_service: String,
    pub horizon_service: String,
    pub companion_services: Vec<String>,
    pub cert_duration_hours: u32,
    pub renew_before_hours: u32,
}

impl Default for InterServiceMtlsConfig {
    fn default() -> (r: Self)
        ensures
            r.enabled,
            r.issuer_name@ == "stellar-inter-service-ca"@,
            r.namespace@ == "stellar-system"@,
            r.stellar_core_service@ == "stellar-core"@,
            r.horizon_service@ == "horizon"@,
            views(r.companion_services@) == seq!["soroban-rpc"@, "ingestion-worker"@],
            r.cert_duration_hours == 2160,
            r.renew_before_hours == 360,
    {
        let mut companion_services: Vec<String> = Vec::new();
        companion_services.push("soroban-rpc".to_string());
        companion_services.push("ingestion-worker".to_string());
        assert(views(companion_services@) =~= seq!["soroban-rpc"@, "ingestion-worker"@]);
        InterServiceMtlsConfig {
            enabled: true,
            issuer_name: "stellar-inter-service-ca".to_string(),
            namespace: "stellar-system".to_string(),
            stellar_core_service: "stellar-core".to_string(),
            horizon_service: "horizon".to_string(),
            companion_services,
            cert_duration_hours: 2160,
            renew_before_hours: 360,
        }
    }
}

/// The lines of the manifest of a service's certificate.
pub open spec fn certificate_lines(
    config: InterServiceMtlsConfig,
    service: Seq<char>,
) -> Seq<Seq<char>> {
    let namespace = config.namespace@;
    seq![
        "apiVersion: cert-manager.io/v1"@,
        "kind: Certificate"@,
        "metadata:"@,
        "  name: "@ + service + "-mtls-cert"@,
        "  namespace: "@ + namespace,
        "spec:"@,
        "  secretName: "@ + service + "-mtls-secret"@,
        "  duration: "@ + decimal(config.cert_duration_hours as int) + "h"@,
        "  renewBefore: "@ + decimal(config.renew_before_hours as int) + "h"@,
        "  isCA: false"@,
        "  privateKey:"@,
        "   algorithm: ECDSA"@,
        "   size: 256"@,
        "  dnsNames:"@,
        "  - "@ + service,
        "  - "@ + service + "."@ + namespace,
        "  - "@ + service + "."@ + namespace + ".svc.cluster.local"@,
        "  issuerRef:"@,
        "   name: "@ + config.issuer_name@,
        "   kind: Issuer"@,
        "   group: cert-manager.io"@,
    ]
}

/// Writes the manifests of certificates.
pub struct CertManagerResourceGenerator;

impl CertManagerResourceGenerator {
    /// The manifest of a service's certificate.
    pub fn generate_certificate_manifest(
        config: &InterServiceMtlsConfig,
        service_name: &str,
    ) -> (r: String)
        ensures
            r@ == joined(certificate_lines(*config, service_name@), "\n"@) + "\n"@,
    {
        let namespace = &config.namespace;
        let mut lines: Vec<String> = Vec::new();
        lines.push("apiVersion: cert-manager.io/v1".to_string());
        lines.push("kind: Certificate".to_string());
        lines.push("metadata:".to_string());
        lines.push(cat3("  name: ", service_name, "-mtls-cert"));
        lines.push(cat2("  namespace: ", namespace));
        lines.push("spec:".to_string());
        lines.push(cat3("  secretName: ", service_name, "-mtls-secret"));
        lines.push(cat3("  duration: ", &decimal_text(config.cert_duration_hours as u64), "h"));
        lines.push(cat3("  renewBefore: ", &decimal_text(config.renew_before_hours as u64), "h"));
        lines.push("  isCA: false".to_string());
        lines.push("  privateKey:".to_string());
        lines.push("   algorithm: ECDSA".to_string());
        lines.push("   size: 256".to_string());
        lines.push("  dnsNames:".to_string());
        lines.push(cat2("  - ", service_name));
        lines.push(cat4("  - ", service_name, ".", namespace));
        lines.push(cat5("  - ", service_name, ".", namespace, ".svc.cluster.local"));
        lines.push("  issuerRef:".to_string());
        lines.push(cat2("   name: ", &config.issuer_name));
        lines.push("   kind: Issuer".to_string());
        lines.push("   group: cert-manager.io".to_string());
        assert(views(lines@) =~= certificate_lines(*config, service_name@));
        cat2(&join(&lines, "\n"), "\n")
    }
}

/// What came of a renewal.
#[verifier::ext_equal]
pub ghost struct Renewal {
    pub cert_name: Seq<char>,
    pub renewed_at: int,
    pub success: bool,
    pub old_expiry: int,
    pub new_expiry: Option<int>,
    pub error: Option<Seq<char>>,
}

/// What came of a renewal.
#[derive(Debug)]
pub struct RenewalRecord {
    pub cert_name: String,
    pub renewed_at: Timestamp,
    pub success: bool,
    pub old_expiry: Timestamp,
    pub new_expiry: Option<Timestamp>,
    pub error: Option<String>,
}

impl View for RenewalRecord {
    type V = Renewal;

    open(crate) spec fn view(&self) -> Renewal {
        Renewal {
            cert_name: self.cert_name@,
            renewed_at: self.renewed_at.instant(),
            success: self.success,
            old_expiry: self.old_expiry.instant(),
            new_expiry: match self.new_expiry {
                Some(t) => Some(t.instant()),
                None => None,
            },
            error: match self.error {
                Some(e) => Some(e@),
                None => None,
            },
        }
    }
}

/// What records tell of.
pub open spec fn renewals(v: Seq<RenewalRecord>) -> Seq<Renewal> {
    Seq::new(v.len(), |i: int| v[i]@)
}

/// A provider's reply: when the new certificate ends, or why there is none.
pub open spec fn reply_of(r: Result<Timestamp, String>) -> Result<int, Seq<char>> {
    match r {
        Ok(t) => Ok(t.instant()),
        Err(e) => Err(e@),
    }
}

/// A provider's replies.
pub open spec fn replies_of(v: Seq<Result<Timestamp, String>>) -> Seq<Result<int, Seq<char>>> {
    Seq::new(v.len(), |i: int| reply_of(v[i]))
}

/// What the attempts from `i` on come to: the end of the new certificate, and
/// the last error before it. There are at most `max` attempts.
pub open spec fn attempts(
    replies: Seq<Result<int, Seq<char>>>,
    i: int,
    max: int,
    error: Option<Seq<char>>,
) -> (Option<int>, Option<Seq<char>>)
    decreases replies.len() - i,
{
    if i < 0 || i >= max || i >= replies.len() {
        (None, error)
    } else {
        match replies[i] {
            Ok(expiry) => (Some(expiry), error),
            Err(e) => attempts(replies, i + 1, max, Some(e)),
        }
    }
}

/// The certificates of a manager and what came of renewals.
#[verifier::ext_equal]
pub ghost struct Vault {
    pub certs: Seq<(Seq<char>, Cert)>,
    pub history: Seq<Renewal>,
    pub enabled: bool,
    pub threshold_days: int,
    pub max_retries: int,
    pub retry_delay: int,
    pub notification_webhook: Option<Seq<char>>,
    pub notification_email: Option<Seq<char>>,
}

impl Vault {
    /// Whether a certificate is due for renewal.
    pub open spec fn is_due(self, c: Cert, now: int) -> bool {
        c.days_left(now) <= self.threshold_days
    }

    /// The vault after a renewal, and the certificate that it gave.
    pub open spec fn after_renewal(
        self,
        name: Seq<char>,
        replies: Seq<Result<int, Seq<char>>>,
        now: int,
        renewed_at: int,
    ) -> (Vault, Result<Cert, Failure>) {
        match entry(self.certs, name) {
            None => (self, Err(Failure::NotFound(name))),
            Some(c) => if !self.is_due(c, now) {
                (self, Err(Failure::Renewal("Certificate not due for renewal"@)))
            } else {
                let (expiry, error) = attempts(replies, 0, self.max_retries, None);
                let record = Renewal {
                    cert_name: c.name,
                    renewed_at,
                    success: expiry is Some,
                    old_expiry: c.not_after,
                    new_expiry: expiry,
                    error,
                };
                let after = match expiry {
                    Some(t) => Cert { not_after: t, status: CertStatus::Active, ..c },
                    None => Cert { status: CertStatus::Failed, ..c },
                };
                let reply = match expiry {
                    Some(t) => Ok(after),
                    None => Err(
                        Failure::Renewal(
                            match error {
                                Some(e) => e,
                                None => "Unknown error"@,
                            },
                        ),
                    ),
                };
                (
                    Vault {
                        certs: with_entry(self.certs, name, after),
                        history: self.history.push(record),
                        ..self
                    },
                    reply,
                )
            },
        }
    }

    /// Those of the first `n` certificates of which no more than so many days
    /// are left.
    pub open spec fn ending(self, days: int, now: int, n: int) -> Seq<Cert>
        decreases n,
    {
        if n <= 0 {
            Seq::empty()
        } else if self.certs[n - 1].1.ends_within(days, now) {
            self.ending(days, now, n - 1).push(self.certs[n - 1].1)
        } else {
            self.ending(days, now, n - 1)
        }
    }

    /// Those of the first `n` certificates that have expired.
    pub open spec fn expired(self, now: int, n: int) -> Seq<Cert>
        decreases n,
    {
        if n <= 0 {
            Seq::empty()
        } else if self.certs[n - 1].1.has_ended(now) {
            self.expired(now, n - 1).push(self.certs[n - 1].1)
        } else {
            self.expired(now, n - 1)
        }
    }

    /// How many of the first `n` certificates are active.
    pub open spec fn active(self, n: int) -> int
        decreases n,
    {
        if n <= 0 {
            0
        } else if self.certs[n - 1].1.status == CertStatus::Active {
            self.active(n - 1) + 1
        } else {
            self.active(n - 1)
        }
    }

    /// How many of the first `n` renewals succeeded.
    pub open spec fn succeeded(self, n: int) -> int
        decreases n,
    {
        if n <= 0 {
            0
        } else if self.history[n - 1].success {
            self.succeeded(n - 1) + 1
        } else {
            self.succeeded(n - 1)
        }
    }
}

/// The certificates that a list holds.
pub open spec fn certs_of(v: Seq<CertificateInfo>) -> Seq<Cert> {
    Seq::new(v.len(), |i: int| v[i]@)
}

/// Keeps certificates and renews them.
pub struct CertManager {
    pub(crate) certificates: StrMap<CertificateInfo>,
    pub(crate) renewal_config: RenewalConfig,
    pub(crate) renewal_history: Vec<RenewalRecord>,
}

impl View for CertManager {
    type V = Vault;

    open(crate) spec fn view(&self) -> Vault {
        Vault {
            certs: viewed(self.certificates.list()),
            history: renewals(self.renewal_history@),
            enabled: self.renewal_config.enabled,
            threshold_days: self.renewal_config.threshold_days as int,
            max_retries: self.renewal_config.max_retries as int,
            retry_delay: self.renewal_config.retry_delay_seconds as int,
            notification_webhook: opt_view(self.renewal_config.notification_webhook),
            notification_email: opt_view(self.renewal_config.notification_email),
        }
    }
}

/// A renewal that succeeds gives a certificate that ends when the provider says;
/// one that fails leaves its end as it was.
pub proof fn law_failed_renewal_keeps_the_end(
    v: Vault,
    name: Seq<char>,
    replies: Seq<Result<int, Seq<char>>>,
    now: int,
    renewed_at: int,
)
    requires
        ascending(v.certs),
        entry(v.certs, name) is Some,
    ensures
        ({
            let (after, reply) = v.after_renewal(name, replies, now, renewed_at);
            let c = entry(after.certs, name)->0;
            &&& entry(after.certs, name) is Some
            &&& reply is Err ==> c.not_after == entry(v.certs, name)->0.not_after
            &&& reply is Ok ==> c == reply->Ok_0 && c.status == CertStatus::Active
        }),
{
    let (after, reply) = v.after_renewal(name, replies, now, renewed_at);
    let c = entry(v.certs, name)->0;
    if v.is_due(c, now) {
        let (expiry, error) = attempts(replies, 0, v.max_retries, None);
        let renewed = match expiry {
            Some(t) => Cert { not_after: t, status: CertStatus::Active, ..c },
            None => Cert { status: CertStatus::Failed, ..c },
        };
        lemma_read_after_write(v.certs, name, renewed, name);
    }
}

/// A renewal leaves the other certificates as they are.
pub proof fn law_renewal_leaves_others(
    v: Vault,
    name: Seq<char>,
    other: Seq<char>,
    replies: Seq<Result<int, Seq<char>>>,
    now: int,
    renewed_at: int,
)
    requires
        ascending(v.certs),
        name != other,
    ensures
        entry(v.after_renewal(name, replies, now, renewed_at).0.certs, other) == entry(
            v.certs,
            other,
        ),
{
    match entry(v.certs, name) {
        Some(c) => {
            let (expiry, error) = attempts(replies, 0, v.max_retries, None);
            let renewed = match expiry {
                Some(t) => Cert { not_after: t, status: CertStatus::Active, ..c },
                None => Cert { status: CertStatus::Failed, ..c },
            };
            lemma_read_after_write(v.certs, name, renewed, other);
        },
        None => {},
    }
}

impl CertManager {
    pub fn new(renewal_config: RenewalConfig) -> (r: Self)
        ensures
            r@.certs.len() == 0,
            r@.history.len() == 0,
            r@.enabled == renewal_config.enabled,
            r@.threshold_days == renewal_config.threshold_days,
            r@.max_retries == renewal_config.max_retries,
            r@.retry_delay == renewal_config.retry_delay_seconds,
            r@.notification_webhook == opt_view(renewal_config.notification_webhook),
            r@.notification_email == opt_view(renewal_config.notification_email),
    {
        CertManager {
            certificates: StrMap::new(),
            renewal_config,
            renewal_history: Vec::new(),
        }
    }

    /// Enters a certificate, in place of the one of the same name.
    pub fn add_certificate(&mut self, cert: CertificateInfo)
        ensures
            final(self)@ == (Vault {
                certs: with_entry(old(self)@.certs, cert@.name, cert@),
                ..old(self)@
            }),
    {
        proof {
            lemma_viewed(self.certificates.list(), cert@.name, cert);
        }
        let name = cert.name.clone();
        self.certificates.insert(name, cert);
    }

    /// The certificate of a name.
    pub fn get_certificate(&self, name: &str) -> (r: Option<CertificateInfo>)
        ensures
            (match r {
                Some(c) => entry(self@.certs, name@) == Some(c@),
                None => entry(self@.certs, name@) is None,
            }),
    {
        proof {
            lemma_viewed(self.certificates.list(), name@, arbitrary());
        }
        match self.certificates.get(name) {
            Some(c) => Some(c.copy()),
            None => None,
        }
    }

    /// All certificates, in the order of their names.
    pub fn list_certificates(&self) -> (r: Vec<CertificateInfo>)
        ensures
            r@.len() == self@.certs.len(),
            forall|i: int| 0 <= i < r@.len() ==> (#[trigger] r@[i])@ == self@.certs[i].1,
    {
        let mut r: Vec<CertificateInfo> = Vec::new();
        let n = self.certificates.len();
        let mut i: usize = 0;
        while i < n
            invariant
                i <= n,
                n == self.certificates.list().len(),
                r@.len() == i,
                forall|j: int| 0 <= j < i ==> (#[trigger] r@[j])@ == self@.certs[j].1,
            decreases n - i,
        {
            r.push(self.certificates.value_at(i).copy());
            i = i + 1;
        }
        r
    }

    /// The certificates of which no more than so many days are left now.
    pub fn get_expiring_soon(&self, threshold_days: u32) -> (r: Vec<CertificateInfo>)
        ensures
            exists|now: int|
                certs_of(r@) == #[trigger] self@.ending(
                    threshold_days as int,
                    now,
                    self@.certs.len() as int,
                ),
    {
        let now = Timestamp::now();
        self.get_expiring_soon_at(threshold_days, now)
    }

    /// The certificates of which no more than so many days are left.
    pub fn get_expiring_soon_at(&self, threshold_days: u32, now: Timestamp) -> (r: Vec<
        CertificateInfo,
    >)
        ensures
            certs_of(r@) == self@.ending(
                threshold_days as int,
                now.instant(),
                self@.certs.len() as int,
            ),
    {
        let mut r: Vec<CertificateInfo> = Vec::new();
        assert(certs_of(r@) =~= Seq::<Cert>::empty());
        let n = self.certificates.len();
        let mut i: usize = 0;
        while i < n
            invariant
                i <= n,
                n == self.certificates.list().len(),
                certs_of(r@) == self@.ending(threshold_days as int, now.instant(), i as int),
            decreases n - i,
        {
            let c = self.certificates.value_at(i);
            assert(self@.certs[i as int].1 == c@);
            if c.is_expiring_soon_at(threshold_days, now) {
                let ghost before = certs_of(r@);
                r.push(c.copy());
                assert(certs_of(r@) =~= before.push(c@));
            }
            i = i + 1;
        }
        r
    }

    /// The certificates that have expired by now.
    pub fn get_expired(&self) -> (r: Vec<CertificateInfo>)
        ensures
            exists|now: int|
                certs_of(r@) == #[trigger] self@.expired(now, self@.certs.len() as int),
    {
        let now = Timestamp::now();
        self.get_expired_at(now)
    }

    /// The certificates that have expired.
    pub fn get_expired_at(&self, now: Timestamp) -> (r: Vec<CertificateInfo>)
        ensures
            certs_of(r@) == self@.expired(now.instant(), self@.certs.len() as int),
    {
        let mut r: Vec<CertificateInfo> = Vec::new();
        assert(certs_of(r@) =~= Seq::<Cert>::empty());
        let n = self.certificates.len();
        let mut i: usize = 0;
        while i < n
            invariant
                i <= n,
                n == self.certificates.list().len(),
                certs_of(r@) == self@.expired(now.instant(), i as int),
            decreases n - i,
        {
            let c = self.certificates.value_at(i);
            assert(self@.certs[i as int].1 == c@);
            if c.has_ended_at(now) {
                let ghost before = certs_of(r@);
                r.push(c.copy());
                assert(certs_of(r@) =~= before.push(c@));
            }
            i = i + 1;
        }
        r
    }

    /// Renews a certificate for 90 days, now.
    pub fn renew_certificate(&mut self, name: &str) -> (r: Result<CertificateInfo, CertManagerError>)
        ensures
            exists|now: int|
                same_reply(
                    r,
                    final(self)@,
                    old(self)@.after_renewal(
                        name@,
                        #[trigger] simulated(now),
                        now,
                        now,
                    ),
                ),
    {
        let now = Timestamp::now();
        self.renew_certificate_at(name, now)
    }

    /// Renews a certificate for 90 days.
    pub fn renew_certificate_at(&mut self, name: &str, now: Timestamp) -> (r: Result<
        CertificateInfo,
        CertManagerError,
    >)
        ensures
            same_reply(
                r,
                final(self)@,
                old(self)@.after_renewal(
                    name@,
                    simulated(now.instant()),
                    now.instant(),
                    now.instant(),
                ),
            ),
    {
        let mut replies: Vec<Result<Timestamp, String>> = Vec::new();
        replies.push(CertManager::simulate_renewal(now));
        assert(replies_of(replies@) =~= simulated(now.instant()));
        self.renew_with(name, &replies, now, now)
    }

    /// A new certificate ends after 90 days.
    fn simulate_renewal(now: Timestamp) -> (r: Result<Timestamp, String>)
        ensures
            reply_of(r) == Ok::<int, Seq<char>>(later(now.instant(), 7_776_000)),
    {
        Ok(now.plus(7_776_000))
    }

    /// Renews a certificate, from what a provider replied to the attempts, one
    /// after the other. More attempts than the configuration allows are not
    /// looked at.
    pub fn renew_with(
        &mut self,
        name: &str,
        replies: &Vec<Result<Timestamp, String>>,
        now: Timestamp,
        renewed_at: Timestamp,
    ) -> (r: Result<CertificateInfo, CertManagerError>)
        ensures
            same_reply(
                r,
                final(self)@,
                old(self)@.after_renewal(
                    name@,
                    replies_of(replies@),
                    now.instant(),
                    renewed_at.instant(),
                ),
            ),
    {
        proof {
            lemma_viewed(self.certificates.list(), name@, arbitrary());
        }
        let ghost before = self@;
        let mut cert = match self.certificates.get(name) {
            Some(c) => c.copy(),
            None => {
                return Err(CertManagerError::CertNotFound(name.to_string()));
            },
        };
        if cert.days_until_expiry_at(now) > self.renewal_config.threshold_days as i64 {
            return Err(
                CertManagerError::RenewalFailed("Certificate not due for renewal".to_string()),
            );
        }
        let (new_expiry, error) = CertManager::make_attempts(
            replies,
            self.renewal_config.max_retries,
        );
        let old_expiry = cert.not_after;
        let success = new_expiry.is_some();
        match new_expiry {
            Some(t) => {
                cert.not_after = t;
                cert.status = CertStatus::Active;
            },
            None => {
                cert.status = CertStatus::Failed;
            },
        }
        let error_kept = match &error {
            Some(e) => Some(e.clone()),
            None => None,
        };
        let record = RenewalRecord {
            cert_name: cert.name.clone(),
            renewed_at,
            success,
            old_expiry,
            new_expiry,
            error: error_kept,
        };
        let ghost noted = record@;
        self.renewal_history.push(record);
        assert(renewals(self.renewal_history@) =~= before.history.push(noted));
        let kept = cert.copy();
        proof {
            lemma_viewed(self.certificates.list(), name@, kept);
        }
        self.certificates.insert(name.to_string(), kept);
        if success {
            Ok(cert)
        } else {
            let text = match error {
                Some(e) => e,
                None => "Unknown error".to_string(),
            };
            Err(CertManagerError::RenewalFailed(text))
        }
    }

    fn make_attempts(replies: &Vec<Result<Timestamp, String>>, max: u32) -> (r: (
        Option<Timestamp>,
        Option<String>,
    ))
        ensures
            ({
                let (expiry, error) = attempts(replies_of(replies@), 0, max as int, None);
                &&& expiry == match r.0 {
                    Some(t) => Some(t.instant()),
                    None => None,
                }
                &&& error == match r.1 {
                    Some(e) => Some(e@),
                    None => None,
                }
            }),
    {
        let ghost all = replies_of(replies@);
        let mut error: Option<String> = None;
        let mut i: usize = 0;
        while i < replies.len() && (i as u64) < max as u64
            invariant
                i <= replies.len(),
                i <= max,
                all == replies_of(replies@),
                attempts(all, 0, max as int, None) == attempts(
                    all,
                    i as int,
                    max as int,
                    match error {
                        Some(e) => Some(e@),
                        None => None,
                    },
                ),
            decreases replies@.len() - i,
        {
            assert(all[i as int] == reply_of(replies@[i as int]));
            match &replies[i] {
                Ok(t) => {
                    return (Some(*t), error);
                },
                Err(e) => {
                    error = Some(e.clone());
                },
            }
            i = i + 1;
        }
        (None, error)
    }

    /// What came of the renewals so far.
    pub fn get_renewal_history(&self) -> (r: &Vec<RenewalRecord>)
        ensures
            renewals(r@) == self@.history,
    {
        &self.renewal_history
    }

    /// Counts certificates and renewals, now.
    pub fn get_metrics(&self) -> (r: CertMetrics)
        ensures
            exists|now: int| #[trigger] counts(self@, r, now),
    {
        let now = Timestamp::now();
        self.get_metrics_at(now)
    }

    /// Counts certificates and renewals.
    pub fn get_metrics_at(&self, now: Timestamp) -> (r: CertMetrics)
        ensures
            counts(self@, r, now.instant()),
    {
        let n = self.certificates.len();
        let mut active: usize = 0;
        let mut i: usize = 0;
        while i < n
            invariant
                active <= i <= n,
                n == self.certificates.list().len(),
                active == self@.active(i as int),
            decreases n - i,
        {
            let c = self.certificates.value_at(i);
            assert(self@.certs[i as int].1 == c@);
            if c.status == CertStatus::Active {
                active = active + 1;
            }
            i = i + 1;
        }
        let attempted = self.renewal_history.len();
        let mut succeeded: usize = 0;
        let mut j: usize = 0;
        while j < attempted
            invariant
                succeeded <= j <= attempted,
                attempted == self.renewal_history@.len(),
                succeeded == self@.succeeded(j as int),
            decreases attempted - j,
        {
            assert(self@.history[j as int] == self.renewal_history@[j as int]@);
            if self.renewal_history[j].success {
                succeeded = succeeded + 1;
            }
            j = j + 1;
        }
        let soon = self.get_expiring_soon_at(self.renewal_config.threshold_days, now);
        let expired = self.get_expired_at(now);
        assert(certs_of(soon@).len() == soon@.len());
        assert(certs_of(expired@).len() == expired@.len());
        CertMetrics {
            total_certificates: n,
            active_certificates: active,
            expiring_soon: soon.len(),
            expired_certificates: expired.len(),
            renewals_attempted: attempted,
            renewals_succeeded: succeeded,
        }
    }
}

/// The replies of a provider that renews for 90 days.
pub open spec fn simulated(now: int) -> Seq<Result<int, Seq<char>>> {
    seq![Ok(later(now, 7_776_000))]
}

/// The vault and the reply are those of a renewal.
pub open spec fn same_reply(
    r: Result<CertificateInfo, CertManagerError>,
    after: Vault,
    expected: (Vault, Result<Cert, Failure>),
) -> bool {
    after == expected.0 && match expected.1 {
        Ok(c) => r is Ok && r->Ok_0@ == c,
        Err(e) => r is Err && r->Err_0@ == e,
    }
}

/// The metrics count what is in a vault.
pub open spec fn counts(v: Vault, m: CertMetrics, now: int) -> bool {
    &&& m.total_certificates == v.certs.len()
    &&& m.active_certificates == v.active(v.certs.len() as int)
    &&& m.expiring_soon == v.ending(v.threshold_days, now, v.certs.len() as int).len()
    &&& m.expired_certificates == v.expired(now, v.certs.len() as int).len()
    &&& m.renewals_attempted == v.history.len()
    &&& m.renewals_succeeded == v.succeeded(v.history.len() as int)
}

/// How many certificates and renewals there are.
#[derive(Clone, Copy, Debug)]
pub struct CertMetrics {
    pub total_certificates: usize,
    pub active_certificates: usize,
    pub expiring_soon: usize,
    pub expired_certificates: usize,
    pub renewals_attempted: usize,
    pub renewals_succeeded: usize,
}

/// The lines of the metrics for Prometheus.
pub open spec fn metric_lines(m: CertMetrics, success_rate: Seq<char>) -> Seq<Seq<char>> {
    seq![
        "# TYPE stellar_cert_total gauge"@,
        "stellar_cert_total "@ + decimal(m.total_certificates as int),
        "# TYPE stellar_cert_active gauge"@,
        "stellar_cert_active "@ + decimal(m.active_certificates as int),
        "# TYPE stellar_cert_expiring_soon gauge"@,
        "stellar_cert_expiring_soon "@ + decimal(m.expiring_soon as int),
        "# TYPE stellar_cert_expired gauge"@,
        "stellar_cert_expired "@ + decimal(m.expired_certificates as int),
        "# TYPE stellar_cert_renewals_total counter"@,
        "stellar_cert_renewals_total "@ + decimal(m.renewals_attempted as int),
        "# TYPE stellar_cert_renewals_succeeded counter"@,
        "stellar_cert_renewals_succeeded "@ + decimal(m.renewals_succeeded as int),
        "# TYPE stellar_cert_renewal_success_rate gauge"@,
        "stellar_cert_renewal_success_rate "@ + success_rate,
    ]
}

impl CertMetrics {
    /// The metrics for Prometheus. The rate of success comes as a text, in
    /// percent with two decimals.
    pub fn to_prometheus(&self, success_rate: &str) -> (r: String)
        ensures
            r@ == joined(metric_lines(*self, success_rate@), "\n"@) + "\n"@,
    {
        let mut lines: Vec<String> = Vec::new();
        lines.push("# TYPE stellar_cert_total gauge".to_string());
        lines.push(cat2("stellar_cert_total ", &decimal_text(self.total_certificates as u64)));
        lines.push("# TYPE stellar_cert_active gauge".to_string());
        lines.push(cat2("stellar_cert_active ", &decimal_text(self.active_certificates as u64)));
        lines.push("# TYPE stellar_cert_expiring_soon gauge".to_string());
        lines.push(cat2("stellar_cert_expiring_soon ", &decimal_text(self.expiring_soon as u64)));
        lines.push("# TYPE stellar_cert_expired gauge".to_string());
        lines.push(cat2("stellar_cert_expired ", &decimal_text(self.expired_certificates as u64)));
        lines.push("# TYPE stellar_cert_renewals_total counter".to_string());
        lines.push(
            cat2("stellar_cert_renewals_total ", &decimal_text(self.renewals_attempted as u64)),
        );
        lines.push("# TYPE stellar_cert_renewals_succeeded counter".to_string());
        lines.push(
            cat2(
                "stellar_cert_renewals_succeeded ",
                &decimal_text(self.renewals_succeeded as u64),
            ),
        );
        lines.push("# TYPE stellar_cert_renewal_success_rate gauge".to_string());
        lines.push(cat2("stellar_cert_renewal_success_rate ", success_rate));
        assert(views(lines@) =~= metric_lines(*self, success_rate@));
        cat2(&join(&lines, "\n"), "\n")
    }
}

/// The days that are left are counted up: a day that has begun counts as one.
pub proof fn law_days_are_counted_up(c: Cert, now: int)
    ensures
        (c.days_left(now) - 1) * DAY < c.not_after - now <= c.days_left(now) * DAY,
{
    let n = c.not_after - now;
    let d = DAY as int;
    if n > 0 {
        let m = n + d - 1;
        assert(d * (m / d) <= m < d * (m / d) + d) by (nonlinear_arith)
            requires
                d > 0,
        ;
    } else {
        let m = -n;
        assert(d * (m / d) <= m < d * (m / d) + d) by (nonlinear_arith)
            requires
                d > 0,
        ;
    }
}

/// A certificate is about to end where no more than the given days are left, and
/// has ended where its end is past; its status says so.
pub proof fn law_status_tells_the_time_left(c: Cert, days: int, now: int)
    ensures
        c.ends_within(days, now) <==> c.not_after - now <= days * DAY,
        c.has_ended(now) <==> c.not_after - now < 0,
        c.status_at(days, now) == CertStatus::Expired <==> c.not_after < now,
        c.status_at(days, now) == CertStatus::ExpiringSoon <==> c.not_after >= now && c.not_after
            - now <= (days - 1) * DAY,
        c.status_at(days, now) == CertStatus::Active <==> c.not_after >= now && c.not_after - now > (
        days - 1) * DAY,
{
    law_days_are_counted_up(c, now);
    let left = c.days_left(now);
    let d = DAY as int;
    assert(left <= days - 1 ==> left * d <= (days - 1) * d) by (nonlinear_arith)
        requires
            d > 0,
    ;
    assert(left >= days ==> (left - 1) * d >= (days - 1) * d) by (nonlinear_arith)
        requires
            d > 0,
    ;
}

proof fn lemma_attempts(
    replies: Seq<Result<int, Seq<char>>>,
    i: int,
    max: int,
    error: Option<Seq<char>>,
)
    requires
        0 <= i,
    ensures
        (match attempts(replies, i, max, error).0 {
            Some(t) => exists|k: int|
                i <= k < max && k < replies.len() && #[trigger] replies[k] == Ok::<int, Seq<char>>(t)
                    && forall|j: int| i <= j < k ==> (#[trigger] replies[j]) is Err,
            None => forall|j: int|
                i <= j < max && j < replies.len() ==> (#[trigger] replies[j]) is Err,
        }),
    decreases replies.len() - i,
{
    if i < max && i < replies.len() {
        match replies[i] {
            Ok(t) => {
                assert(replies[i] == Ok::<int, Seq<char>>(t));
            },
            Err(e) => {
                lemma_attempts(replies, i + 1, max, Some(e));
            },
        }
    }
}

/// A renewal is tried at most so many times, and the first reply that grants one
/// is taken; it fails where every reply that counts is a refusal.
pub proof fn law_first_grant_is_taken(replies: Seq<Result<int, Seq<char>>>, max: int)
    ensures
        (match attempts(replies, 0, max, None).0 {
            Some(t) => exists|k: int|
                0 <= k < max && k < replies.len() && #[trigger] replies[k] == Ok::<int, Seq<char>>(t)
                    && forall|j: int| 0 <= j < k ==> (#[trigger] replies[j]) is Err,
            None => forall|j: int|
                0 <= j < max && j < replies.len() ==> (#[trigger] replies[j]) is Err,
        }),
{
    lemma_attempts(replies, 0, max, None);
}

/// A certificate is renewed only where it is known and no more days are left
/// than the threshold; else nothing changes. A renewal that is tried is
/// recorded, and one that is granted moves the end and nothing else of the
/// certificate but its status.
pub proof fn law_renewal_is_tried_when_due(
    v: Vault,
    name: Seq<char>,
    replies: Seq<Result<int, Seq<char>>>,
    now: int,
    renewed_at: int,
)
    requires
        ascending(v.certs),
    ensures
        ({
            let (after, reply) = v.after_renewal(name, replies, now, renewed_at);
            let known = entry(v.certs, name);
            let c = known->0;
            let due = known is Some && c.not_after - now <= v.threshold_days * DAY;
            &&& known is None ==> after == v && reply == Err::<Cert, Failure>(
                Failure::NotFound(name),
            )
            &&& !due ==> after == v && reply is Err
            &&& due ==> {
                let rec = after.history.last();
                &&& after.history.len() == v.history.len() + 1
                &&& after.history.drop_last() == v.history
                &&& rec.cert_name == c.name && rec.renewed_at == renewed_at && rec.old_expiry
                    == c.not_after
                &&& rec.success == reply is Ok
                &&& rec.new_expiry == attempts(replies, 0, v.max_retries, None).0
                &&& reply is Ok <==> rec.new_expiry is Some
                &&& reply is Ok ==> reply->Ok_0 == (Cert {
                    not_after: rec.new_expiry->0,
                    status: CertStatus::Active,
                    ..c
                }) && entry(after.certs, name) == Some(reply->Ok_0)
                &&& reply is Err ==> entry(after.certs, name) == Some(
                    Cert { status: CertStatus::Failed, ..c },
                )
            }
            &&& after.threshold_days == v.threshold_days && after.max_retries == v.max_retries
                && after.enabled == v.enabled
        }),
{
    if entry(v.certs, name) is Some {
        let c = entry(v.certs, name)->0;
        law_days_are_counted_up(c, now);
        let left = c.days_left(now);
        let t = v.threshold_days;
        let d = DAY as int;
        assert(left <= t ==> left * d <= t * d) by (nonlinear_arith)
            requires
                d > 0,
        ;
        assert(left > t ==> (left - 1) * d >= t * d) by (nonlinear_arith)
            requires
                d > 0,
        ;
        let (after, reply) = v.after_renewal(name, replies, now, renewed_at);
        if left <= t {
            assert(after.history.drop_last() =~= v.history);
            let expiry = attempts(replies, 0, v.max_retries, None).0;
            let cert = match expiry {
                Some(t) => Cert { not_after: t, status: CertStatus::Active, ..c },
                None => Cert { status: CertStatus::Failed, ..c },
            };
            lemma_read_after_write(v.certs, name, cert, name);
        }
    }
}

/// The certificates that are about to end are found, and no other.
pub proof fn law_ending_certificates_are_found(v: Vault, days: int, now: int, n: int)
    requires
        0 <= n <= v.certs.len(),
    ensures
        forall|i: int|
            #![trigger v.certs[i]]
            0 <= i < n && v.certs[i].1.not_after - now <= days * DAY ==> v.ending(days, now, n).contains(v.certs[i].1),
        forall|x: Cert| #[trigger]
            v.ending(days, now, n).contains(x) ==> exists|i: int|
                #![trigger v.certs[i]]
                0 <= i < n && v.certs[i].1.not_after - now <= days * DAY && x == v.certs[i].1,
    decreases n,
{
    if n > 0 {
        law_ending_certificates_are_found(v, days, now, n - 1);
        let p = v.ending(days, now, n - 1);
        let r = v.ending(days, now, n);
        assert forall|i: int|
            #![trigger v.certs[i]]
            0 <= i < n && v.certs[i].1.not_after - now <= days * DAY implies r.contains(v.certs[i].1) by {
            if i == n - 1 {
                assert(r[p.len() as int] == v.certs[i].1);
            } else {
                assert(p.contains(v.certs[i].1));
                let k = choose|k: int| 0 <= k < p.len() && p[k] == v.certs[i].1;
                assert(r[k] == v.certs[i].1);
            }
        }
        assert forall|x: Cert| #[trigger] r.contains(x) implies exists|i: int|
            #![trigger v.certs[i]]
            0 <= i < n && v.certs[i].1.not_after - now <= days * DAY && x == v.certs[i].1 by {
            let j = choose|j: int| 0 <= j < r.len() && r[j] == x;
            if j < p.len() {
                assert(r[j] == p[j]);
                assert(p.contains(x));
                let i = choose|i: int|
                    #![trigger v.certs[i]]
                    0 <= i < n - 1 && v.certs[i].1.not_after - now <= days * DAY && x == v.certs[i].1;
                assert(v.certs[i].1.not_after - now <= days * DAY && x == v.certs[i].1);
            } else {
                let i = n - 1;
                assert(v.certs[i].1.not_after - now <= days * DAY && x == v.certs[i].1);
            }
        }
    }
}

/// The certificates that have ended are found, and no other.
pub proof fn law_ended_certificates_are_found(v: Vault, now: int, n: int)
    requires
        0 <= n <= v.certs.len(),
    ensures
        forall|i: int|
            #![trigger v.certs[i]]
            0 <= i < n && v.certs[i].1.not_after < now ==> v.expired(now, n).contains(v.certs[i].1),
        forall|x: Cert| #[trigger]
            v.expired(now, n).contains(x) ==> exists|i: int|
                #![trigger v.certs[i]]
                0 <= i < n && v.certs[i].1.not_after < now && x == v.certs[i].1,
    decreases n,
{
    if n > 0 {
        law_ended_certificates_are_found(v, now, n - 1);
        let p = v.expired(now, n - 1);
        let r = v.expired(now, n);
        assert forall|i: int|
            #![trigger v.certs[i]]
            0 <= i < n && v.certs[i].1.not_after < now implies r.contains(v.certs[i].1) by {
            if i == n - 1 {
                assert(r[p.len() as int] == v.certs[i].1);
            } else {
                assert(p.contains(v.certs[i].1));
                let k = choose|k: int| 0 <= k < p.len() && p[k] == v.certs[i].1;
                assert(r[k] == v.certs[i].1);
            }
        }
        assert forall|x: Cert| #[trigger] r.contains(x) implies exists|i: int|
            #![trigger v.certs[i]]
            0 <= i < n && v.certs[i].1.not_after < now && x == v.certs[i].1 by {
            let j = choose|j: int| 0 <= j < r.len() && r[j] == x;
            if j < p.len() {
                assert(r[j] == p[j]);
                assert(p.contains(x));
                let i = choose|i: int|
                    #![trigger v.certs[i]]
                    0 <= i < n - 1 && v.certs[i].1.not_after < now && x == v.certs[i].1;
                assert(v.certs[i].1.not_after < now && x == v.certs[i].1);
            } else {
                let i = n - 1;
                assert(v.certs[i].1.not_after < now && x == v.certs[i].1);
            }
        }
    }
}

/// The certificate is active.
pub open spec fn holds_active() -> spec_fn((Seq<char>, Cert)) -> bool {
    |e: (Seq<char>, Cert)| e.1.status == CertStatus::Active
}

/// The active certificates are counted.
pub proof fn law_active_certificates_are_counted(v: Vault, n: int)
    requires
        0 <= n <= v.certs.len(),
    ensures
        v.active(n) == v.certs.subrange(0, n).filter(holds_active()).len(),
    decreases n,
{
    reveal(Seq::filter);
    let s = v.certs.subrange(0, n);
    if n > 0 {
        law_active_certificates_are_counted(v, n - 1);
        assert(s.drop_last() =~= v.certs.subrange(0, n - 1));
        assert(s.last() == v.certs[n - 1]);
    }
}

/// The renewal was granted.
pub open spec fn was_granted() -> spec_fn(Renewal) -> bool {
    |e: Renewal| e.success
}

/// The renewals that were granted are counted.
pub proof fn law_granted_renewals_are_counted(v: Vault, n: int)
    requires
        0 <= n <= v.history.len(),
    ensures
        v.succeeded(n) == v.history.subrange(0, n).filter(was_granted()).len(),
    decreases n,
{
    reveal(Seq::filter);
    let s = v.history.subrange(0, n);
    if n > 0 {
        law_granted_renewals_are_counted(v, n - 1);
        assert(s.drop_last() =~= v.history.subrange(0, n - 1));
        assert(s.last() == v.history[n - 1]);
    }
}

/// Where nothing refuses it, a renewal is for ninety days.
pub proof fn law_renewal_is_for_ninety_days(now: int)
    requires
        now + 90 * DAY < (LAST_SECOND + 1) * 1_000_000_000,
    ensures
        attempts(simulated(now), 0, 1, None).0 == Some(now + 90 * DAY),
{
    reveal_with_fuel(attempts, 2);
}

/// The metrics tell how many certificates there are, and of the renewals how many
/// there were and how many of them were granted, which are no more than were tried.
pub proof fn law_metrics_count_the_vault(v: Vault, m: CertMetrics, now: int)
    requires
        counts(v, m, now),
    ensures
        m.total_certificates == v.certs.len(),
        m.renewals_attempted == v.history.len(),
        m.renewals_succeeded == v.history.filter(was_granted()).len(),
        m.renewals_succeeded <= m.renewals_attempted,
        m.active_certificates == v.active(v.certs.len() as int),
        m.expiring_soon == v.ending(v.threshold_days, now, v.certs.len() as int).len(),
        m.expired_certificates == v.expired(now, v.certs.len() as int).len(),
{
    let n = v.history.len() as int;
    law_granted_renewals_are_counted(v, n);
    assert(v.history.subrange(0, n) =~= v.history);
    lemma_granted_are_tried(v, n);
}

proof fn lemma_granted_are_tried(v: Vault, n: int)
    requires
        0 <= n,
    ensures
        0 <= v.succeeded(n) <= n,
    decreases n,
{
    if n > 0 {
        lemma_granted_are_tried(v, n - 1);
    }
}

} // verus!
