//! A broker of short-lived credentials.
//!
//! Workloads get their secrets here and nowhere else. The broker knows a
//! workload by its identity, gives it credentials that end within an hour and
//! can be renewed, notes whom it gave what, and notes reads of static secrets
//! so that they can be done away with. Its leases outlive a failover.

use vstd::prelude::*;
use vstd::string::*;
use crate::clock::{Timestamp, later, whole};
use crate::str_map::{
    StrMap, ascending, entry, lemma_read_after_remove, lemma_read_after_write, lemma_viewed,
    viewed, with_entry, without_entry,
};
use crate::text::{
    Cut, after_prefix, cat2, cat3, cat6, cat7, cut, cut_upto, cuts, first_place, occurs_at, pieces,
    same, split_at_first, split_once, strip_prefix, views,
};

verus! {

/// No credential lasts longer than this many seconds.
pub const MAX_CREDENTIAL_TTL_SECS: i64 = 3600;

/// How many seconds a credential lasts if none are asked for.
pub const DEFAULT_CREDENTIAL_TTL_SECS: i64 = 900;

/// The identity of a workload.
#[verifier::ext_equal]
pub ghost struct Identity {
    pub spiffe_id: Seq<char>,
    pub trust_domain: Seq<char>,
    pub namespace: Seq<char>,
    pub service_account: Seq<char>,
}

/// The identity of a workload.
#[derive(Debug)]
pub struct WorkloadIdentity {
    /// Such as `spiffe://trust-domain/ns/stellar/sa/validator`.
    pub spiffe_id: String,
    pub trust_domain: String,
    pub namespace: String,
    pub service_account: String,
}

impl View for WorkloadIdentity {
    type V = Identity;

    open spec fn view(&self) -> Identity {
        Identity {
            spiffe_id: self.spiffe_id@,
            trust_domain: self.trust_domain@,
            namespace: self.namespace@,
            service_account: self.service_account@,
        }
    }
}

/// The identity of a service account.
pub open spec fn identity_of(
    trust_domain: Seq<char>,
    namespace: Seq<char>,
    service_account: Seq<char>,
) -> Identity {
    Identity {
        spiffe_id: "spiffe://"@ + trust_domain + "/ns/"@ + namespace + "/sa/"@ + service_account,
        trust_domain,
        namespace,
        service_account,
    }
}

/// The value of the last of the first `n` pairs with a key. A pair is two parts
/// that follow each other.
pub open spec fn pair_value(parts: Seq<Seq<char>>, key: Seq<char>, n: int) -> Option<Seq<char>>
    decreases n,
{
    if n <= 0 {
        None
    } else if parts[2 * n - 2] == key {
        Some(parts[2 * n - 1])
    } else {
        pair_value(parts, key, n - 1)
    }
}

/// The identity that a text names, or what is wrong with the text.
pub open spec fn parsed_identity(id: Seq<char>) -> Result<Identity, Seq<char>> {
    match after_prefix(id, "spiffe://"@) {
        None => Err("spiffe ID must start with spiffe://: "@ + id),
        Some(rest) => match split_at_first(rest, "/"@) {
            None => Err("spiffe ID missing path: "@ + id),
            Some((trust_domain, path)) => if trust_domain.len() == 0 {
                Err("spiffe ID has empty trust domain"@)
            } else {
                let parts = pieces(path, Cut::Slashes);
                let pairs = parts.len() as int / 2;
                match (pair_value(parts, "ns"@, pairs), pair_value(parts, "sa"@, pairs)) {
                    (Some(namespace), Some(service_account)) => if namespace.len() > 0
                        && service_account.len() > 0 {
                        Ok(Identity { spiffe_id: id, trust_domain, namespace, service_account })
                    } else {
                        Err("spiffe ID must contain /ns/<ns>/sa/<sa>: "@ + id)
                    },
                    _ => Err("spiffe ID must contain /ns/<ns>/sa/<sa>: "@ + id),
                }
            },
        },
    }
}

fn value_of_pair(parts: &Vec<String>, key: &str) -> (r: Option<String>)
    ensures
        (match r {
            Some(t) => pair_value(views(parts@), key@, parts@.len() as int / 2) == Some(t@),
            None => pair_value(views(parts@), key@, parts@.len() as int / 2) is None,
        }),
{
    let len = parts.len();
    let mut n: usize = len / 2;
    let ghost all = pair_value(views(parts@), key@, n as int);
    while n > 0
        invariant
            2 * n <= len,
            len == parts@.len(),
            all == pair_value(views(parts@), key@, n as int),
            all == pair_value(views(parts@), key@, parts@.len() as int / 2),
        decreases n,
    {
        assert(views(parts@)[2 * n - 2] == parts@[2 * n - 2]@);
        assert(views(parts@)[2 * n - 1] == parts@[2 * n - 1]@);
        if same(&parts[2 * n - 2], key) {
            return Some(parts[2 * n - 1].clone());
        }
        n = n - 1;
    }
    None
}

impl WorkloadIdentity {
    pub fn new(trust_domain: &str, namespace: &str, service_account: &str) -> (r: Self)
        ensures
            r@ == identity_of(trust_domain@, namespace@, service_account@),
    {
        WorkloadIdentity {
            spiffe_id: cat6(
                "spiffe://",
                trust_domain,
                "/ns/",
                namespace,
                "/sa/",
                service_account,
            ),
            trust_domain: trust_domain.to_string(),
            namespace: namespace.to_string(),
            service_account: service_account.to_string(),
        }
    }

    /// Reads an identity of the form `spiffe://trust-domain/ns/<ns>/sa/<sa>`.
    pub fn parse(spiffe_id: &str) -> (r: Result<Self, String>)
        ensures
            (match parsed_identity(spiffe_id@) {
                Ok(id) => r is Ok && r->Ok_0@ == id,
                Err(e) => r is Err && r->Err_0@ == e,
            }),
    {
        let rest = match strip_prefix(spiffe_id, "spiffe://") {
            Some(rest) => rest,
            None => {
                return Err(cat2("spiffe ID must start with spiffe://: ", spiffe_id));
            },
        };
        let (trust_domain, path) = match split_once(&rest, "/") {
            Some(t) => t,
            None => {
                return Err(cat2("spiffe ID missing path: ", spiffe_id));
            },
        };
        if trust_domain.as_str().is_empty() {
            return Err("spiffe ID has empty trust domain".to_string());
        }
        let parts = cut(&path, Cut::Slashes);
        assert(views(parts@).len() == parts@.len());
        match (value_of_pair(&parts, "ns"), value_of_pair(&parts, "sa")) {
            (Some(namespace), Some(service_account)) => {
                if !namespace.as_str().is_empty() && !service_account.as_str().is_empty() {
                    Ok(
                        WorkloadIdentity {
                            spiffe_id: spiffe_id.to_string(),
                            trust_domain,
                            namespace,
                            service_account,
                        },
                    )
                } else {
                    Err(cat2("spiffe ID must contain /ns/<ns>/sa/<sa>: ", spiffe_id))
                }
            },
            _ => Err(cat2("spiffe ID must contain /ns/<ns>/sa/<sa>: ", spiffe_id)),
        }
    }
}

/// A text without slashes.
pub open spec fn without_slash(s: Seq<char>) -> bool {
    forall|i: int| 0 <= i < s.len() ==> #[trigger] s[i] != '/'
}

proof fn lemma_uncut(s: Seq<char>, k: Cut, n: int)
    requires
        0 <= n <= s.len(),
        forall|i: int| 0 <= i < n ==> !cuts(k, #[trigger] s[i]),
    ensures
        cut_upto(s, k, n) == seq![s.subrange(0, n)],
    decreases n,
{
    if n > 0 {
        lemma_uncut(s, k, n - 1);
        assert(s.subrange(0, n - 1).push(s[n - 1]) =~= s.subrange(0, n));
        assert(cut_upto(s, k, n) =~= seq![s.subrange(0, n)]);
    } else {
        assert(s.subrange(0, 0) =~= Seq::<char>::empty());
        assert(cut_upto(s, k, 0) =~= seq![s.subrange(0, 0)]);
    }
}

proof fn lemma_cut_pieces(k: Cut, n: int, s: Seq<char>)
    ensures
        cut_upto(s, k, n).len() > 0,
    decreases n,
{
    if n > 0 {
        lemma_cut_pieces(k, n - 1, s);
    }
}

proof fn lemma_cut_after(s: Seq<char>, a: int, k: Cut, m: int)
    requires
        0 <= a < s.len(),
        cuts(k, s[a]),
        0 <= m <= s.len() - a - 1,
    ensures
        cut_upto(s, k, a + 1 + m) == cut_upto(s, k, a) + cut_upto(
            s.subrange(a + 1, s.len() as int),
            k,
            m,
        ),
    decreases m,
{
    let b = s.subrange(a + 1, s.len() as int);
    if m > 0 {
        lemma_cut_after(s, a, k, m - 1);
        lemma_cut_pieces(k, m - 1, b);
        assert(b[m - 1] == s[a + m]);
        let x = cut_upto(s, k, a);
        let y = cut_upto(b, k, m - 1);
        assert((x + y).last() == y.last());
        assert((x + y).drop_last() =~= x + y.drop_last());
        assert(cut_upto(s, k, a + 1 + m) =~= x + cut_upto(b, k, m));
    } else {
        assert(cut_upto(s, k, a + 1) =~= cut_upto(s, k, a) + cut_upto(b, k, 0));
    }
}

/// The pieces of a text that begins with a part without a cut.
proof fn lemma_first_piece(a: Seq<char>, b: Seq<char>)
    requires
        without_slash(a),
    ensures
        pieces(a + "/"@ + b, Cut::Slashes) == seq![a] + pieces(b, Cut::Slashes),
{
    reveal_strlit("/");
    let s = a + "/"@ + b;
    lemma_uncut(s, Cut::Slashes, a.len() as int);
    assert(s.subrange(0, a.len() as int) =~= a);
    lemma_cut_after(s, a.len() as int, Cut::Slashes, b.len() as int);
    assert(s.subrange(a.len() as int + 1, s.len() as int) =~= b);
}

proof fn lemma_first_slash(a: Seq<char>, b: Seq<char>, i: int)
    requires
        without_slash(a),
        0 <= i <= a.len(),
    ensures
        crate::text::first_place(a + "/"@ + b, "/"@, i) == Some(a.len() as int),
    decreases a.len() - i,
{
    reveal_strlit("/");
    let s = a + "/"@ + b;
    if i < a.len() {
        assert(s.subrange(i, i + 1)[0] == a[i]);
        assert(!crate::text::occurs_at(s, "/"@, i));
        lemma_first_slash(a, b, i + 1);
    } else {
        assert(s.subrange(i, i + 1) =~= "/"@);
    }
}

/// The identity of a service account is read back from its text, where no part
/// is empty or holds a slash.
pub proof fn law_identity_is_read_back(
    trust_domain: Seq<char>,
    namespace: Seq<char>,
    service_account: Seq<char>,
)
    requires
        without_slash(trust_domain),
        without_slash(namespace),
        without_slash(service_account),
        trust_domain.len() > 0,
        namespace.len() > 0,
        service_account.len() > 0,
    ensures
        parsed_identity(identity_of(trust_domain, namespace, service_account).spiffe_id) == Ok::<
            Identity,
            Seq<char>,
        >(identity_of(trust_domain, namespace, service_account)),
{
    reveal_strlit("/");
    reveal_strlit("/ns/");
    reveal_strlit("/sa/");
    reveal_strlit("ns");
    reveal_strlit("sa");
    reveal_strlit("spiffe://");
    let id = identity_of(trust_domain, namespace, service_account).spiffe_id;
    let tail = "sa"@ + "/"@ + service_account;
    let middle = namespace + "/"@ + tail;
    let path = "ns"@ + "/"@ + middle;
    let rest = trust_domain + "/"@ + path;
    assert(id =~= "spiffe://"@ + rest);
    assert(id.subrange(0, 9) =~= "spiffe://"@);
    assert(id.subrange(9, id.len() as int) =~= rest);
    assert(after_prefix(id, "spiffe://"@) == Some(rest));
    lemma_first_slash(trust_domain, path, 0);
    assert(rest.subrange(0, trust_domain.len() as int) =~= trust_domain);
    assert(rest.subrange(trust_domain.len() as int + 1, rest.len() as int) =~= path);
    assert(split_at_first(rest, "/"@) == Some((trust_domain, path)));
    assert(without_slash("ns"@));
    assert(without_slash("sa"@));
    lemma_first_piece("ns"@, middle);
    lemma_first_piece(namespace, tail);
    lemma_first_piece("sa"@, service_account);
    lemma_uncut(service_account, Cut::Slashes, service_account.len() as int);
    assert(service_account.subrange(0, service_account.len() as int) =~= service_account);
    let parts = pieces(path, Cut::Slashes);
    assert(parts =~= seq!["ns"@, namespace, "sa"@, service_account]);
    assert("sa"@[0] != "ns"@[0]);
    assert(pair_value(parts, "sa"@, 2) == Some(service_account));
    assert(pair_value(parts, "ns"@, 2) == pair_value(parts, "ns"@, 1));
    assert(pair_value(parts, "ns"@, 1) == Some(namespace));
}

/// A credential as it was given.
#[verifier::ext_equal]
pub ghost struct Grant {
    pub lease_id: Seq<char>,
    pub workload: Seq<char>,
    pub secret: Seq<char>,
    pub material: Seq<char>,
    pub issued: int,
    pub expires: int,
    pub ttl: int,
    pub renewable: bool,
    pub generation: u64,
}

impl Grant {
    /// The credential in writing. Its material is not told.
    pub open spec fn text(self) -> Seq<char> {
        "lease "@ + self.lease_id + " on "@ + self.secret + " for "@ + self.workload
            + ": [REDACTED]"@
    }
}

/// What is written of a credential says nothing of its material.
pub proof fn law_material_is_not_told(g: Grant, material: Seq<char>)
    ensures
        (Grant { material, ..g }).text() == g.text(),
{
}

/// A credential of a workload, for a short time.
#[derive(Debug)]
pub struct Credential {
    pub lease_id: String,
    /// The workload that it was given to.
    pub workload_spiffe: String,
    pub secret_name: String,
    /// What the workload shows. It stands in no text.
    pub material: String,
    pub issued_at: Timestamp,
    pub expires_at: Timestamp,
    pub ttl_secs: i64,
    pub renewable: bool,
    pub generation: u64,
}

impl View for Credential {
    type V = Grant;

    open(crate) spec fn view(&self) -> Grant {
        Grant {
            lease_id: self.lease_id@,
            workload: self.workload_spiffe@,
            secret: self.secret_name@,
            material: self.material@,
            issued: self.issued_at.instant(),
            expires: self.expires_at.instant(),
            ttl: self.ttl_secs as int,
            renewable: self.renewable,
            generation: self.generation,
        }
    }
}

impl Credential {
    /// The whole seconds from its issue to its end.
    pub fn ttl_secs(&self) -> (r: i64)
        ensures
            r == whole(self@.expires - self@.issued, 1_000_000_000),
    {
        self.expires_at.seconds_since(self.issued_at)
    }

    /// Whether the credential has ended.
    pub fn is_expired(&self, now: Timestamp) -> (r: bool)
        ensures
            r == (now.instant() >= self@.expires),
    {
        !now.is_before(self.expires_at)
    }

    /// Whether the credential ends within so many seconds, but has not yet.
    pub fn needs_renewal(&self, now: Timestamp, window_secs: i64) -> (r: bool)
        ensures
            r == (whole(self@.expires - now.instant(), 1_000_000_000) <= window_secs
                && now.instant() < self@.expires),
    {
        self.expires_at.seconds_since(now) <= window_secs && !self.is_expired(now)
    }

    /// The credential in writing. Its material is not told.
    pub fn to_text(&self) -> (r: String)
        ensures
            r@ == self@.text(),
    {
        let r = cat7(
            "lease ",
            &self.lease_id,
            " on ",
            &self.secret_name,
            " for ",
            &self.workload_spiffe,
            ": [REDACTED]",
        );
        assert(r@ =~= self@.text());
        r
    }

    /// The same credential.
    pub fn copy(&self) -> (r: Credential)
        ensures
            r@ == self@,
    {
        Credential {
            lease_id: self.lease_id.clone(),
            workload_spiffe: self.workload_spiffe.clone(),
            secret_name: self.secret_name.clone(),
            material: self.material.clone(),
            issued_at: self.issued_at,
            expires_at: self.expires_at,
            ttl_secs: self.ttl_secs,
            renewable: self.renewable,
            generation: self.generation,
        }
    }
}

/// A read of a static secret.
#[verifier::ext_equal]
pub ghost struct StaticRead {
    pub workload: Seq<char>,
    pub secret: Seq<char>,
    pub at: Timestamp,
}

/// A read of a static secret, which is to be done away with.
#[derive(Debug)]
pub struct StaticReadRecord {
    pub workload_spiffe: String,
    pub secret_name: String,
    pub at: Timestamp,
}

impl View for StaticReadRecord {
    type V = StaticRead;

    open spec fn view(&self) -> StaticRead {
        StaticRead { workload: self.workload_spiffe@, secret: self.secret_name@, at: self.at }
    }
}

/// The reads that records tell of.
pub open spec fn reads(v: Seq<StaticReadRecord>) -> Seq<StaticRead> {
    Seq::new(v.len(), |i: int| v[i]@)
}

#[derive(Clone, Copy, Debug)]
pub struct BrokerConfig {
    /// The most seconds that a credential may last.
    pub max_ttl_secs: i64,
    /// How many seconds before its end a credential should be renewed.
    pub renewal_window_secs: i64,
    /// How many replicas the broker has. Nothing depends on it here.
    pub ha_replicas: u32,
}

impl Default for BrokerConfig {
    fn default() -> (r: Self)
        ensures
            r.max_ttl_secs == MAX_CREDENTIAL_TTL_SECS,
            r.renewal_window_secs == 120,
            r.ha_replicas == 3,
    {
        BrokerConfig {
            max_ttl_secs: MAX_CREDENTIAL_TTL_SECS,
            renewal_window_secs: 120,
            ha_replicas: 3,
        }
    }
}

/// The state of a broker.
#[verifier::ext_equal]
pub ghost struct Books {
    pub max_ttl: int,
    pub renewal_window: int,
    pub ha_replicas: u32,
    pub leases: Seq<(Seq<char>, Grant)>,
    pub reads: Seq<StaticRead>,
    pub dual_writes: Seq<(Seq<char>, Seq<char>)>,
    pub generation: u64,
    pub issued: u64,
    pub renewed: u64,
    pub revoked: u64,
    pub failed: u64,
}

/// A counter after one more event. It starts anew after its highest number.
pub open spec fn counted(n: u64) -> u64 {
    if n == u64::MAX {
        0
    } else {
        (n + 1) as u64
    }
}

fn count(n: u64) -> (r: u64)
    ensures
        r == counted(n),
{
    if n == u64::MAX {
        0
    } else {
        n + 1
    }
}

/// How many seconds a credential lasts, of those that were asked for.
pub open spec fn granted_ttl(requested: int, max_ttl: int) -> int {
    let wanted = if requested <= 0 {
        DEFAULT_CREDENTIAL_TTL_SECS as int
    } else {
        requested
    };
    if wanted < max_ttl {
        wanted
    } else {
        max_ttl
    }
}

impl Books {
    /// No credential lasts longer than it may, and every lease is entered under
    /// its own name.
    pub open spec fn in_order(self) -> bool {
        1 <= self.max_ttl <= MAX_CREDENTIAL_TTL_SECS && ascending(self.leases) && forall|i: int|
            0 <= i < self.leases.len() ==> grant_in_order(
                (#[trigger] self.leases[i]).0,
                self.leases[i].1,
                self.max_ttl,
            )
    }

    /// The books after a request for a credential, and the reply.
    pub open spec fn after_issue(
        self,
        spiffe_id: Seq<char>,
        secret: Seq<char>,
        requested_ttl: int,
        lease_id: Seq<char>,
        material_id: Seq<char>,
        now: int,
    ) -> (Books, Result<Grant, Seq<char>>) {
        if secret.len() == 0 {
            (
                Books { failed: counted(self.failed), ..self },
                Err("secret_name must not be empty"@),
            )
        } else {
            match parsed_identity(spiffe_id) {
                Err(e) => (self, Err(e)),
                Ok(_) => {
                    let ttl = granted_ttl(requested_ttl, self.max_ttl);
                    let grant = Grant {
                        lease_id,
                        workload: spiffe_id,
                        secret,
                        material: "dyn-"@ + material_id,
                        issued: now,
                        expires: later(now, ttl),
                        ttl,
                        renewable: true,
                        generation: self.generation,
                    };
                    (
                        Books {
                            leases: with_entry(self.leases, lease_id, grant),
                            issued: counted(self.issued),
                            ..self
                        },
                        Ok(grant),
                    )
                },
            }
        }
    }

    /// The books after a request to renew a lease, and the reply.
    pub open spec fn after_renewal(self, lease_id: Seq<char>, now: int) -> (
        Books,
        Result<Grant, Seq<char>>,
    ) {
        match entry(self.leases, lease_id) {
            None => (self, Err("unknown lease: "@ + lease_id)),
            Some(grant) => if !grant.renewable {
                (
                    Books { failed: counted(self.failed), ..self },
                    Err("lease "@ + lease_id + " is not renewable"@),
                )
            } else if now >= grant.expires {
                (
                    Books { failed: counted(self.failed), ..self },
                    Err("lease "@ + lease_id + " already expired"@),
                )
            } else {
                let renewed = Grant {
                    issued: now,
                    expires: later(now, grant.ttl),
                    generation: self.generation,
                    ..grant
                };
                (
                    Books {
                        leases: with_entry(self.leases, lease_id, renewed),
                        renewed: counted(self.renewed),
                        ..self
                    },
                    Ok(renewed),
                )
            },
        }
    }

    /// What a request for the credential of a lease gets.
    pub open spec fn fetched(self, lease_id: Seq<char>, now: int) -> Result<Grant, Seq<char>> {
        match entry(self.leases, lease_id) {
            None => Err("unknown lease: "@ + lease_id),
            Some(grant) => if now >= grant.expires {
                Err("lease "@ + lease_id + " expired"@)
            } else {
                Ok(grant)
            },
        }
    }

    /// The books after a lease is taken back.
    pub open spec fn after_revocation(self, lease_id: Seq<char>) -> Books {
        if entry(self.leases, lease_id) is Some {
            Books {
                leases: without_entry(self.leases, lease_id),
                revoked: counted(self.revoked),
                ..self
            }
        } else {
            self
        }
    }

    /// The books after a failover.
    pub open spec fn after_failover(self) -> Books {
        Books { generation: counted(self.generation), ..self }
    }
}

/// A lease is in order.
pub open spec fn grant_in_order(key: Seq<char>, g: Grant, max_ttl: int) -> bool {
    g.lease_id == key && 1 <= g.ttl <= max_ttl && g.expires == later(g.issued, g.ttl)
}

/// The same reply, seen from outside.
pub open spec fn same_reply(
    r: Result<Credential, String>,
    reply: Result<Grant, Seq<char>>,
) -> bool {
    match reply {
        Ok(g) => r is Ok && r->Ok_0@ == g,
        Err(e) => r is Err && r->Err_0@ == e,
    }
}

/// A name from `uuid::Uuid::new_v4`, in 36 characters. It is another one each
/// time; nothing more is said of it.
#[verifier::external_body]
fn new_uuid() -> (r: String)
    ensures
        r@.len() == 36,
{
    uuid::Uuid::new_v4().to_string()
}

/// A broker of credentials.
pub struct SecretsBroker {
    pub(crate) config: BrokerConfig,
    pub(crate) leases: StrMap<Credential>,
    pub(crate) static_reads: Vec<StaticReadRecord>,
    pub(crate) dual_writes: StrMap<String>,
    pub(crate) generation: u64,
    pub(crate) issued: u64,
    pub(crate) renewed: u64,
    pub(crate) revoked: u64,
    pub(crate) failed: u64,
}

impl View for SecretsBroker {
    type V = Books;

    open(crate) spec fn view(&self) -> Books {
        Books {
            max_ttl: self.config.max_ttl_secs as int,
            renewal_window: self.config.renewal_window_secs as int,
            ha_replicas: self.config.ha_replicas,
            leases: viewed(self.leases.list()),
            reads: reads(self.static_reads@),
            dual_writes: self.dual_writes.texts(),
            generation: self.generation,
            issued: self.issued,
            renewed: self.renewed,
            revoked: self.revoked,
            failed: self.failed,
        }
    }
}

proof fn lemma_in_order_with(b: Books, key: Seq<char>, g: Grant)
    requires
        b.in_order(),
        grant_in_order(key, g, b.max_ttl),
    ensures
        (Books { leases: with_entry(b.leases, key, g), ..b }).in_order(),
{
    let after = with_entry(b.leases, key, g);
    crate::str_map::lemma_slot(b.leases, key);
    crate::str_map::lemma_with_entry_ascending(b.leases, key, g);
    let p = crate::str_map::slot(b.leases, key);
    let max_ttl = b.max_ttl;
    assert forall|i: int| 0 <= i < after.len() implies grant_in_order(
        (#[trigger] after[i]).0,
        after[i].1,
        max_ttl,
    ) by {
        if i < p {
            assert(after[i] == b.leases[i]);
        } else if i > p {
            if after.len() == b.leases.len() {
                assert(after[i] == b.leases[i]);
            } else {
                assert(after[i] == b.leases[i - 1]);
            }
        }
    }
}

proof fn lemma_lease_in_order(b: Books, key: Seq<char>)
    requires
        b.in_order(),
        entry(b.leases, key) is Some,
    ensures
        grant_in_order(key, entry(b.leases, key)->0, b.max_ttl),
{
    crate::str_map::lemma_slot(b.leases, key);
    let p = crate::str_map::slot(b.leases, key);
    assert(b.leases[p].0 == key);
}

/// Every lease stays in order when a credential is asked for: none ever lasts
/// longer than an hour.
pub proof fn law_issue_keeps_order(
    b: Books,
    spiffe_id: Seq<char>,
    secret: Seq<char>,
    requested_ttl: int,
    lease_id: Seq<char>,
    material_id: Seq<char>,
    now: int,
)
    requires
        b.in_order(),
    ensures
        b.after_issue(spiffe_id, secret, requested_ttl, lease_id, material_id, now).0.in_order(),
{
    let (after, reply) = b.after_issue(
        spiffe_id,
        secret,
        requested_ttl,
        lease_id,
        material_id,
        now,
    );
    match reply {
        Ok(grant) => {
            lemma_in_order_with(b, lease_id, grant);
            assert(after.leases == with_entry(b.leases, lease_id, grant));
        },
        Err(_) => {},
    }
}

/// Every credential is attributed to the workload that asked for it, whose
/// identity is a valid one, and is kept under its lease.
pub proof fn law_credential_is_attributed(
    b: Books,
    spiffe_id: Seq<char>,
    secret: Seq<char>,
    requested_ttl: int,
    lease_id: Seq<char>,
    material_id: Seq<char>,
    now: int,
)
    requires
        b.in_order(),
        b.after_issue(spiffe_id, secret, requested_ttl, lease_id, material_id, now).1 is Ok,
    ensures
        ({
            let (after, reply) = b.after_issue(
                spiffe_id,
                secret,
                requested_ttl,
                lease_id,
                material_id,
                now,
            );
            &&& parsed_identity(spiffe_id) is Ok
            &&& reply->Ok_0.workload == spiffe_id
            &&& reply->Ok_0.secret == secret
            &&& entry(after.leases, lease_id) == Some(reply->Ok_0)
        }),
{
    let (after, reply) = b.after_issue(
        spiffe_id,
        secret,
        requested_ttl,
        lease_id,
        material_id,
        now,
    );
    lemma_read_after_write(b.leases, lease_id, reply->Ok_0, lease_id);
}

/// Every lease stays in order when one is renewed.
pub proof fn law_renewal_keeps_order(b: Books, lease_id: Seq<char>, now: int)
    requires
        b.in_order(),
    ensures
        b.after_renewal(lease_id, now).0.in_order(),
{
    let (after, reply) = b.after_renewal(lease_id, now);
    match reply {
        Ok(grant) => {
            lemma_lease_in_order(b, lease_id);
            lemma_in_order_with(b, lease_id, grant);
            assert(after.leases == with_entry(b.leases, lease_id, grant));
        },
        Err(_) => {},
    }
}

/// Every lease stays in order when one is taken back, and that one is known no
/// more.
pub proof fn law_revoked_lease_is_gone(b: Books, lease_id: Seq<char>, now: int)
    requires
        b.in_order(),
    ensures
        b.after_revocation(lease_id).in_order(),
        b.after_revocation(lease_id).fetched(lease_id, now) == Err::<Grant, Seq<char>>(
            "unknown lease: "@ + lease_id,
        ),
{
    lemma_read_after_remove(b.leases, lease_id, lease_id);
    crate::str_map::lemma_slot(b.leases, lease_id);
    crate::str_map::lemma_without_entry_ascending(b.leases, lease_id);
    let after = b.after_revocation(lease_id);
    let p = crate::str_map::slot(b.leases, lease_id);
    if entry(b.leases, lease_id) is Some {
        assert forall|i: int| 0 <= i < after.leases.len() implies grant_in_order(
            (#[trigger] after.leases[i]).0,
            after.leases[i].1,
            after.max_ttl,
        ) by {
            if i < p {
                assert(after.leases[i] == b.leases[i]);
            } else {
                assert(after.leases[i] == b.leases[i + 1]);
            }
        }
    }
}

/// A failover keeps every lease: a fetch gives the same before and after it.
pub proof fn law_failover_keeps_leases(b: Books, lease_id: Seq<char>, now: int)
    ensures
        b.after_failover().fetched(lease_id, now) == b.fetched(lease_id, now),
        b.in_order() ==> b.after_failover().in_order(),
{
}

/// A credential can be fetched as it was given, until it ends. After its end it
/// can neither be fetched nor renewed.
pub proof fn law_credential_is_fetched_until_its_end(
    b: Books,
    spiffe_id: Seq<char>,
    secret: Seq<char>,
    requested_ttl: int,
    lease_id: Seq<char>,
    material_id: Seq<char>,
    now: int,
    at: int,
)
    requires
        b.in_order(),
        b.after_issue(spiffe_id, secret, requested_ttl, lease_id, material_id, now).1 is Ok,
    ensures
        ({
            let (after, reply) = b.after_issue(
                spiffe_id,
                secret,
                requested_ttl,
                lease_id,
                material_id,
                now,
            );
            let grant = reply->Ok_0;
            &&& grant.ttl <= MAX_CREDENTIAL_TTL_SECS
            &&& grant.workload == spiffe_id
            &&& at < grant.expires ==> after.fetched(lease_id, at) == Ok::<Grant, Seq<char>>(grant)
            &&& at >= grant.expires ==> after.fetched(lease_id, at) is Err && after.after_renewal(
                lease_id,
                at,
            ).1 is Err
        }),
{
    let (after, reply) = b.after_issue(
        spiffe_id,
        secret,
        requested_ttl,
        lease_id,
        material_id,
        now,
    );
    lemma_read_after_write(b.leases, lease_id, reply->Ok_0, lease_id);
}

impl SecretsBroker {
    /// A broker without leases. What its configuration allows is brought to one
    /// hour at most and one second at least.
    pub fn new(config: BrokerConfig) -> (r: Self)
        ensures
            r@.in_order(),
            r@.max_ttl == if config.max_ttl_secs > MAX_CREDENTIAL_TTL_SECS {
                MAX_CREDENTIAL_TTL_SECS as int
            } else if config.max_ttl_secs < 1 {
                1
            } else {
                config.max_ttl_secs as int
            },
            r@.renewal_window == config.renewal_window_secs,
            r@.ha_replicas == config.ha_replicas,
            r@.leases.len() == 0,
            r@.reads.len() == 0,
            r@.dual_writes.len() == 0,
            r@.generation == 1,
            r@.issued == 0 && r@.renewed == 0 && r@.revoked == 0 && r@.failed == 0,
    {
        let max_ttl_secs: i64 = if config.max_ttl_secs > MAX_CREDENTIAL_TTL_SECS {
            MAX_CREDENTIAL_TTL_SECS
        } else if config.max_ttl_secs < 1 {
            1
        } else {
            config.max_ttl_secs
        };
        SecretsBroker {
            config: BrokerConfig {
                max_ttl_secs,
                renewal_window_secs: config.renewal_window_secs,
                ha_replicas: config.ha_replicas,
            },
            leases: StrMap::new(),
            static_reads: Vec::new(),
            dual_writes: StrMap::new(),
            generation: 1,
            issued: 0,
            renewed: 0,
            revoked: 0,
            failed: 0,
        }
    }

    /// Gives a workload a credential, now, for at most as long as it asks.
    pub fn issue(
        &mut self,
        identity: &WorkloadIdentity,
        secret_name: &str,
        requested_ttl_secs: i64,
    ) -> (r: Result<Credential, String>)
        requires
            old(self)@.in_order(),
        ensures
            final(self)@.in_order(),
            exists|lease_id: Seq<char>, material_id: Seq<char>, now: int|
                ({
                    let (after, reply) = #[trigger] old(self)@.after_issue(
                        identity.spiffe_id@,
                        secret_name@,
                        requested_ttl_secs as int,
                        lease_id,
                        material_id,
                        now,
                    );
                    final(self)@ == after && same_reply(r, reply)
                }),
    {
        let now = Timestamp::now();
        let lease_id = new_uuid();
        let material_id = new_uuid();
        self.issue_at(identity, secret_name, requested_ttl_secs, lease_id, &material_id, now)
    }

    /// Gives a workload a credential, under a name and with material of its
    /// own, for at most as long as it asks.
    pub fn issue_at(
        &mut self,
        identity: &WorkloadIdentity,
        secret_name: &str,
        requested_ttl_secs: i64,
        lease_id: String,
        material_id: &str,
        now: Timestamp,
    ) -> (r: Result<Credential, String>)
        requires
            old(self)@.in_order(),
        ensures
            final(self)@.in_order(),
            ({
                let (after, reply) = old(self)@.after_issue(
                    identity.spiffe_id@,
                    secret_name@,
                    requested_ttl_secs as int,
                    lease_id@,
                    material_id@,
                    now.instant(),
                );
                final(self)@ == after && same_reply(r, reply)
            }),
    {
        proof {
            law_issue_keeps_order(
                self@,
                identity.spiffe_id@,
                secret_name@,
                requested_ttl_secs as int,
                lease_id@,
                material_id@,
                now.instant(),
            );
        }
        if secret_name.is_empty() {
            self.failed = count(self.failed);
            return Err("secret_name must not be empty".to_string());
        }
        match WorkloadIdentity::parse(&identity.spiffe_id) {
            Ok(_) => {},
            Err(e) => {
                return Err(e);
            },
        }
        let wanted: i64 = if requested_ttl_secs <= 0 {
            DEFAULT_CREDENTIAL_TTL_SECS
        } else {
            requested_ttl_secs
        };
        let ttl: i64 = if wanted < self.config.max_ttl_secs {
            wanted
        } else {
            self.config.max_ttl_secs
        };
        let cred = Credential {
            lease_id: lease_id.clone(),
            workload_spiffe: identity.spiffe_id.clone(),
            secret_name: secret_name.to_string(),
            material: cat2("dyn-", material_id),
            issued_at: now,
            expires_at: now.plus(ttl as u32),
            ttl_secs: ttl,
            renewable: true,
            generation: self.generation,
        };
        let kept = cred.copy();
        proof {
            lemma_viewed(self.leases.list(), lease_id@, kept);
        }
        self.leases.insert(lease_id, kept);
        self.issued = count(self.issued);
        Ok(cred)
    }

    /// Gives a workload a credential while the static secret still exists, and
    /// notes which one that is.
    pub fn issue_dual_write(
        &mut self,
        identity: &WorkloadIdentity,
        secret_name: &str,
        requested_ttl_secs: i64,
        static_ref: &str,
    ) -> (r: Result<(Credential, String), String>)
        requires
            old(self)@.in_order(),
        ensures
            final(self)@.in_order(),
            exists|lease_id: Seq<char>, material_id: Seq<char>, now: int|
                ({
                    let (after, reply) = #[trigger] old(self)@.after_issue(
                        identity.spiffe_id@,
                        secret_name@,
                        requested_ttl_secs as int,
                        lease_id,
                        material_id,
                        now,
                    );
                    match reply {
                        Ok(g) => r is Ok && r->Ok_0.0@ == g && r->Ok_0.1@ == static_ref@
                            && final(self)@ == (Books {
                            dual_writes: with_entry(after.dual_writes, lease_id, static_ref@),
                            ..after
                        }),
                        Err(e) => r is Err && r->Err_0@ == e && final(self)@ == after,
                    }
                }),
    {
        match self.issue(identity, secret_name, requested_ttl_secs) {
            Ok(cred) => {
                let ghost after = self@;
                self.dual_writes.put(&cred.lease_id, static_ref);
                assert(self@ == Books {
                    dual_writes: with_entry(after.dual_writes, cred@.lease_id, static_ref@),
                    ..after
                });
                Ok((cred, static_ref.to_string()))
            },
            Err(e) => Err(e),
        }
    }

    /// Renews a lease that has not ended, now.
    pub fn renew(&mut self, lease_id: &str) -> (r: Result<Credential, String>)
        requires
            old(self)@.in_order(),
        ensures
            final(self)@.in_order(),
            exists|now: int|
                ({
                    let (after, reply) = #[trigger] old(self)@.after_renewal(lease_id@, now);
                    final(self)@ == after && same_reply(r, reply)
                }),
    {
        let now = Timestamp::now();
        self.renew_at(lease_id, now)
    }

    /// Renews a lease that has not ended.
    pub fn renew_at(&mut self, lease_id: &str, now: Timestamp) -> (r: Result<Credential, String>)
        requires
            old(self)@.in_order(),
        ensures
            final(self)@.in_order(),
            ({
                let (after, reply) = old(self)@.after_renewal(lease_id@, now.instant());
                final(self)@ == after && same_reply(r, reply)
            }),
    {
        proof {
            law_renewal_keeps_order(self@, lease_id@, now.instant());
            lemma_viewed(self.leases.list(), lease_id@, arbitrary());
        }
        let mut cred = match self.leases.get(lease_id) {
            Some(c) => c.copy(),
            None => {
                return Err(cat2("unknown lease: ", lease_id));
            },
        };
        proof {
            lemma_lease_in_order(self@, lease_id@);
        }
        if !cred.renewable {
            self.failed = count(self.failed);
            return Err(cat3("lease ", lease_id, " is not renewable"));
        }
        if cred.is_expired(now) {
            self.failed = count(self.failed);
            return Err(cat3("lease ", lease_id, " already expired"));
        }
        cred.issued_at = now;
        cred.expires_at = now.plus(cred.ttl_secs as u32);
        cred.generation = self.generation;
        let kept = cred.copy();
        proof {
            lemma_viewed(self.leases.list(), lease_id@, kept);
        }
        self.leases.insert(lease_id.to_string(), kept);
        self.renewed = count(self.renewed);
        Ok(cred)
    }

    /// The credential of a lease, if it has not ended by now.
    pub fn fetch(&self, lease_id: &str) -> (r: Result<Credential, String>)
        ensures
            exists|now: int| same_reply(r, #[trigger] self@.fetched(lease_id@, now)),
    {
        let now = Timestamp::now();
        self.fetch_at(lease_id, now)
    }

    /// The credential of a lease, if it has not ended.
    pub fn fetch_at(&self, lease_id: &str, now: Timestamp) -> (r: Result<Credential, String>)
        ensures
            same_reply(r, self@.fetched(lease_id@, now.instant())),
    {
        proof {
            lemma_viewed(self.leases.list(), lease_id@, arbitrary());
        }
        match self.leases.get(lease_id) {
            None => Err(cat2("unknown lease: ", lease_id)),
            Some(c) => {
                if c.is_expired(now) {
                    Err(cat3("lease ", lease_id, " expired"))
                } else {
                    Ok(c.copy())
                }
            },
        }
    }

    /// Takes a lease back. Says whether there was one.
    pub fn revoke(&mut self, lease_id: &str) -> (r: bool)
        requires
            old(self)@.in_order(),
        ensures
            final(self)@.in_order(),
            final(self)@ == old(self)@.after_revocation(lease_id@),
            r == (entry(old(self)@.leases, lease_id@) is Some),
    {
        proof {
            lemma_viewed(self.leases.list(), lease_id@, arbitrary());
            law_revoked_lease_is_gone(self@, lease_id@, 0);
        }
        let ghost before = self@;
        let known = self.leases.has(lease_id);
        if known {
            let _ = self.leases.remove(lease_id);
            self.revoked = count(self.revoked);
        }
        assert(self@ =~= before.after_revocation(lease_id@));
        known
    }

    /// Notes that a workload read a static secret, now. Gives the number of
    /// such reads.
    pub fn record_static_read(&mut self, identity: &WorkloadIdentity, secret_name: &str) -> (r:
        usize)
        ensures
            exists|at: Timestamp|
                final(self)@ == (Books {
                    reads: old(self)@.reads.push(
                        #[trigger] static_read(identity.spiffe_id@, secret_name@, at),
                    ),
                    ..old(self)@
                }),
            r == final(self)@.reads.len(),
    {
        let now = Timestamp::now();
        self.record_static_read_at(identity, secret_name, now)
    }

    /// Notes that a workload read a static secret. Gives the number of such
    /// reads.
    pub fn record_static_read_at(
        &mut self,
        identity: &WorkloadIdentity,
        secret_name: &str,
        now: Timestamp,
    ) -> (r: usize)
        ensures
            final(self)@ == (Books {
                reads: old(self)@.reads.push(static_read(identity.spiffe_id@, secret_name@, now)),
                ..old(self)@
            }),
            r == final(self)@.reads.len(),
    {
        let ghost before = self@;
        let record = StaticReadRecord {
            workload_spiffe: identity.spiffe_id.clone(),
            secret_name: secret_name.to_string(),
            at: now,
        };
        let ghost read = record@;
        self.static_reads.push(record);
        assert(self@.reads =~= before.reads.push(read));
        self.static_reads.len()
    }

    /// Another replica takes over. All leases stay. Gives the new generation.
    pub fn failover(&mut self) -> (r: u64)
        ensures
            final(self)@ == old(self)@.after_failover(),
            r == final(self)@.generation,
    {
        self.generation = count(self.generation);
        self.generation
    }

    pub fn metrics(&self) -> (r: BrokerMetrics)
        ensures
            r.issued == self@.issued,
            r.renewed == self@.renewed,
            r.revoked == self@.revoked,
            r.failed == self@.failed,
            r.generation == self@.generation,
    {
        BrokerMetrics {
            issued: self.issued,
            renewed: self.renewed,
            revoked: self.revoked,
            failed: self.failed,
            generation: self.generation,
        }
    }

    /// The number of leases.
    pub fn active_leases(&self) -> (r: usize)
        ensures
            r == self@.leases.len(),
    {
        self.leases.len()
    }

    /// The reads of static secrets so far.
    pub fn static_reads(&self) -> (r: &Vec<StaticReadRecord>)
        ensures
            reads(r@) == self@.reads,
    {
        &self.static_reads
    }
}

/// A read of a static secret.
pub open spec fn static_read(workload: Seq<char>, secret: Seq<char>, at: Timestamp) -> StaticRead {
    StaticRead { workload, secret, at }
}

/// The counters of a broker.
#[derive(Clone, Copy, Debug)]
pub struct BrokerMetrics {
    pub issued: u64,
    pub renewed: u64,
    pub revoked: u64,
    pub failed: u64,
    pub generation: u64,
}

/// A credential is given just where a secret is named and the workload shows an
/// identity that can be read.
pub proof fn law_named_secret_is_issued_to_known_workload(
    b: Books,
    spiffe_id: Seq<char>,
    secret: Seq<char>,
    requested_ttl: int,
    lease_id: Seq<char>,
    material_id: Seq<char>,
    now: int,
)
    ensures
        b.after_issue(spiffe_id, secret, requested_ttl, lease_id, material_id, now).1 is Ok <==> secret.len() > 0 && parsed_identity(spiffe_id) is Ok,
{
}

/// A credential lasts as long as was asked for, but no longer than the broker
/// allows; where nothing is asked for it lasts a quarter of an hour, or as long
/// as the broker allows if that is less. It begins when it is given, and within
/// the calendar it ends that many seconds later.
pub proof fn law_credential_lasts_as_asked(
    b: Books,
    spiffe_id: Seq<char>,
    secret: Seq<char>,
    requested_ttl: int,
    lease_id: Seq<char>,
    material_id: Seq<char>,
    now: int,
)
    requires
        b.in_order(),
        b.after_issue(spiffe_id, secret, requested_ttl, lease_id, material_id, now).1 is Ok,
    ensures
        ({
            let g = b.after_issue(spiffe_id, secret, requested_ttl, lease_id, material_id, now).1->Ok_0;
            &&& requested_ttl > 0 ==> g.ttl <= requested_ttl
            &&& g.ttl <= b.max_ttl && g.ttl <= 3600
            &&& 0 < requested_ttl <= b.max_ttl ==> g.ttl == requested_ttl
            &&& requested_ttl > b.max_ttl ==> g.ttl == b.max_ttl
            &&& requested_ttl <= 0 ==> g.ttl <= 900 && (b.max_ttl >= 900 ==> g.ttl == 900) && (
            b.max_ttl < 900 ==> g.ttl == b.max_ttl)
            &&& g.issued == now
            &&& g.expires <= now + g.ttl * 1_000_000_000
            &&& now < 8_210_266_000_000_000_000_000 ==> g.expires == now + g.ttl * 1_000_000_000
        }),
{
}

/// Who asks for more time never gets less.
pub proof fn law_more_time_asked_is_no_less_given(b: Books, less: int, more: int)
    requires
        b.in_order(),
        0 < less <= more,
    ensures
        granted_ttl(less, b.max_ttl) <= granted_ttl(more, b.max_ttl),
        1 <= granted_ttl(less, b.max_ttl),
{
}

/// What is given carries its own name, the generation of the broker and the
/// material that was made for it, and can be renewed.
pub proof fn law_credential_carries_its_origin(
    b: Books,
    spiffe_id: Seq<char>,
    secret: Seq<char>,
    requested_ttl: int,
    lease_id: Seq<char>,
    material_id: Seq<char>,
    now: int,
)
    requires
        b.after_issue(spiffe_id, secret, requested_ttl, lease_id, material_id, now).1 is Ok,
    ensures
        ({
            let g = b.after_issue(spiffe_id, secret, requested_ttl, lease_id, material_id, now).1->Ok_0;
            &&& g.lease_id == lease_id
            &&& g.workload == spiffe_id
            &&& g.secret == secret
            &&& g.material.len() == 4 + material_id.len()
            &&& g.material.subrange(4, g.material.len() as int) == material_id
            &&& g.generation == b.generation
            &&& g.renewable
        }),
{
    reveal_strlit("dyn-");
    let m = b.after_issue(spiffe_id, secret, requested_ttl, lease_id, material_id, now).1->Ok_0.material;
    assert(m.subrange(4, m.len() as int) =~= material_id);
}

/// An issue enters one lease and counts it; a refused one enters none. The other
/// leases, the notes on static reads and the generation stay as they were.
pub proof fn law_issue_touches_one_lease(
    b: Books,
    spiffe_id: Seq<char>,
    secret: Seq<char>,
    requested_ttl: int,
    lease_id: Seq<char>,
    material_id: Seq<char>,
    now: int,
    other: Seq<char>,
)
    requires
        b.in_order(),
        other != lease_id,
    ensures
        ({
            let (after, reply) = b.after_issue(spiffe_id, secret, requested_ttl, lease_id, material_id, now);
            &&& entry(after.leases, other) == entry(b.leases, other)
            &&& reply is Err ==> after.leases == b.leases && after.issued == b.issued
            &&& reply is Ok && b.issued < u64::MAX ==> after.issued == b.issued + 1
            &&& reply is Ok ==> after.failed == b.failed
            &&& secret.len() == 0 && b.failed < u64::MAX ==> after.failed == b.failed + 1
            &&& after.reads == b.reads && after.dual_writes == b.dual_writes
            &&& after.generation == b.generation && after.renewed == b.renewed && after.revoked
                == b.revoked
            &&& after.max_ttl == b.max_ttl
        }),
{
    if b.after_issue(spiffe_id, secret, requested_ttl, lease_id, material_id, now).1 is Ok {
        lemma_read_after_write(b.leases, lease_id, b.after_issue(spiffe_id, secret, requested_ttl, lease_id, material_id, now).1->Ok_0, other);
    }
}

/// A lease can be fetched just until its end, and what is fetched is what was
/// entered.
pub proof fn law_lease_is_fetched_just_until_its_end(b: Books, lease_id: Seq<char>, now: int)
    ensures
        b.fetched(lease_id, now) is Ok <==> entry(b.leases, lease_id) is Some && now < entry(
            b.leases,
            lease_id,
        )->0.expires,
        b.fetched(lease_id, now) is Ok ==> b.fetched(lease_id, now)->Ok_0 == entry(
            b.leases,
            lease_id,
        )->0,
{
}

/// Just a lease that is there, may be renewed and has not ended is renewed. It
/// then lasts its own time again from now on, for the same workload, with the
/// same material, and no other lease is touched.
pub proof fn law_renewal_starts_the_time_again(
    b: Books,
    lease_id: Seq<char>,
    now: int,
    other: Seq<char>,
)
    requires
        b.in_order(),
    ensures
        ({
            let (after, reply) = b.after_renewal(lease_id, now);
            let known = entry(b.leases, lease_id);
            &&& reply is Ok <==> known is Some && known->0.renewable && now < known->0.expires
            &&& reply is Ok ==> {
                let g = reply->Ok_0;
                &&& entry(after.leases, lease_id) == Some(g)
                &&& g.issued == now
                &&& g.ttl == known->0.ttl
                &&& now < 8_210_266_000_000_000_000_000 ==> g.expires == now + g.ttl
                    * 1_000_000_000
                &&& g.workload == known->0.workload && g.secret == known->0.secret
                &&& g.material == known->0.material && g.lease_id == known->0.lease_id
                &&& g.generation == b.generation && g.renewable
                &&& b.renewed < u64::MAX ==> after.renewed == b.renewed + 1
                &&& after.failed == b.failed
            }
            &&& reply is Err ==> after.leases == b.leases && after.renewed == b.renewed
            &&& reply is Err && known is Some && b.failed < u64::MAX ==> after.failed == b.failed
                + 1
            &&& other != lease_id ==> entry(after.leases, other) == entry(b.leases, other)
            &&& after.issued == b.issued && after.revoked == b.revoked && after.generation
                == b.generation
        }),
{
    let (after, reply) = b.after_renewal(lease_id, now);
    if reply is Ok {
        lemma_read_after_write(b.leases, lease_id, reply->Ok_0, other);
        lemma_read_after_write(b.leases, lease_id, reply->Ok_0, lease_id);
        assert(1 <= entry(b.leases, lease_id)->0.ttl <= b.max_ttl) by {
            crate::str_map::lemma_slot(b.leases, lease_id);
            let p = crate::str_map::slot(b.leases, lease_id);
            assert(grant_in_order(b.leases[p].0, b.leases[p].1, b.max_ttl));
        }
    }
}

/// A revocation takes out one lease and counts it; the other leases stay.
pub proof fn law_revocation_touches_one_lease(b: Books, lease_id: Seq<char>, other: Seq<char>)
    requires
        b.in_order(),
    ensures
        ({
            let after = b.after_revocation(lease_id);
            &&& entry(after.leases, lease_id) is None
            &&& other != lease_id ==> entry(after.leases, other) == entry(b.leases, other)
            &&& entry(b.leases, lease_id) is None ==> after == b
            &&& entry(b.leases, lease_id) is Some && b.revoked < u64::MAX ==> after.revoked
                == b.revoked + 1
            &&& after.issued == b.issued && after.renewed == b.renewed && after.failed == b.failed
        }),
{
    lemma_read_after_remove(b.leases, lease_id, lease_id);
    lemma_read_after_remove(b.leases, lease_id, other);
}

/// A failover begins a new generation and keeps everything else.
pub proof fn law_failover_begins_a_generation(b: Books)
    ensures
        b.generation < u64::MAX ==> b.after_failover().generation == b.generation + 1,
        b.after_failover().leases == b.leases,
        b.after_failover().dual_writes == b.dual_writes,
        b.after_failover().reads == b.reads,
        b.after_failover().max_ttl == b.max_ttl,
{
}

/// An identity that is read has the scheme, a trust domain without slashes
/// behind it, and names a namespace and a service account.
#[verifier::spinoff_prover]
pub proof fn law_identity_has_its_parts(id: Seq<char>)
    requires
        parsed_identity(id) is Ok,
    ensures
        ({
            let r = parsed_identity(id)->Ok_0;
            &&& r.spiffe_id == id
            &&& r.trust_domain.len() > 0 && r.namespace.len() > 0 && r.service_account.len() > 0
            &&& exists|path: Seq<char>|
                #![trigger r.trust_domain + "/"@ + path]
                id == "spiffe://"@ + (r.trust_domain + "/"@ + path) && stands_behind(
                    pieces(path, Cut::Slashes),
                    "ns"@,
                    r.namespace,
                ) && stands_behind(pieces(path, Cut::Slashes), "sa"@, r.service_account)
        }),
{
    let rest = after_prefix(id, "spiffe://"@)->0;
    let (domain, path) = split_at_first(rest, "/"@)->0;
    assert(id =~= "spiffe://"@ + rest) by {
        assert(id.subrange(0, "spiffe://"@.len() as int) == "spiffe://"@);
    }
    lemma_split(rest, "/"@, 0);
    assert(rest =~= domain + "/"@ + path);
    let parts = pieces(path, Cut::Slashes);
    let n = parts.len() as int / 2;
    lemma_pair(parts, "ns"@, n);
    lemma_pair(parts, "sa"@, n);
    let r = parsed_identity(id)->Ok_0;
    assert(r.trust_domain == domain);
    assert(r.namespace == pair_value(parts, "ns"@, n)->0);
    assert(r.service_account == pair_value(parts, "sa"@, n)->0);
    assert(id == "spiffe://"@ + (r.trust_domain + "/"@ + path));
    assert(stands_behind(parts, "ns"@, r.namespace));
    assert(stands_behind(parts, "sa"@, r.service_account));
}

/// A part of a path stands right behind another.
pub open spec fn stands_behind(parts: Seq<Seq<char>>, key: Seq<char>, value: Seq<char>) -> bool {
    exists|i: int| 0 <= i < parts.len() - 1 && #[trigger] parts[i] == key && parts[i + 1] == value
}

proof fn lemma_pair(parts: Seq<Seq<char>>, key: Seq<char>, n: int)
    requires
        pair_value(parts, key, n) is Some,
        2 * n <= parts.len(),
    ensures
        stands_behind(parts, key, pair_value(parts, key, n)->0),
    decreases n,
{
    if parts[2 * n - 2] == key {
        assert(parts[2 * n - 2 + 1] == pair_value(parts, key, n)->0);
    } else {
        lemma_pair(parts, key, n - 1);
    }
}

proof fn lemma_split(s: Seq<char>, p: Seq<char>, i: int)
    requires
        0 <= i,
        first_place(s, p, i) is Some,
    ensures
        occurs_at(s, p, first_place(s, p, i)->0),
    decreases s.len() + 1 - i,
{
    if i <= s.len() && !occurs_at(s, p, i) {
        lemma_split(s, p, i + 1);
    }
}

/// What is answered is what the store said: a credential just where there is a
/// grant, and then that grant; else the reason. One answer shows one reply.
pub proof fn law_answer_shows_the_reply(
    r: Result<Credential, String>,
    reply: Result<Grant, Seq<char>>,
    other: Result<Grant, Seq<char>>,
)
    requires
        same_reply(r, reply),
    ensures
        r is Ok <==> reply is Ok,
        r is Ok ==> reply == Ok::<Grant, Seq<char>>(r->Ok_0@),
        r is Err ==> reply == Err::<Grant, Seq<char>>(r->Err_0@),
        same_reply(r, other) <==> other == reply,
{
}

} // verus!
