//! The health of the certificate that the admission webhook serves.
//!
//! Every check is made locally. Whatever is not in order leaves the webhook not
//! ready.

use vstd::prelude::*;
use vstd::string::*;
use crate::clock::Timestamp;
use crate::text::{
    cat2, cat3, chars_of, find_from, first_place, join, joined, law_first_place_is_the_first,
    occurs_at, same, same_but_case, same_ignoring_case, strip_space, text_from_bytes, text_of,
    utf8_lossy, views, without_space,
};

verus! {

/// What is wrong with the certificate that is served.
#[verifier::ext_equal]
pub ghost enum Fault {
    Io { path: Seq<char>, source: Seq<char> },
    NoCertificate(Seq<char>),
    NoPrivateKey(Seq<char>),
    InvalidServerIdentity(Seq<char>),
    Parse(Seq<char>),
    Expired,
    CaExpired,
    NotCa,
    Untrusted(Seq<char>),
    MissingDnsName(Seq<char>),
    MissingServerAuth,
}

/// What is wrong with the certificate that is served.
#[derive(Debug)]
pub enum CertHealthError {
    Io { path: String, source: String },
    NoCertificate(String),
    NoPrivateKey(String),
    InvalidServerIdentity(String),
    Parse(String),
    Expired,
    CaExpired,
    NotCa,
    Untrusted(String),
    MissingDnsName(String),
    MissingServerAuth,
}

impl View for CertHealthError {
    type V = Fault;

    open spec fn view(&self) -> Fault {
        match self {
            CertHealthError::Io { path, source } => Fault::Io { path: path@, source: source@ },
            CertHealthError::NoCertificate(s) => Fault::NoCertificate(s@),
            CertHealthError::NoPrivateKey(s) => Fault::NoPrivateKey(s@),
            CertHealthError::InvalidServerIdentity(s) => Fault::InvalidServerIdentity(s@),
            CertHealthError::Parse(s) => Fault::Parse(s@),
            CertHealthError::Expired => Fault::Expired,
            CertHealthError::CaExpired => Fault::CaExpired,
            CertHealthError::NotCa => Fault::NotCa,
            CertHealthError::Untrusted(s) => Fault::Untrusted(s@),
            CertHealthError::MissingDnsName(s) => Fault::MissingDnsName(s@),
            CertHealthError::MissingServerAuth => Fault::MissingServerAuth,
        }
    }
}

impl Fault {
    /// The fault for people to read.
    pub open spec fn text(self) -> Seq<char> {
        match self {
            Fault::Io { path, source } => "failed to read "@ + path + ": "@ + source,
            Fault::NoCertificate(s) => "certificate file contains no certificates: "@ + s,
            Fault::NoPrivateKey(s) =>
                "private key file contains no supported private key: "@ + s,
            Fault::InvalidServerIdentity(s) =>
                "TLS certificate and private key do not form a valid server identity: "@ + s,
            Fault::Parse(s) => "failed to parse X.509 certificate: "@ + s,
            Fault::Expired => "serving certificate is outside its validity period"@,
            Fault::CaExpired => "CA certificate is outside its validity period"@,
            Fault::NotCa => "CA certificate is not a CA"@,
            Fault::Untrusted(s) =>
                "serving certificate is not signed by the configured CA: "@ + s,
            Fault::MissingDnsName(s) => "serving certificate does not contain DNS SAN "@ + s,
            Fault::MissingServerAuth =>
                "serving certificate is not valid for TLS server authentication"@,
        }
    }
}

impl CertHealthError {
    /// The error for people to read.
    pub fn to_text(&self) -> (r: String)
        ensures
            r@ == self@.text(),
    {
        match self {
            CertHealthError::Io { path, source } => crate::text::cat4(
                "failed to read ",
                path,
                ": ",
                source,
            ),
            CertHealthError::NoCertificate(s) => cat2(
                "certificate file contains no certificates: ",
                s,
            ),
            CertHealthError::NoPrivateKey(s) => cat2(
                "private key file contains no supported private key: ",
                s,
            ),
            CertHealthError::InvalidServerIdentity(s) => cat2(
                "TLS certificate and private key do not form a valid server identity: ",
                s,
            ),
            CertHealthError::Parse(s) => cat2("failed to parse X.509 certificate: ", s),
            CertHealthError::Expired => {
                "serving certificate is outside its validity period".to_string()
            },
            CertHealthError::CaExpired => {
                "CA certificate is outside its validity period".to_string()
            },
            CertHealthError::NotCa => "CA certificate is not a CA".to_string(),
            CertHealthError::Untrusted(s) => cat2(
                "serving certificate is not signed by the configured CA: ",
                s,
            ),
            CertHealthError::MissingDnsName(s) => cat2(
                "serving certificate does not contain DNS SAN ",
                s,
            ),
            CertHealthError::MissingServerAuth => {
                "serving certificate is not valid for TLS server authentication".to_string()
            },
        }
    }
}

/// The lifetime of the certificate that is served, and whether all checks have
/// passed.
#[derive(Clone, Copy, Debug, PartialEq, Eq, Structural)]
pub struct CertHealthState {
    pub valid: bool,
    pub not_before: i64,
    pub not_after: i64,
}

impl Default for CertHealthState {
    fn default() -> (r: Self)
        ensures
            r == (CertHealthState { valid: false, not_before: 0, not_after: 0 }),
    {
        CertHealthState { valid: false, not_before: 0, not_after: 0 }
    }
}

/// A difference, as far as 64 bits hold it.
pub open spec fn bounded(n: int) -> int {
    if n > i64::MAX {
        i64::MAX as int
    } else if n < i64::MIN {
        i64::MIN as int
    } else {
        n
    }
}

fn difference(a: i64, b: i64) -> (r: i64)
    ensures
        r == bounded(a - b),
{
    let d: i128 = a as i128 - b as i128;
    if d > i64::MAX as i128 {
        i64::MAX
    } else if d < i64::MIN as i128 {
        i64::MIN
    } else {
        d as i64
    }
}

impl CertHealthState {
    /// The seconds that the certificate lasts, and those of them that are left.
    pub open spec fn left_of(self, now: i64) -> (int, int) {
        let lifetime = bounded(self.not_after - self.not_before);
        let left = bounded(self.not_after - now);
        if lifetime <= 0 {
            (0, 1)
        } else if left <= 0 {
            (0, lifetime)
        } else if left >= lifetime {
            (lifetime, lifetime)
        } else {
            (left, lifetime)
        }
    }

    /// Takes over what another check has found.
    pub fn replace(&mut self, replacement: &Self)
        ensures
            *final(self) == *replacement,
    {
        self.not_before = replacement.not_before;
        self.not_after = replacement.not_after;
        self.valid = replacement.valid;
    }

    pub fn invalidate(&mut self)
        ensures
            *final(self) == (CertHealthState { valid: false, ..*old(self) }),
    {
        self.valid = false;
    }

    pub fn is_valid(&self) -> (r: bool)
        ensures
            r == self.valid,
    {
        self.valid
    }

    /// The part of the certificate's lifetime that is left, as a fraction: at
    /// least nothing and at most all of it.
    pub fn remaining_parts(&self, now: i64) -> (r: (i64, i64))
        ensures
            (r.0 as int, r.1 as int) == self.left_of(now),
            0 <= r.0 <= r.1,
            0 < r.1,
    {
        let lifetime: i64 = difference(self.not_after, self.not_before);
        let left: i64 = difference(self.not_after, now);
        if lifetime <= 0 {
            (0, 1)
        } else if left <= 0 {
            (0, lifetime)
        } else if left >= lifetime {
            (lifetime, lifetime)
        } else {
            (left, lifetime)
        }
    }

    /// The state for Prometheus. The part that is left comes as a text with six
    /// decimals.
    pub fn prometheus(&self, remaining_ratio: &str) -> (r: String)
        ensures
            r@ == joined(health_lines(self.valid, remaining_ratio@), "\n"@) + "\n"@,
    {
        let mut lines: Vec<String> = Vec::new();
        lines.push(
            "# HELP stellar_webhook_certificate_valid Whether the serving certificate passed all checks.".to_string(),
        );
        lines.push("# TYPE stellar_webhook_certificate_valid gauge".to_string());
        lines.push(
            cat2(
                "stellar_webhook_certificate_valid ",
                if self.valid {
                    "1"
                } else {
                    "0"
                },
            ),
        );
        lines.push(
            "# HELP stellar_webhook_certificate_remaining_ratio Fraction of the certificate lifetime remaining.".to_string(),
        );
        lines.push("# TYPE stellar_webhook_certificate_remaining_ratio gauge".to_string());
        lines.push(cat2("stellar_webhook_certificate_remaining_ratio ", remaining_ratio));
        assert(views(lines@) =~= health_lines(self.valid, remaining_ratio@));
        cat2(&join(&lines, "\n"), "\n")
    }
}

/// The lines of the state for Prometheus.
pub open spec fn health_lines(valid: bool, remaining_ratio: Seq<char>) -> Seq<Seq<char>> {
    seq![
        "# HELP stellar_webhook_certificate_valid Whether the serving certificate passed all checks."@,
        "# TYPE stellar_webhook_certificate_valid gauge"@,
        "stellar_webhook_certificate_valid "@ + if valid {
            "1"@
        } else {
            "0"@
        },
        "# HELP stellar_webhook_certificate_remaining_ratio Fraction of the certificate lifetime remaining."@,
        "# TYPE stellar_webhook_certificate_remaining_ratio gauge"@,
        "stellar_webhook_certificate_remaining_ratio "@ + remaining_ratio,
    ]
}

/// Less and less is left of a certificate's lifetime.
pub proof fn law_less_is_left_later(s: CertHealthState, now: i64, then: i64)
    requires
        now <= then,
    ensures
        s.left_of(now).1 == s.left_of(then).1,
        s.left_of(now).0 >= s.left_of(then).0,
{
}

/// The bytes that a text in Base64 stands for, if it is one.
pub uninterp spec fn base64_bytes(text: Seq<char>) -> Option<Seq<u8>>;

/// Decodes Base64 with `base64::engine::general_purpose::STANDARD`, by
/// `base64::Engine::decode`.
#[verifier::external_body]
fn decode_base64(text: &str) -> (r: Option<Vec<u8>>)
    ensures
        (match r {
            Some(b) => base64_bytes(text@) == Some(b@),
            None => base64_bytes(text@) is None,
        }),
{
    base64::Engine::decode(&base64::engine::general_purpose::STANDARD, text).ok()
}

/// The bytes that a character takes in UTF-8.
pub open spec fn utf8_width(c: char) -> int {
    if (c as u32) < 0x80 {
        1
    } else if (c as u32) < 0x800 {
        2
    } else if (c as u32) < 0x10000 {
        3
    } else {
        4
    }
}

fn width(c: char) -> (r: usize)
    ensures
        r == utf8_width(c),
{
    let n: u32 = c as u32;
    if n < 0x80 {
        1
    } else if n < 0x800 {
        2
    } else if n < 0x10000 {
        3
    } else {
        4
    }
}

/// How many characters take the first two bytes of a text.
pub open spec fn two_bytes(s: Seq<char>) -> Option<int> {
    if s.len() > 0 && utf8_width(s[0]) == 2 {
        Some(1)
    } else if s.len() > 1 && utf8_width(s[0]) == 1 && utf8_width(s[1]) == 1 {
        Some(2)
    } else {
        None
    }
}

/// The text from a place on.
pub open spec fn from_place(s: Seq<char>, i: int) -> Seq<char> {
    s.subrange(i, s.len() as int)
}

/// The first block of a PEM text: its label, its body, and what follows it. The
/// label at the block's end has two bytes or more, and a block is followed by
/// the dashes that end that label.
pub open spec fn first_block(s: Seq<char>) -> Option<(Seq<char>, Seq<char>, Seq<char>)> {
    match first_place(s, "-----BEGIN "@, 0) {
        None => None,
        Some(start) => {
            let after = from_place(s, start + 11);
            match first_place(after, "-----"@, 0) {
                None => None,
                Some(label_end) => {
                    let rest = from_place(after, label_end + 5);
                    match first_place(rest, "-----END "@, 0) {
                        None => None,
                        Some(end) => match two_bytes(from_place(rest, end + 9)) {
                            None => None,
                            Some(skip) => {
                                let tail = from_place(rest, end + 9 + skip);
                                match first_place(tail, "-----"@, 0) {
                                    None => None,
                                    Some(close) => Some(
                                        (
                                            after.subrange(0, label_end),
                                            rest.subrange(0, end),
                                            from_place(tail, close),
                                        ),
                                    ),
                                }
                            },
                        },
                    }
                },
            }
        },
    }
}

proof fn lemma_place_bounds(s: Seq<char>, p: Seq<char>, i: int)
    requires
        0 <= i,
    ensures
        (match first_place(s, p, i) {
            Some(j) => i <= j && j + p.len() <= s.len(),
            None => true,
        }),
    decreases s.len() + 1 - i,
{
    if i <= s.len() && !crate::text::occurs_at(s, p, i) {
        lemma_place_bounds(s, p, i + 1);
    }
}

/// What follows a block is shorter than the text.
pub proof fn lemma_block_is_shorter(s: Seq<char>)
    ensures
        (match first_block(s) {
            Some(b) => b.2.len() < s.len(),
            None => true,
        }),
{
    reveal_strlit("-----BEGIN ");
    reveal_strlit("-----");
    reveal_strlit("-----END ");
    lemma_place_bounds(s, "-----BEGIN "@, 0);
    match first_place(s, "-----BEGIN "@, 0) {
        None => {},
        Some(start) => {
            let after = from_place(s, start + 11);
            lemma_place_bounds(after, "-----"@, 0);
            match first_place(after, "-----"@, 0) {
                None => {},
                Some(label_end) => {
                    let rest = from_place(after, label_end + 5);
                    lemma_place_bounds(rest, "-----END "@, 0);
                    match first_place(rest, "-----END "@, 0) {
                        None => {},
                        Some(end) => {
                            let skip = two_bytes(from_place(rest, end + 9));
                            if skip is Some {
                                let tail = from_place(rest, end + 9 + skip->0);
                                lemma_place_bounds(tail, "-----"@, 0);
                            }
                        },
                    }
                },
            }
        },
    }
}

/// The contents of the blocks of a PEM text that have a label. Blocks that are
/// not in Base64 are left out.
pub open spec fn blocks(s: Seq<char>, label: Seq<char>) -> Seq<Seq<u8>>
    decreases s.len(),
{
    proof {
        lemma_block_is_shorter(s);
    }
    match first_block(s) {
        None => Seq::empty(),
        Some((l, body, rest)) => {
            let here = if l == label {
                match base64_bytes(without_space(body)) {
                    Some(der) => seq![der],
                    None => Seq::empty(),
                }
            } else {
                Seq::empty()
            };
            here + blocks(rest, label)
        },
    }
}

/// The bytes that vectors hold.
pub open spec fn byte_lists(v: Seq<Vec<u8>>) -> Seq<Seq<u8>> {
    Seq::new(v.len(), |i: int| v[i]@)
}

fn next_block(s: &Vec<char>) -> (r: Option<(String, String, Vec<char>)>)
    ensures
        (match r {
            Some(b) => first_block(s@) == Some((b.0@, b.1@, b.2@)) && b.2@.len() < s@.len(),
            None => first_block(s@) is None,
        }),
{
    proof {
        reveal_strlit("-----BEGIN ");
        reveal_strlit("-----");
        reveal_strlit("-----END ");
        lemma_block_is_shorter(s@);
    }
    let begin = chars_of("-----BEGIN ");
    let dashes = chars_of("-----");
    let end_mark = chars_of("-----END ");
    let start = match find_from(s, &begin, 0) {
        Some(i) => i,
        None => {
            return None;
        },
    };
    let n = s.len();
    let after_text = text_of(s, start + 11, n);
    let after = chars_of(&after_text);
    assert(after@ =~= from_place(s@, start + 11));
    let label_end = match find_from(&after, &dashes, 0) {
        Some(i) => i,
        None => {
            return None;
        },
    };
    let m = after.len();
    let label = text_of(&after, 0, label_end);
    let rest_text = text_of(&after, label_end + 5, m);
    let rest = chars_of(&rest_text);
    assert(rest@ =~= from_place(after@, label_end + 5));
    let end = match find_from(&rest, &end_mark, 0) {
        Some(i) => i,
        None => {
            return None;
        },
    };
    let k = rest.len();
    let body = text_of(&rest, 0, end);
    let at: usize = end + 9;
    assert(from_place(rest@, at as int).len() == k - at);
    let skip: usize = if at < k && width(rest[at]) == 2 {
        assert(from_place(rest@, at as int)[0] == rest@[at as int]);
        1
    } else if at < k && k - at > 1 && width(rest[at]) == 1 && width(rest[at + 1]) == 1 {
        assert(from_place(rest@, at as int)[0] == rest@[at as int]);
        assert(from_place(rest@, at as int)[1] == rest@[at as int + 1]);
        2
    } else {
        assert(at < k ==> from_place(rest@, at as int)[0] == rest@[at as int]);
        assert(k - at > 1 ==> from_place(rest@, at as int)[1] == rest@[at as int + 1]);
        return None;
    };
    let tail_text = text_of(&rest, at + skip, k);
    let tail = chars_of(&tail_text);
    assert(tail@ =~= from_place(rest@, at + skip));
    match find_from(&tail, &dashes, 0) {
        Some(close) => {
            let t = tail.len();
            let following = text_of(&tail, close, t);
            let following_chars = chars_of(&following);
            assert(following_chars@ =~= from_place(tail@, close as int));
            Some((label, body, following_chars))
        },
        None => None,
    }
}

/// The contents of the blocks of a PEM file that have a label.
pub fn pem_blocks(pem: &[u8], wanted_label: &str) -> (r: Vec<Vec<u8>>)
    ensures
        byte_lists(r@) == blocks(utf8_lossy(pem@), wanted_label@),
{
    let text = text_from_bytes(pem);
    let mut remaining = chars_of(&text);
    let mut r: Vec<Vec<u8>> = Vec::new();
    let ghost all = blocks(text@, wanted_label@);
    let mut more = true;
    assert(byte_lists(r@) + blocks(remaining@, wanted_label@) =~= all);
    while more
        invariant
            all == blocks(utf8_lossy(pem@), wanted_label@),
            more ==> byte_lists(r@) + blocks(remaining@, wanted_label@) == all,
            !more ==> byte_lists(r@) == all,
        decreases remaining@.len() + if more {
            1int
        } else {
            0
        },
    {
        match next_block(&remaining) {
            None => {
                assert(byte_lists(r@) + Seq::<Seq<u8>>::empty() =~= byte_lists(r@));
                more = false;
            },
            Some((label, body, rest)) => {
                let ghost before = byte_lists(r@);
                let ghost here = if label@ == wanted_label@ {
                    match base64_bytes(without_space(body@)) {
                        Some(der) => seq![der],
                        None => Seq::<Seq<u8>>::empty(),
                    }
                } else {
                    Seq::<Seq<u8>>::empty()
                };
                if same(&label, wanted_label) {
                    match decode_base64(&strip_space(&body)) {
                        Some(der) => {
                            let ghost bytes = der@;
                            r.push(der);
                            assert(byte_lists(r@) =~= before.push(bytes));
                        },
                        None => {},
                    }
                }
                assert(byte_lists(r@) =~= before + here);
                assert(before + here + blocks(rest@, wanted_label@) =~= before + (here + blocks(
                    rest@,
                    wanted_label@,
                )));
                remaining = rest;
            },
        }
    }
    r
}

/// A private key, in one of the encodings that there are.
#[derive(Debug)]
pub enum KeyDer {
    Pkcs8(Vec<u8>),
    Pkcs1(Vec<u8>),
    Sec1(Vec<u8>),
}

/// The encodings of private keys, by number.
pub open spec fn encoding(k: KeyDer) -> int {
    match k {
        KeyDer::Pkcs8(_) => 8,
        KeyDer::Pkcs1(_) => 1,
        KeyDer::Sec1(_) => 2,
    }
}

/// The bytes of a private key.
pub open spec fn key_bytes(k: KeyDer) -> Seq<u8> {
    match k {
        KeyDer::Pkcs8(b) => b@,
        KeyDer::Pkcs1(b) => b@,
        KeyDer::Sec1(b) => b@,
    }
}

/// The label of the first block of a key file.
pub open spec fn first_label(s: Seq<char>) -> Option<Seq<char>> {
    match first_place(s, "-----BEGIN "@, 0) {
        None => None,
        Some(start) => {
            let after = from_place(s, start + 11);
            match first_place(after, "-----"@, 0) {
                None => None,
                Some(end) => Some(after.subrange(0, end)),
            }
        },
    }
}

/// The private keys of a file: those in PKCS #8, then those of RSA, then those
/// on elliptic curves.
pub open spec fn keys_in(s: Seq<char>) -> Seq<Seq<u8>> {
    blocks(s, "PRIVATE KEY"@) + blocks(s, "RSA PRIVATE KEY"@) + blocks(s, "EC PRIVATE KEY"@)
}

/// The encoding that the first label of a key file tells.
pub open spec fn encoding_of_label(label: Option<Seq<char>>) -> int {
    match label {
        Some(l) => if l == "RSA PRIVATE KEY"@ {
            1
        } else if l == "EC PRIVATE KEY"@ {
            2
        } else {
            8
        },
        None => 8,
    }
}

/// A server's certificates and its private key.
#[derive(Debug)]
pub struct ServerIdentity {
    pub certs: Vec<Vec<u8>>,
    pub key: KeyDer,
}

fn label_of_first(s: &str) -> (r: Option<String>)
    ensures
        (match r {
            Some(l) => first_label(s@) == Some(l@),
            None => first_label(s@) is None,
        }),
{
    proof {
        reveal_strlit("-----BEGIN ");
    }
    let v = chars_of(s);
    let begin = chars_of("-----BEGIN ");
    let dashes = chars_of("-----");
    let n = v.len();
    match find_from(&v, &begin, 0) {
        None => None,
        Some(start) => {
            let after_text = text_of(&v, start + 11, n);
            let after = chars_of(&after_text);
            assert(after@ =~= from_place(s@, start + 11));
            match find_from(&after, &dashes, 0) {
                None => None,
                Some(end) => Some(text_of(&after, 0, end)),
            }
        },
    }
}

/// Reads a server's certificates and its private key from PEM files, whose paths
/// are for the errors.
pub fn server_identity(cert_pem: &[u8], key_pem: &[u8], cert_path: &str, key_path: &str) -> (r:
    Result<ServerIdentity, CertHealthError>)
    ensures
        ({
            let certs = blocks(utf8_lossy(cert_pem@), "CERTIFICATE"@);
            let keys = keys_in(utf8_lossy(key_pem@));
            if certs.len() == 0 {
                r is Err && r->Err_0@ == Fault::NoCertificate(cert_path@)
            } else if keys.len() == 0 {
                r is Err && r->Err_0@ == Fault::NoPrivateKey(key_path@)
            } else {
                r is Ok && byte_lists(r->Ok_0.certs@) == certs && key_bytes(r->Ok_0.key) == keys[0]
                    && encoding(r->Ok_0.key) == encoding_of_label(
                    first_label(utf8_lossy(key_pem@)),
                )
            }
        }),
{
    let certs = pem_blocks(cert_pem, "CERTIFICATE");
    assert(byte_lists(certs@).len() == certs@.len());
    if certs.len() == 0 {
        return Err(CertHealthError::NoCertificate(cert_path.to_string()));
    }
    let mut keys = pem_blocks(key_pem, "PRIVATE KEY");
    let ghost first = byte_lists(keys@);
    let mut rsa = pem_blocks(key_pem, "RSA PRIVATE KEY");
    let ghost second = byte_lists(rsa@);
    let mut ec = pem_blocks(key_pem, "EC PRIVATE KEY");
    let ghost third = byte_lists(ec@);
    keys.append(&mut rsa);
    assert(byte_lists(keys@) =~= first + second);
    keys.append(&mut ec);
    assert(byte_lists(keys@) =~= first + second + third);
    assert(byte_lists(keys@).len() == keys@.len());
    if keys.len() == 0 {
        return Err(CertHealthError::NoPrivateKey(key_path.to_string()));
    }
    assert(byte_lists(keys@)[0] == keys@[0]@);
    let der = keys.swap_remove(0);
    let text = text_from_bytes(key_pem);
    let key = match label_of_first(&text) {
        Some(l) => {
            if same(&l, "RSA PRIVATE KEY") {
                KeyDer::Pkcs1(der)
            } else if same(&l, "EC PRIVATE KEY") {
                KeyDer::Sec1(der)
            } else {
                KeyDer::Pkcs8(der)
            }
        },
        None => KeyDer::Pkcs8(der),
    };
    proof {
        reveal_strlit("RSA PRIVATE KEY");
        reveal_strlit("EC PRIVATE KEY");
    }
    Ok(ServerIdentity { certs, key })
}

/// The configuration of a TLS server.
#[verifier::external_type_specification]
#[verifier::external_body]
pub struct ExServerConfig(rustls::ServerConfig);

/// What `rustls` has against certificates with a private key, which comes with
/// the number of its encoding.
pub uninterp spec fn identity_error(
    certs: Seq<Seq<u8>>,
    encoding: int,
    key: Seq<u8>,
) -> Option<Seq<char>>;

/// Makes the configuration of a TLS server with
/// `rustls::ConfigBuilder::with_single_cert`, without authentication of clients
/// and with the safe default versions of the provider
/// `rustls::crypto::ring::default_provider`. It fails where the key is not valid
/// or is not that of the first certificate.
#[verifier::external_body]
fn build_server_config(certs: Vec<Vec<u8>>, key: KeyDer) -> (r: Result<
    rustls::ServerConfig,
    String,
>)
    ensures
        (match r {
            Ok(_) => identity_error(byte_lists(certs@), encoding(key), key_bytes(key)) is None,
            Err(e) => identity_error(byte_lists(certs@), encoding(key), key_bytes(key)) == Some(
                e@,
            ),
        }),
{
    let key = match key {
        KeyDer::Pkcs8(der) => rustls::pki_types::PrivateKeyDer::Pkcs8(der.into()),
        KeyDer::Pkcs1(der) => rustls::pki_types::PrivateKeyDer::Pkcs1(der.into()),
        KeyDer::Sec1(der) => rustls::pki_types::PrivateKeyDer::Sec1(der.into()),
    };
    let provider = std::sync::Arc::new(rustls::crypto::ring::default_provider());
    rustls::ServerConfig::builder_with_provider(provider)
        .with_safe_default_protocol_versions()
        .and_then(|b| {
            b.with_no_client_auth().with_single_cert(
                certs.into_iter().map(rustls::pki_types::CertificateDer::from).collect(), key)
        }).map_err(|e| e.to_string())
}

/// Makes the configuration of a TLS server from PEM files, whose paths are for
/// the errors.
pub fn load_server_config(
    cert_pem: &[u8],
    key_pem: &[u8],
    cert_path: &str,
    key_path: &str,
) -> (r: Result<rustls::ServerConfig, CertHealthError>)
    ensures
        ({
            let certs = blocks(utf8_lossy(cert_pem@), "CERTIFICATE"@);
            let keys = keys_in(utf8_lossy(key_pem@));
            if certs.len() == 0 {
                r is Err && r->Err_0@ == Fault::NoCertificate(cert_path@)
            } else if keys.len() == 0 {
                r is Err && r->Err_0@ == Fault::NoPrivateKey(key_path@)
            } else {
                match identity_error(
                    certs,
                    encoding_of_label(first_label(utf8_lossy(key_pem@))),
                    keys[0],
                ) {
                    Some(e) => r is Err && r->Err_0@ == Fault::InvalidServerIdentity(e),
                    None => r is Ok,
                }
            }
        }),
{
    match server_identity(cert_pem, key_pem, cert_path, key_path) {
        Err(e) => Err(e),
        Ok(identity) => match build_server_config(identity.certs, identity.key) {
            Ok(config) => Ok(config),
            Err(e) => Err(CertHealthError::InvalidServerIdentity(e)),
        },
    }
}

/// The contents of the first block of a PEM file, or why there are none.
pub uninterp spec fn pem_contents(pem: Seq<u8>) -> Result<Seq<u8>, Seq<char>>;

/// Reads the first block of a PEM file with `x509_parser::pem::parse_x509_pem`.
/// The error is the text of the parser's error.
#[verifier::external_body]
fn read_pem(pem: &[u8]) -> (r: Result<Vec<u8>, String>)
    ensures
        (match r {
            Ok(der) => pem_contents(pem@) == Ok::<Seq<u8>, Seq<char>>(der@),
            Err(e) => pem_contents(pem@) == Err::<Seq<u8>, Seq<char>>(e@),
        }),
{
    x509_parser::pem::parse_x509_pem(pem).map(|p| p.1.contents).map_err(|e| e.to_string())
}

/// Why bytes are not a certificate, where they are not.
pub uninterp spec fn certificate_error(der: Seq<u8>) -> Option<Seq<char>>;

/// Whether bytes are a certificate for `x509_parser::parse_x509_certificate`.
/// The error is the text of the parser's error.
#[verifier::external_body]
fn check_certificate(der: &[u8]) -> (r: Option<String>)
    ensures
        (match r {
            Some(e) => certificate_error(der@) == Some(e@),
            None => certificate_error(der@) is None,
        }),
{
    x509_parser::parse_x509_certificate(der).err().map(|e| e.to_string())
}

/// The first and the last second at which a certificate is valid.
pub uninterp spec fn validity_of(der: Seq<u8>) -> (i64, i64);

/// Reads the validity of a certificate with
/// `x509_parser::certificate::TbsCertificate::validity`, and each of its two
/// times with `x509_parser::time::ASN1Time::timestamp`.
#[verifier::external_body]
fn read_validity(der: &[u8]) -> (r: (i64, i64))
    requires
        certificate_error(der@) is None,
    ensures
        r == validity_of(der@),
{
    let (_, cert) = x509_parser::parse_x509_certificate(der).unwrap();
    (cert.validity().not_before.timestamp(), cert.validity().not_after.timestamp())
}

/// Whether a certificate is valid so many seconds and nanoseconds after the Unix
/// epoch.
pub uninterp spec fn valid_at(der: Seq<u8>, secs: i64, nanos: u32) -> bool;

/// Whether the time falls in the years that a certificate can name, 0 to 9999.
pub open spec fn can_be_named(secs: int) -> bool {
    -62_167_219_200 <= secs <= 253_402_300_799
}

/// Whether a certificate is valid at a given time, by
/// `x509_parser::certificate::Validity::is_valid_at`. The time is made with
/// `x509_parser::time::ASN1Time::from_timestamp`, which takes the years 0 to
/// 9999, and the addition of the nanoseconds.
#[verifier::external_body]
fn read_valid_at(der: &[u8], secs: i64, nanos: u32) -> (r: bool)
    requires
        certificate_error(der@) is None,
        can_be_named(secs as int),
        nanos < 1_000_000_000,
    ensures
        r == valid_at(der@, secs, nanos),
{
    let (_, cert) = x509_parser::parse_x509_certificate(der).unwrap();
    let second = x509_parser::time::ASN1Time::from_timestamp(secs).unwrap();
    let part = std::time::Duration::from_nanos(nanos as u64).try_into().unwrap();
    cert.validity().is_valid_at((second + part).unwrap())
}

/// A certificate is valid at an instant. No certificate is, outside the years that
/// one can name.
pub open spec fn is_valid_on(der: Seq<u8>, now: Timestamp) -> bool {
    can_be_named(now.seconds()) && valid_at(
        der,
        now.seconds() as i64,
        (now.instant() - now.seconds() * 1_000_000_000) as u32,
    )
}

fn valid_on(der: &[u8], now: Timestamp) -> (r: bool)
    requires
        certificate_error(der@) is None,
    ensures
        r == is_valid_on(der@, now),
{
    let secs: i64 = now.timestamp();
    let nanos: u32 = now.subsec_nanos();
    -62_167_219_200 <= secs && secs <= 253_402_300_799 && read_valid_at(der, secs, nanos)
}

/// Whether a certificate is that of a CA.
pub uninterp spec fn is_ca_certificate(der: Seq<u8>) -> bool;

/// Whether a certificate is that of a CA, by
/// `x509_parser::certificate::TbsCertificate::is_ca`.
#[verifier::external_body]
fn read_is_ca(der: &[u8]) -> (r: bool)
    requires
        certificate_error(der@) is None,
    ensures
        r == is_ca_certificate(der@),
{
    let (_, cert) = x509_parser::parse_x509_certificate(der).unwrap();
    cert.is_ca()
}

/// Why a certificate does not carry the signature of another one's key, where it
/// does not.
pub uninterp spec fn signature_error(leaf: Seq<u8>, ca: Seq<u8>) -> Option<Seq<char>>;

/// Checks the signature of a certificate with the public key of another, by
/// `x509_parser::certificate::X509Certificate::verify_signature`.
#[verifier::external_body]
fn check_signature(leaf: &[u8], ca: &[u8]) -> (r: Option<String>)
    requires
        certificate_error(leaf@) is None,
        certificate_error(ca@) is None,
    ensures
        (match r {
            Some(e) => signature_error(leaf@, ca@) == Some(e@),
            None => signature_error(leaf@, ca@) is None,
        }),
{
    let (_, leaf) = x509_parser::parse_x509_certificate(leaf).unwrap();
    let (_, ca) = x509_parser::parse_x509_certificate(ca).unwrap();
    leaf.verify_signature(Some(ca.public_key())).err().map(|e| e.to_string())
}

/// The alternative names of a certificate's subject, if it has any. Of each it
/// is told whether it is a DNS name, and which.
pub uninterp spec fn alternative_names(der: Seq<u8>) -> Result<
    Option<Seq<Option<Seq<char>>>>,
    Seq<char>,
>;

/// A name that may be a DNS name.
pub open spec fn name_view(n: Option<String>) -> Option<Seq<char>> {
    match n {
        Some(s) => Some(s@),
        None => None,
    }
}

/// Names that may be DNS names.
pub open spec fn names_view(v: Seq<Option<String>>) -> Seq<Option<Seq<char>>> {
    Seq::new(v.len(), |i: int| name_view(v[i]))
}

/// Names as they were read.
pub open spec fn names_read(r: Result<Option<Vec<Option<String>>>, String>) -> Result<
    Option<Seq<Option<Seq<char>>>>,
    Seq<char>,
> {
    match r {
        Ok(Some(v)) => Ok(Some(names_view(v@))),
        Ok(None) => Ok(None),
        Err(e) => Err(e@),
    }
}

/// Reads the alternative names of a certificate's subject with
/// `x509_parser::certificate::TbsCertificate::subject_alternative_name`. A name
/// that is no DNS name is given without its text.
#[verifier::external_body]
fn read_alternative_names(der: &[u8]) -> (r: Result<Option<Vec<Option<String>>>, String>)
    requires
        certificate_error(der@) is None,
    ensures
        names_read(r) == alternative_names(der@),
{
    let (_, cert) = x509_parser::parse_x509_certificate(der).unwrap();
    let san = cert.subject_alternative_name().map_err(|e| e.to_string())?;
    Ok(san.map(|ext| {
        ext.value.general_names.iter().map(|name| match name {
            x509_parser::extensions::GeneralName::DNSName(dns) => Some(dns.to_string()),
            _ => None,
        }).collect()
    }))
}

/// Whether the extended usage of a certificate's key is that of a TLS server, if
/// it tells one.
pub uninterp spec fn server_usage(der: Seq<u8>) -> Result<Option<bool>, Seq<char>>;

/// A usage as it was read.
pub open spec fn usage_read(r: Result<Option<bool>, String>) -> Result<Option<bool>, Seq<char>> {
    match r {
        Ok(u) => Ok(u),
        Err(e) => Err(e@),
    }
}

/// Reads the extended usage of a certificate's key with
/// `x509_parser::certificate::TbsCertificate::extended_key_usage`.
#[verifier::external_body]
fn read_server_usage(der: &[u8]) -> (r: Result<Option<bool>, String>)
    requires
        certificate_error(der@) is None,
    ensures
        usage_read(r) == server_usage(der@),
{
    let (_, cert) = x509_parser::parse_x509_certificate(der).unwrap();
    let usage = cert.extended_key_usage().map_err(|e| e.to_string())?;
    Ok(usage.map(|ext| ext.value.server_auth))
}

/// What was read of the certificate that is served and of that of its CA.
pub struct CertificateFacts {
    pub leaf_valid: bool,
    pub ca_valid: bool,
    pub ca_is_ca: bool,
    pub signature_error: Option<String>,
    pub names: Result<Option<Vec<Option<String>>>, String>,
    pub server_usage: Result<Option<bool>, String>,
    pub not_before: i64,
    pub not_after: i64,
}

/// Whether one of the names is the DNS name that is looked for.
pub open spec fn names_have(v: Seq<Option<Seq<char>>>, dns: Seq<char>) -> bool {
    exists|i: int|
        0 <= i < v.len() && (#[trigger] v[i]) is Some && same_but_case(v[i]->0, dns)
}

/// What is wrong with the certificate that is served, if anything is.
pub open spec fn fault_of(
    leaf_valid: bool,
    ca_valid: bool,
    ca_is_ca: bool,
    signature: Option<Seq<char>>,
    names: Result<Option<Seq<Option<Seq<char>>>>, Seq<char>>,
    usage: Result<Option<bool>, Seq<char>>,
    dns: Seq<char>,
) -> Option<Fault> {
    if !leaf_valid {
        Some(Fault::Expired)
    } else if !ca_valid {
        Some(Fault::CaExpired)
    } else if !ca_is_ca {
        Some(Fault::NotCa)
    } else if signature is Some {
        Some(Fault::Untrusted(signature->0))
    } else {
        match names {
            Err(e) => Some(Fault::Parse("serving certificate SAN: "@ + e)),
            Ok(None) => Some(Fault::MissingDnsName(dns)),
            Ok(Some(v)) => if !names_have(v, dns) {
                Some(Fault::MissingDnsName(dns))
            } else {
                match usage {
                    Err(e) => Some(Fault::Parse("serving certificate EKU: "@ + e)),
                    Ok(u) => if u == Some(true) {
                        None
                    } else {
                        Some(Fault::MissingServerAuth)
                    },
                }
            },
        }
    }
}

impl CertificateFacts {
    /// What is wrong with the certificate that is served, if anything is.
    pub open spec fn fault(&self, dns: Seq<char>) -> Option<Fault> {
        fault_of(
            self.leaf_valid,
            self.ca_valid,
            self.ca_is_ca,
            name_view(self.signature_error),
            names_read(self.names),
            usage_read(self.server_usage),
            dns,
        )
    }
}

fn has_name(v: &Vec<Option<String>>, dns: &str) -> (r: bool)
    ensures
        r == names_have(names_view(v@), dns@),
{
    let mut i: usize = 0;
    while i < v.len()
        invariant
            i <= v.len(),
            forall|j: int|
                0 <= j < i ==> !((#[trigger] names_view(v@)[j]) is Some && same_but_case(
                    names_view(v@)[j]->0,
                    dns@,
                )),
        decreases v@.len() - i,
    {
        assert(names_view(v@)[i as int] == name_view(v@[i as int]));
        match &v[i] {
            Some(name) => {
                if same_ignoring_case(name, dns) {
                    return true;
                }
            },
            None => {},
        }
        i = i + 1;
    }
    false
}

/// Judges the certificate that is served, from what was read of it and of its
/// CA.
pub fn judge_certificate(facts: CertificateFacts, expected_dns_name: &str) -> (r: Result<
    CertHealthState,
    CertHealthError,
>)
    ensures
        (match facts.fault(expected_dns_name@) {
            Some(f) => r is Err && r->Err_0@ == f,
            None => r == Ok::<CertHealthState, CertHealthError>(
                CertHealthState {
                    valid: true,
                    not_before: facts.not_before,
                    not_after: facts.not_after,
                },
            ),
        }),
{
    if !facts.leaf_valid {
        return Err(CertHealthError::Expired);
    }
    if !facts.ca_valid {
        return Err(CertHealthError::CaExpired);
    }
    if !facts.ca_is_ca {
        return Err(CertHealthError::NotCa);
    }
    match facts.signature_error {
        Some(e) => {
            return Err(CertHealthError::Untrusted(e));
        },
        None => {},
    }
    match facts.names {
        Err(e) => {
            return Err(CertHealthError::Parse(cat2("serving certificate SAN: ", &e)));
        },
        Ok(None) => {
            return Err(CertHealthError::MissingDnsName(expected_dns_name.to_string()));
        },
        Ok(Some(v)) => {
            if !has_name(&v, expected_dns_name) {
                return Err(CertHealthError::MissingDnsName(expected_dns_name.to_string()));
            }
        },
    }
    match facts.server_usage {
        Err(e) => Err(CertHealthError::Parse(cat2("serving certificate EKU: ", &e))),
        Ok(Some(true)) => Ok(
            CertHealthState {
                valid: true,
                not_before: facts.not_before,
                not_after: facts.not_after,
            },
        ),
        Ok(_) => Err(CertHealthError::MissingServerAuth),
    }
}

/// What is wrong with a certificate in PEM before anything is read of it.
pub open spec fn unreadable(pem: Seq<u8>, description: Seq<char>) -> Option<Fault> {
    match pem_contents(pem) {
        Err(e) => Some(Fault::Parse(description + ": "@ + e)),
        Ok(_) => None,
    }
}

fn first_certificate_der(pem: &[u8], description: &str) -> (r: Result<Vec<u8>, CertHealthError>)
    ensures
        (match r {
            Ok(der) => pem_contents(pem@) == Ok::<Seq<u8>, Seq<char>>(der@),
            Err(e) => unreadable(pem@, description@) == Some(e@),
        }),
{
    match read_pem(pem) {
        Ok(der) => Ok(der),
        Err(e) => Err(CertHealthError::Parse(cat3(description, ": ", &e))),
    }
}

/// What validation comes to at an instant.
pub open spec fn validation(
    cert_pem: Seq<u8>,
    ca_pem: Seq<u8>,
    dns: Seq<char>,
    now: Timestamp,
) -> Result<CertHealthState, Fault> {
    match (pem_contents(cert_pem), pem_contents(ca_pem)) {
        (Err(e), _) => Err(Fault::Parse("serving certificate"@ + ": "@ + e)),
        (_, Err(e)) => Err(Fault::Parse("CA certificate"@ + ": "@ + e)),
        (Ok(leaf), Ok(ca)) => match (certificate_error(leaf), certificate_error(ca)) {
            (Some(e), _) => Err(Fault::Parse("serving certificate: "@ + e)),
            (_, Some(e)) => Err(Fault::Parse("CA certificate: "@ + e)),
            (None, None) => match fault_of(
                is_valid_on(leaf, now),
                is_valid_on(ca, now),
                is_ca_certificate(ca),
                signature_error(leaf, ca),
                alternative_names(leaf),
                server_usage(leaf),
                dns,
            ) {
                Some(f) => Err(f),
                None => Ok(
                    CertHealthState {
                        valid: true,
                        not_before: validity_of(leaf).0,
                        not_after: validity_of(leaf).1,
                    },
                ),
            },
        },
    }
}

/// The same outcome, seen from outside.
pub open spec fn same_outcome(
    r: Result<CertHealthState, CertHealthError>,
    outcome: Result<CertHealthState, Fault>,
) -> bool {
    match outcome {
        Ok(s) => r == Ok::<CertHealthState, CertHealthError>(s),
        Err(f) => r is Err && r->Err_0@ == f,
    }
}

/// Checks the certificate that is served against that of its CA and against the
/// DNS name that the API server uses, at a given time.
pub fn validate_serving_certificate_at(
    cert_pem: &[u8],
    ca_pem: &[u8],
    expected_dns_name: &str,
    now: Timestamp,
) -> (r: Result<CertHealthState, CertHealthError>)
    ensures
        same_outcome(r, validation(cert_pem@, ca_pem@, expected_dns_name@, now)),
{
    let leaf = match first_certificate_der(cert_pem, "serving certificate") {
        Ok(der) => der,
        Err(e) => {
            return Err(e);
        },
    };
    let ca = match first_certificate_der(ca_pem, "CA certificate") {
        Ok(der) => der,
        Err(e) => {
            return Err(e);
        },
    };
    match check_certificate(leaf.as_slice()) {
        Some(e) => {
            return Err(CertHealthError::Parse(cat2("serving certificate: ", &e)));
        },
        None => {},
    }
    match check_certificate(ca.as_slice()) {
        Some(e) => {
            return Err(CertHealthError::Parse(cat2("CA certificate: ", &e)));
        },
        None => {},
    }
    let (not_before, not_after) = read_validity(leaf.as_slice());
    let facts = CertificateFacts {
        leaf_valid: valid_on(leaf.as_slice(), now),
        ca_valid: valid_on(ca.as_slice(), now),
        ca_is_ca: read_is_ca(ca.as_slice()),
        signature_error: check_signature(leaf.as_slice(), ca.as_slice()),
        names: read_alternative_names(leaf.as_slice()),
        server_usage: read_server_usage(leaf.as_slice()),
        not_before,
        not_after,
    };
    judge_certificate(facts, expected_dns_name)
}

/// Checks the certificate that is served against that of its CA and against the
/// DNS name that the API server uses, at present.
pub fn validate_serving_certificate(
    cert_pem: &[u8],
    ca_pem: &[u8],
    expected_dns_name: &str,
) -> (r: Result<CertHealthState, CertHealthError>)
    ensures
        exists|now: Timestamp|
            same_outcome(r, #[trigger] validation(cert_pem@, ca_pem@, expected_dns_name@, now)),
{
    validate_serving_certificate_at(cert_pem, ca_pem, expected_dns_name, Timestamp::now())
}

/// What is wrong with the certificate and the key in the files of a webhook, if
/// anything is.
pub open spec fn identity_fault(
    cert_pem: Seq<u8>,
    key_pem: Seq<u8>,
    cert_path: Seq<char>,
    key_path: Seq<char>,
) -> Option<Fault> {
    let certs = blocks(utf8_lossy(cert_pem), "CERTIFICATE"@);
    let keys = keys_in(utf8_lossy(key_pem));
    if certs.len() == 0 {
        Some(Fault::NoCertificate(cert_path))
    } else if keys.len() == 0 {
        Some(Fault::NoPrivateKey(key_path))
    } else {
        match identity_error(
            certs,
            encoding_of_label(first_label(utf8_lossy(key_pem))),
            keys[0],
        ) {
            Some(e) => Some(Fault::InvalidServerIdentity(e)),
            None => None,
        }
    }
}

/// Checks the files of a webhook at a given time: that the key is that of the
/// certificate, and the certificate against its CA and the DNS name.
pub fn validate_files_at(
    cert_pem: &[u8],
    key_pem: &[u8],
    ca_pem: &[u8],
    cert_path: &str,
    key_path: &str,
    expected_dns_name: &str,
    now: Timestamp,
) -> (r: Result<CertHealthState, CertHealthError>)
    ensures
        (match identity_fault(cert_pem@, key_pem@, cert_path@, key_path@) {
            Some(f) => r is Err && r->Err_0@ == f,
            None => same_outcome(r, validation(cert_pem@, ca_pem@, expected_dns_name@, now)),
        }),
{
    match load_server_config(cert_pem, key_pem, cert_path, key_path) {
        Ok(_) => validate_serving_certificate_at(cert_pem, ca_pem, expected_dns_name, now),
        Err(e) => Err(e),
    }
}

/// Checks the files of a webhook at present: that the key is that of the
/// certificate, and the certificate against its CA and the DNS name.
pub fn validate_files(
    cert_pem: &[u8],
    key_pem: &[u8],
    ca_pem: &[u8],
    cert_path: &str,
    key_path: &str,
    expected_dns_name: &str,
) -> (r: Result<CertHealthState, CertHealthError>)
    ensures
        (match identity_fault(cert_pem@, key_pem@, cert_path@, key_path@) {
            Some(f) => r is Err && r->Err_0@ == f,
            None => exists|now: Timestamp|
                same_outcome(r, #[trigger] validation(cert_pem@, ca_pem@, expected_dns_name@, now)),
        }),
{
    validate_files_at(
        cert_pem,
        key_pem,
        ca_pem,
        cert_path,
        key_path,
        expected_dns_name,
        Timestamp::now(),
    )
}

/// A certificate is healthy only if both certificates are valid, the CA is one
/// and has signed the other, and the other is for the name and for servers.
pub proof fn law_healthy_only_if_all_checks_pass(
    leaf_valid: bool,
    ca_valid: bool,
    ca_is_ca: bool,
    signature: Option<Seq<char>>,
    names: Result<Option<Seq<Option<Seq<char>>>>, Seq<char>>,
    usage: Result<Option<bool>, Seq<char>>,
    dns: Seq<char>,
)
    ensures
        fault_of(leaf_valid, ca_valid, ca_is_ca, signature, names, usage, dns) is None <==> (
        leaf_valid && ca_valid && ca_is_ca && signature is None && names is Ok && names->Ok_0
            is Some && names_have(names->Ok_0->0, dns) && usage == Ok::<Option<bool>, Seq<char>>(
            Some(true),
        )),
{
}

/// What is left of a certificate: all of its lifetime before it begins, none
/// after its end, and the time until then in between.
pub proof fn law_what_is_left(s: CertHealthState, now: i64)
    requires
        s.not_before < s.not_after,
        s.not_after - s.not_before <= i64::MAX,
    ensures
        s.left_of(now).1 == s.not_after - s.not_before,
        now <= s.not_before ==> s.left_of(now).0 == s.not_after - s.not_before,
        now >= s.not_after ==> s.left_of(now).0 == 0,
        s.not_before <= now <= s.not_after ==> s.left_of(now).0 == s.not_after - now,
{
}

/// A number is kept within its bounds.
pub proof fn law_number_is_kept_within_bounds(n: int)
    ensures
        i64::MIN <= bounded(n) <= i64::MAX,
        i64::MIN <= n <= i64::MAX ==> bounded(n) == n,
        n > i64::MAX ==> bounded(n) == i64::MAX,
        n < i64::MIN ==> bounded(n) == i64::MIN,
{
}

/// The fault that is told is the first of those that there are: the time before
/// the authority, that before the signature, that before the name, and the use
/// last.
pub proof fn law_first_fault_is_told(
    leaf_valid: bool,
    ca_valid: bool,
    ca_is_ca: bool,
    signature: Option<Seq<char>>,
    names: Seq<Option<Seq<char>>>,
    usage: Option<bool>,
    dns: Seq<char>,
)
    ensures
        ({
            let f = fault_of(
                leaf_valid,
                ca_valid,
                ca_is_ca,
                signature,
                Ok(Some(names)),
                Ok(usage),
                dns,
            );
            let named = exists|i: int|
                0 <= i < names.len() && (#[trigger] names[i]) is Some && same_but_case(
                    names[i]->0,
                    dns,
                );
            &&& f == Some(Fault::Expired) <==> !leaf_valid
            &&& f == Some(Fault::CaExpired) <==> leaf_valid && !ca_valid
            &&& f == Some(Fault::NotCa) <==> leaf_valid && ca_valid && !ca_is_ca
            &&& leaf_valid && ca_valid && ca_is_ca && signature is Some ==> f == Some(
                Fault::Untrusted(signature->0),
            )
            &&& leaf_valid && ca_valid && ca_is_ca && signature is None && !named ==> f == Some(
                Fault::MissingDnsName(dns),
            )
            &&& leaf_valid && ca_valid && ca_is_ca && signature is None && named && usage != Some(
                true,
            ) ==> f == Some(Fault::MissingServerAuth)
        }),
{
    assert(names_have(names, dns) <==> exists|i: int|
        0 <= i < names.len() && (#[trigger] names[i]) is Some && same_but_case(names[i]->0, dns));
}

proof fn lemma_first_is(s: Seq<char>, p: Seq<char>, k: int)
    requires
        occurs_at(s, p, k),
        p.len() > 0,
        forall|j: int| 0 <= j < k ==> s[j] != p[0],
    ensures
        first_place(s, p, 0) == Some(k),
{
    law_first_place_is_the_first(s, p, 0, k);
    if let Some(q) = first_place(s, p, 0) {
        if q < k {
            assert(s.subrange(q, q + p.len())[0] == s[q]);
        }
    }
}

/// A block is found with its label and its body: what stands between its two
/// lines, behind whatever label the second has.
pub proof fn law_block_is_found(label: Seq<char>, body: Seq<char>, rest: Seq<char>)
    requires
        label.len() >= 2,
        utf8_width(label[0]) == 1,
        utf8_width(label[1]) == 1,
        !label.contains('-'),
        !body.contains('-'),
    ensures
        ({
            let s = "-----BEGIN "@ + label + "-----"@ + body + "-----END "@ + label + "-----"@
                + rest;
            &&& first_block(s) == Some((label, body, "-----"@ + rest))
            &&& first_label(s) == Some(label)
        }),
{
    let begin = "-----BEGIN "@;
    let dashes = "-----"@;
    let end = "-----END "@;
    reveal_strlit("-----BEGIN ");
    reveal_strlit("-----");
    reveal_strlit("-----END ");
    let s = begin + label + dashes + body + end + label + dashes + rest;
    let n = label.len() as int;
    let m = body.len() as int;
    assert forall|j: int| 0 <= j < n implies label[j] != '-' by {
        assert(label.contains(label[j]));
    }
    assert forall|j: int| 0 <= j < m implies body[j] != '-' by {
        assert(body.contains(body[j]));
    }
    assert(s.subrange(0, 11) =~= begin);
    assert(occurs_at(s, begin, 0));
    lemma_first_is(s, begin, 0);
    let after = from_place(s, 11);
    assert(after =~= label + dashes + body + end + label + dashes + rest);
    assert(after.subrange(n, n + 5) =~= dashes);
    assert(dashes[0] == '-');
    assert(occurs_at(after, dashes, n));
    assert forall|j: int| 0 <= j < n implies after[j] != dashes[0] by {
        assert(after[j] == label[j]);
    }
    lemma_first_is(after, dashes, n);
    assert(after.subrange(0, n) =~= label);
    let inner = from_place(after, n + 5);
    assert(inner =~= body + end + label + dashes + rest);
    assert(inner.subrange(m, m + 9) =~= end);
    assert(end[0] == '-');
    assert(occurs_at(inner, end, m));
    assert forall|j: int| 0 <= j < m implies inner[j] != end[0] by {
        assert(inner[j] == body[j]);
    }
    lemma_first_is(inner, end, m);
    assert(inner.subrange(0, m) =~= body);
    let closing = from_place(inner, m + 9);
    assert(closing =~= label + dashes + rest);
    assert(closing[0] == label[0]);
    assert(closing[1] == label[1]);
    let tail = from_place(inner, m + 11);
    assert(tail =~= label.subrange(2, n) + dashes + rest);
    assert(tail.subrange(n - 2, n + 3) =~= dashes);
    assert(occurs_at(tail, dashes, n - 2));
    assert forall|j: int| 0 <= j < n - 2 implies tail[j] != dashes[0] by {
        assert(tail[j] == label[j + 2]);
    }
    lemma_first_is(tail, dashes, n - 2);
    assert(from_place(tail, n - 2) =~= dashes + rest);
}

/// A text without a beginning of a block holds none; behind a block of another
/// label the search goes on.
pub proof fn law_blocks_follow_one_another(s: Seq<char>, label: Seq<char>)
    ensures
        first_block(s) is None ==> blocks(s, label).len() == 0,
        (match first_block(s) {
            Some((l, body, rest)) => {
                &&& l != label ==> blocks(s, label) == blocks(rest, label)
                &&& l == label && base64_bytes(without_space(body)) is Some ==> blocks(s, label)
                    == seq![base64_bytes(without_space(body))->0] + blocks(rest, label)
                &&& l == label && base64_bytes(without_space(body)) is None ==> blocks(s, label)
                    == blocks(rest, label)
            },
            None => true,
        }),
{
    if let Some((l, body, rest)) = first_block(s) {
        if l != label || base64_bytes(without_space(body)) is None {
            assert(Seq::<Seq<u8>>::empty() + blocks(rest, label) =~= blocks(rest, label));
        }
    }
}

/// A key is taken in the encoding that its label tells.
pub proof fn law_label_tells_the_encoding(key: Vec<u8>)
    ensures
        encoding_of_label(Some("RSA PRIVATE KEY"@)) == encoding(KeyDer::Pkcs1(key)),
        encoding_of_label(Some("EC PRIVATE KEY"@)) == encoding(KeyDer::Sec1(key)),
        encoding_of_label(Some("PRIVATE KEY"@)) == encoding(KeyDer::Pkcs8(key)),
        encoding_of_label(None) == encoding(KeyDer::Pkcs8(key)),
        encoding(KeyDer::Pkcs1(key)) != encoding(KeyDer::Pkcs8(key)),
        encoding(KeyDer::Sec1(key)) != encoding(KeyDer::Pkcs8(key)),
        encoding(KeyDer::Sec1(key)) != encoding(KeyDer::Pkcs1(key)),
{
    reveal_strlit("RSA PRIVATE KEY");
    reveal_strlit("EC PRIVATE KEY");
    reveal_strlit("PRIVATE KEY");
    assert("RSA PRIVATE KEY"@.len() == 15);
    assert("EC PRIVATE KEY"@.len() == 14);
    assert("PRIVATE KEY"@.len() == 11);
}

/// A serving certificate is judged by its own time and that of the authority, by
/// the authority, the signature, its names and its use: it is taken just where
/// all of them hold, and what is told of it is its own time.
pub proof fn law_when_a_certificate_is_taken(
    cert_pem: Seq<u8>,
    ca_pem: Seq<u8>,
    leaf: Seq<u8>,
    ca: Seq<u8>,
    dns: Seq<char>,
    now: Timestamp,
)
    requires
        pem_contents(cert_pem) == Ok::<Seq<u8>, Seq<char>>(leaf),
        pem_contents(ca_pem) == Ok::<Seq<u8>, Seq<char>>(ca),
        certificate_error(leaf) is None,
        certificate_error(ca) is None,
    ensures
        ({
            let v = validation(cert_pem, ca_pem, dns, now);
            let names = alternative_names(leaf);
            &&& v is Ok <==> {
                &&& is_valid_on(leaf, now)
                &&& is_valid_on(ca, now)
                &&& is_ca_certificate(ca)
                &&& signature_error(leaf, ca) is None
                &&& names is Ok && names->Ok_0 is Some && names_have(names->Ok_0->0, dns)
                &&& server_usage(leaf) == Ok::<Option<bool>, Seq<char>>(Some(true))
            }
            &&& v is Ok ==> v->Ok_0.valid && (v->Ok_0.not_before, v->Ok_0.not_after)
                == validity_of(leaf)
        }),
{
}

/// A key of any encoding that is known is found; one in the general encoding is
/// taken first.
pub proof fn law_keys_are_found(s: Seq<char>, i: int)
    ensures
        0 <= i < blocks(s, "PRIVATE KEY"@).len() ==> keys_in(s)[i] == blocks(s, "PRIVATE KEY"@)[i],
        keys_in(s).len() == blocks(s, "PRIVATE KEY"@).len() + blocks(s, "RSA PRIVATE KEY"@).len()
            + blocks(s, "EC PRIVATE KEY"@).len(),
        0 <= i < blocks(s, "RSA PRIVATE KEY"@).len() ==> keys_in(s).contains(
            blocks(s, "RSA PRIVATE KEY"@)[i],
        ),
        0 <= i < blocks(s, "EC PRIVATE KEY"@).len() ==> keys_in(s).contains(
            blocks(s, "EC PRIVATE KEY"@)[i],
        ),
{
    let a = blocks(s, "PRIVATE KEY"@);
    let b = blocks(s, "RSA PRIVATE KEY"@);
    let c = blocks(s, "EC PRIVATE KEY"@);
    if 0 <= i < b.len() {
        assert(keys_in(s)[a.len() + i] == b[i]);
    }
    if 0 <= i < c.len() {
        assert(keys_in(s)[a.len() + b.len() + i] == c[i]);
    }
}

/// A webhook needs a certificate and a key: without a certificate that is told,
/// and without a key that, with the path of the file that lacks it. The first key
/// is the one that has to fit, whatever keys follow it.
pub proof fn law_files_need_a_certificate_and_its_key(
    cert_pem: Seq<u8>,
    key_pem: Seq<u8>,
    cert_path: Seq<char>,
    key_path: Seq<char>,
)
    ensures
        ({
            let f = identity_fault(cert_pem, key_pem, cert_path, key_path);
            let certs = blocks(utf8_lossy(cert_pem), "CERTIFICATE"@);
            let keys = keys_in(utf8_lossy(key_pem));
            let label = encoding_of_label(first_label(utf8_lossy(key_pem)));
            &&& f == Some(Fault::NoCertificate(cert_path)) <==> certs.len() == 0
            &&& f == Some(Fault::NoPrivateKey(key_path)) <==> certs.len() > 0 && keys.len() == 0
            &&& f is None <==> certs.len() > 0 && keys.len() > 0 && identity_error(
                certs,
                label,
                keys.first(),
            ) is None
            &&& certs.len() > 0 && keys.len() > 0 && f is Some ==> f->0
                == Fault::InvalidServerIdentity(identity_error(certs, label, keys.first())->0)
        }),
{
}

} // verus!
