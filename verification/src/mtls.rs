//! The certificate of the operator's own server.

use vstd::prelude::*;
use vstd::string::*;
use crate::error::Error;
use crate::str_map::StrMap;
use crate::text::cat2;

verus! {

/// What the operator's server shows and checks, in PEM.
#[derive(Debug)]
pub struct MtlsConfig {
    pub cert_pem: Vec<u8>,
    pub key_pem: Vec<u8>,
    pub ca_pem: Vec<u8>,
}

/// What a secret lacks to hold a certificate, its key and the authority.
pub open spec fn lacking(data: Option<StrMap<Vec<u8>>>) -> Option<Seq<char>> {
    match data {
        None => Some("Secret has no data"@),
        Some(d) => if d.at("tls.crt"@) is None {
            Some("Missing "@ + "tls.crt"@)
        } else if d.at("tls.key"@) is None {
            Some("Missing "@ + "tls.key"@)
        } else if d.at("ca.crt"@) is None {
            Some("Missing "@ + "ca.crt"@)
        } else {
            None
        },
    }
}

fn part(data: &StrMap<Vec<u8>>, key: &str) -> (r: Result<Vec<u8>, Error>)
    ensures
        (match r {
            Ok(bytes) => data.at(key@) is Some && bytes@ == data.at(key@)->0@,
            Err(Error::ConfigError(m)) => data.at(key@) is None && m@ == "Missing "@ + key@,
            Err(_) => false,
        }),
{
    match data.get(key) {
        Some(bytes) => {
            let copy = bytes.clone();
            assert(copy@ =~= bytes@);
            Ok(copy)
        },
        None => Err(Error::ConfigError(cat2("Missing ", key))),
    }
}

/// The certificate, its key and the authority, from the data of a secret.
pub fn mtls_config(data: &Option<StrMap<Vec<u8>>>) -> (r: Result<MtlsConfig, Error>)
    ensures
        (match r {
            Ok(c) => lacking(*data) is None && c.cert_pem@ == data->0.at("tls.crt"@)->0@
                && c.key_pem@ == data->0.at("tls.key"@)->0@ && c.ca_pem@ == data->0.at(
                "ca.crt"@,
            )->0@,
            Err(Error::ConfigError(m)) => lacking(*data) == Some(m@),
            Err(_) => false,
        }),
{
    match data {
        None => Err(Error::ConfigError("Secret has no data".to_string())),
        Some(d) => {
            let cert_pem = match part(d, "tls.crt") {
                Ok(bytes) => bytes,
                Err(e) => return Err(e),
            };
            let key_pem = match part(d, "tls.key") {
                Ok(bytes) => bytes,
                Err(e) => return Err(e),
            };
            let ca_pem = match part(d, "ca.crt") {
                Ok(bytes) => bytes,
                Err(e) => return Err(e),
            };
            Ok(MtlsConfig { cert_pem, key_pem, ca_pem })
        },
    }
}

/// A secret is complete where it holds a certificate, a key and an authority.
pub proof fn law_when_a_secret_is_complete(data: Option<StrMap<Vec<u8>>>)
    ensures
        lacking(data) is None <==> data is Some && data->0.at("tls.crt"@) is Some && data->0.at(
            "tls.key"@,
        ) is Some && data->0.at("ca.crt"@) is Some,
{
}

} // verus!
