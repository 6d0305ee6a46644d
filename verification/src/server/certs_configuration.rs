//! Parsing the server's PEM credential material.
//!
//! The certificate file is a possibly-multi-certificate PEM bundle; every
//! entry is kept, in order of appearance, leaf first, since the server
//! must present the whole chain. The key file is tried as PKCS#8 first
//! and as an RSA (PKCS#1) key second; a file that yields neither is a
//! non-recoverable condition, as no key means no server identity. Reading
//! the two files from disk happens outside the library.

use vstd::prelude::*;

verus! {

/// Why credential material was refused.
#[derive(Clone, Copy, Debug, PartialEq, Eq, Structural)]
pub enum CredentialError {
    /// A PEM section could not be decoded.
    MalformedPem,
    /// No PKCS#8 and no RSA private key was found.
    NoPrivateKey,
}

/// The DER bytes of the PEM certificate sections of the input, in order of
/// appearance, or `None` when a recognized section cannot be decoded.
pub uninterp spec fn pem_certs_of(data: Seq<u8>) -> Option<Seq<Seq<u8>>>;

/// The DER bytes of the PKCS#8 private-key sections of the input, in order
/// of appearance, or `None` when a recognized section cannot be decoded.
pub uninterp spec fn pem_pkcs8_keys_of(data: Seq<u8>) -> Option<Seq<Seq<u8>>>;

/// The DER bytes of the RSA (PKCS#1) private-key sections of the input, in
/// order of appearance, or `None` when a recognized section cannot be
/// decoded.
pub uninterp spec fn pem_rsa_keys_of(data: Seq<u8>) -> Option<Seq<Seq<u8>>>;

/// Relies on rustls_pemfile::certs: yields the DER bytes of every PEM
/// certificate section, in order of appearance, skipping sections of other
/// kinds, and fails when a recognized section cannot be decoded; the
/// outcome is a function of the input bytes alone.
#[verifier::external_body]
fn pem_certs(data: &[u8]) -> (r: Result<Vec<Vec<u8>>, ()>)
    ensures
        match r {
            Ok(v) => pem_certs_of(data@) == Some(v.deep_view()),
            Err(()) => pem_certs_of(data@) is None,
        },
{
    let mut rd: &[u8] = data;
    match rustls_pemfile::certs(&mut rd).collect::<Result<Vec<_>, std::io::Error>>() {
        Ok(certs) => Ok(certs.into_iter().map(|c| c.as_ref().to_vec()).collect()),
        Err(_) => Err(()),
    }
}

/// Relies on rustls_pemfile::pkcs8_private_keys: yields the DER bytes of
/// every PKCS#8 private-key section, in order of appearance, skipping
/// sections of other kinds, and fails when a recognized section cannot be
/// decoded; the outcome is a function of the input bytes alone.
#[verifier::external_body]
fn pem_pkcs8_keys(data: &[u8]) -> (r: Result<Vec<Vec<u8>>, ()>)
    ensures
        match r {
            Ok(v) => pem_pkcs8_keys_of(data@) == Some(v.deep_view()),
            Err(()) => pem_pkcs8_keys_of(data@) is None,
        },
{
    let mut rd: &[u8] = data;
    match rustls_pemfile::pkcs8_private_keys(&mut rd).collect::<Result<Vec<_>, std::io::Error>>() {
        Ok(keys) => Ok(keys.into_iter().map(|k| k.secret_pkcs8_der().to_vec()).collect()),
        Err(_) => Err(()),
    }
}

/// Relies on rustls_pemfile::rsa_private_keys: yields the DER bytes of
/// every RSA (PKCS#1) private-key section, in order of appearance, skipping
/// sections of other kinds, and fails when a recognized section cannot be
/// decoded; the outcome is a function of the input bytes alone.
#[verifier::external_body]
fn pem_rsa_keys(data: &[u8]) -> (r: Result<Vec<Vec<u8>>, ()>)
    ensures
        match r {
            Ok(v) => pem_rsa_keys_of(data@) == Some(v.deep_view()),
            Err(()) => pem_rsa_keys_of(data@) is None,
        },
{
    let mut rd: &[u8] = data;
    match rustls_pemfile::rsa_private_keys(&mut rd).collect::<Result<Vec<_>, std::io::Error>>() {
        Ok(keys) => Ok(keys.into_iter().map(|k| k.secret_pkcs1_der().to_vec()).collect()),
        Err(_) => Err(()),
    }
}

/// What parsing the certificate bundle returns: every certificate's DER
/// bytes, in order of appearance, or a refusal of malformed PEM.
pub open spec fn spec_parse_pem_cert(data: Seq<u8>) -> Result<Seq<Seq<u8>>, CredentialError> {
    match pem_certs_of(data) {
        Some(certs) => Ok(certs),
        None => Err(CredentialError::MalformedPem),
    }
}

/// What parsing the key file returns: the first PKCS#8 key if there is
/// one, otherwise the first RSA key, otherwise the refusal that no private
/// key was found; malformed PEM refuses either way.
pub open spec fn spec_parse_pem_key(data: Seq<u8>) -> Result<Seq<u8>, CredentialError> {
    match pem_pkcs8_keys_of(data) {
        None => Err(CredentialError::MalformedPem),
        Some(pkcs8) => if pkcs8.len() > 0 {
            Ok(pkcs8[0])
        } else {
            match pem_rsa_keys_of(data) {
                None => Err(CredentialError::MalformedPem),
                Some(rsa) => if rsa.len() > 0 {
                    Ok(rsa[0])
                } else {
                    Err(CredentialError::NoPrivateKey)
                },
            }
        },
    }
}

/// Parses the certificate bundle, keeping every certificate in order of
/// appearance, leaf first.
pub fn parse_pem_cert(cert: &[u8]) -> (r: Result<Vec<Vec<u8>>, CredentialError>)
    ensures
        match r {
            Ok(v) => spec_parse_pem_cert(cert@) == Ok::<Seq<Seq<u8>>, CredentialError>(
                v.deep_view(),
            ),
            Err(e) => spec_parse_pem_cert(cert@) == Err::<Seq<Seq<u8>>, CredentialError>(e),
        },
{
    match pem_certs(cert) {
        Ok(v) => Ok(v),
        Err(()) => Err(CredentialError::MalformedPem),
    }
}

/// Parses the private-key file: the first PKCS#8 key, else the first RSA
/// key, else the fatal refusal that no key was found.
pub fn parse_pem_key(key: &[u8]) -> (r: Result<Vec<u8>, CredentialError>)
    ensures
        match r {
            Ok(k) => spec_parse_pem_key(key@) == Ok::<Seq<u8>, CredentialError>(k@),
            Err(e) => spec_parse_pem_key(key@) == Err::<Seq<u8>, CredentialError>(e),
        },
{
    let pkcs8 = match pem_pkcs8_keys(key) {
        Ok(v) => v,
        Err(()) => {
            return Err(CredentialError::MalformedPem);
        },
    };
    if pkcs8.len() > 0 {
        proof {
            assert(pkcs8.deep_view()[0] == pkcs8@[0]@);
        }
        let mut pkcs8 = pkcs8;
        let k = pkcs8.remove(0);
        return Ok(k);
    }
    let rsa = match pem_rsa_keys(key) {
        Ok(v) => v,
        Err(()) => {
            return Err(CredentialError::MalformedPem);
        },
    };
    if rsa.len() > 0 {
        proof {
            assert(rsa.deep_view()[0] == rsa@[0]@);
        }
        let mut rsa = rsa;
        let k = rsa.remove(0);
        Ok(k)
    } else {
        proof {
            assert(pkcs8.deep_view().len() == 0);
            assert(rsa.deep_view().len() == 0);
        }
        Err(CredentialError::NoPrivateKey)
    }
}

/// Parses the certificate bundle and the key file together, as the server
/// credential is loaded.
pub fn parse_pem(cert: &[u8], private_key: &[u8]) -> (r: Result<
    (Vec<Vec<u8>>, Vec<u8>),
    CredentialError,
>)
    ensures
        match r {
            Ok(p) => spec_parse_pem_cert(cert@) == Ok::<Seq<Seq<u8>>, CredentialError>(
                p.0.deep_view(),
            ) && spec_parse_pem_key(private_key@) == Ok::<Seq<u8>, CredentialError>(p.1@),
            Err(e) => spec_parse_pem_key(private_key@) == Err::<Seq<u8>, CredentialError>(e) || (
            spec_parse_pem_key(private_key@) is Ok && spec_parse_pem_cert(cert@) == Err::<
                Seq<Seq<u8>>,
                CredentialError,
            >(e)),
        },
{
    let parsed_key = match parse_pem_key(private_key) {
        Ok(k) => k,
        Err(e) => {
            return Err(e);
        },
    };
    let parsed_certs = match parse_pem_cert(cert) {
        Ok(c) => c,
        Err(e) => {
            return Err(e);
        },
    };
    Ok((parsed_certs, parsed_key))
}

} // verus!
