//! Building the TLS acceptor from a private key and a certificate chain.

use crate::credentials::{chain_in, import_cert, import_key, key_in, CertificateChain, PrivateKey};
use crate::error::TlsError;
use std::sync::Arc;
use tokio_rustls::rustls::{Certificate, Error, ServerConfig};
use tokio_rustls::TlsAcceptor;
use vstd::prelude::*;

verus! {

/// The server-side TLS configuration of `rustls`.
#[verifier::external_type_specification]
#[verifier::external_body]
pub struct ExServerConfig(ServerConfig);

/// The acceptor of `tokio_rustls`, which performs the server side of a
/// handshake on a connection.
#[verifier::external_type_specification]
#[verifier::external_body]
pub struct ExTlsAcceptor(TlsAcceptor);

/// Calls the `rustls` configuration builder: `ServerConfig::builder()`, then
/// `with_safe_defaults()`, `with_no_client_auth()` and
/// `with_single_cert(chain, key)`.
///
/// Nothing is claimed of the result. Whether `rustls` takes a key is decided
/// by its key parsers and, for ECDSA keys, by whether the system's random
/// number generator answered.
#[verifier::external_body]
fn server_config(chain: Vec<Vec<u8>>, key: Vec<u8>) -> Result<ServerConfig, Error> {
    let certs = chain.into_iter().map(Certificate).collect();
    ServerConfig::builder()
        .with_safe_defaults()
        .with_no_client_auth()
        .with_single_cert(certs, tokio_rustls::rustls::PrivateKey(key))
}

/// Calls `TlsAcceptor::from` on the configuration, shared behind an `Arc`.
///
/// Nothing is claimed of the result.
#[verifier::external_body]
fn acceptor_of(config: ServerConfig) -> TlsAcceptor {
    TlsAcceptor::from(Arc::new(config))
}

/// Turns what the configuration builder answered into an acceptor, or into
/// the error of this library that carries the builder's refusal.
pub fn acceptor_from(built: Result<ServerConfig, Error>) -> (acceptor: Result<TlsAcceptor, TlsError>)
    ensures
        built is Ok ==> acceptor is Ok,
        built is Err ==> acceptor is Err && acceptor->Err_0 == TlsError::Config(built->Err_0),
{
    match built {
        Ok(config) => Ok(acceptor_of(config)),
        Err(why) => Err(TlsError::Config(why)),
    }
}

/// Builds the acceptor for a server that presents `chain` with `key` and
/// asks no certificate of its clients.
///
/// `rustls` decides whether the key is usable; if it refuses, its error comes
/// back as [`TlsError::Config`] and there is no acceptor.
pub fn build_acceptor(key: PrivateKey, chain: CertificateChain) -> (acceptor: Result<
    TlsAcceptor,
    TlsError,
>)
    ensures
        acceptor is Err ==> acceptor->Err_0 is Config,
{
    acceptor_from(server_config(chain.into_certs(), key.into_der()))
}

/// The error that stops the preparation before `rustls` is asked, if there is
/// one: the key is looked at first, then the certificates.
pub open spec fn refusal_of_pem(key_pem: Seq<u8>, cert_pem: Seq<u8>) -> Option<TlsError> {
    if key_in(key_pem) is None {
        Some(TlsError::NoKeyFound)
    } else if chain_in(cert_pem).len() == 0 {
        Some(TlsError::NoCertificatesFound)
    } else {
        None
    }
}

/// Builds the acceptor from the contents of a key file and of a certificate
/// file.
///
/// Without a key the result is [`TlsError::NoKeyFound`], whatever the
/// certificate file holds; with a key but without a certificate it is
/// [`TlsError::NoCertificatesFound`]. Otherwise `rustls` decides.
pub fn acceptor_from_pem(key_pem: &[u8], cert_pem: &[u8]) -> (acceptor: Result<TlsAcceptor, TlsError>)
    ensures
        refusal_of_pem(key_pem@, cert_pem@) is Some ==> acceptor is Err && acceptor->Err_0
            == refusal_of_pem(key_pem@, cert_pem@)->Some_0,
        refusal_of_pem(key_pem@, cert_pem@) is None ==> acceptor is Ok || acceptor->Err_0 is Config,
{
    let key = match import_key(key_pem) {
        Ok(key) => key,
        Err(why) => {
            return Err(why);
        },
    };
    let chain = match import_cert(cert_pem) {
        Ok(chain) => chain,
        Err(why) => {
            return Err(why);
        },
    };
    build_acceptor(key, chain)
}

/// The error that stops the preparation before `rustls` is asked, if there is
/// one, when each file was either read or not: the key file is looked at
/// first, for whether it was read and then for its key; then the certificate
/// file in the same way.
pub open spec fn refusal_of_files(
    key_file: Result<Vec<u8>, String>,
    cert_file: Result<Vec<u8>, String>,
) -> Option<TlsError> {
    match key_file {
        Err(why) => Some(TlsError::Io(why)),
        Ok(key_pem) => if key_in(key_pem@) is None {
            Some(TlsError::NoKeyFound)
        } else {
            match cert_file {
                Err(why) => Some(TlsError::Io(why)),
                Ok(cert_pem) => if chain_in(cert_pem@).len() == 0 {
                    Some(TlsError::NoCertificatesFound)
                } else {
                    None
                },
            }
        },
    }
}

/// Builds the acceptor from what reading the key file and the certificate
/// file gave: the contents, or the reason why a file could not be read.
///
/// The first failure in this order is the result: the key file was not read,
/// it holds no key, the certificate file was not read, it holds no
/// certificate. Otherwise `rustls` decides.
pub fn acceptor_from_files(
    key_file: Result<Vec<u8>, String>,
    cert_file: Result<Vec<u8>, String>,
) -> (acceptor: Result<TlsAcceptor, TlsError>)
    ensures
        refusal_of_files(key_file, cert_file) is Some ==> acceptor is Err && acceptor->Err_0
            == refusal_of_files(key_file, cert_file)->Some_0,
        refusal_of_files(key_file, cert_file) is None ==> acceptor is Ok || acceptor->Err_0
            is Config,
{
    let key = match key_file {
        Ok(key_pem) => match import_key(key_pem.as_slice()) {
            Ok(key) => key,
            Err(why) => {
                return Err(why);
            },
        },
        Err(why) => {
            return Err(TlsError::Io(why));
        },
    };
    let chain = match cert_file {
        Ok(cert_pem) => match import_cert(cert_pem.as_slice()) {
            Ok(chain) => chain,
            Err(why) => {
                return Err(why);
            },
        },
        Err(why) => {
            return Err(TlsError::Io(why));
        },
    };
    build_acceptor(key, chain)
}

} // verus!
