//! The ways in which preparing the TLS endpoint can fail.

use vstd::prelude::*;

verus! {

/// The error that `rustls` reports when it refuses a configuration.
#[verifier::external_type_specification]
#[verifier::external_body]
pub struct ExRustlsError(tokio_rustls::rustls::Error);

/// Why no TLS acceptor could be prepared. Each of these is fatal at startup.
#[derive(Debug, PartialEq)]
pub enum TlsError {
    /// A configuration value could not be read; the text says why.
    Environment(String),
    /// A credential file could not be read; the text says why.
    Io(String),
    /// The key file held no RSA, PKCS#8 or EC private key.
    NoKeyFound,
    /// The certificate file held no X.509 certificate.
    NoCertificatesFound,
    /// `rustls` refused the key and certificate chain.
    Config(tokio_rustls::rustls::Error),
}

impl TlsError {
    /// The text of the error where this library words it: what was handed in
    /// with the error, or a fixed sentence. The refusals of `rustls` are
    /// worded by `rustls`.
    pub open spec fn wording(&self) -> Option<Seq<char>> {
        match self {
            TlsError::Environment(why) => Some(why@),
            TlsError::Io(why) => Some(why@),
            TlsError::NoKeyFound => Some("Key file has no keys!"@),
            TlsError::NoCertificatesFound => Some("Cert file has no certs!"@),
            TlsError::Config(_) => None,
        }
    }

    /// The error as a line for the operator.
    pub fn message(&self) -> (text: String)
        ensures
            self.wording() is Some ==> text@ == self.wording()->Some_0,
            self is Config ==> vstd::string::to_string_from_display_ensures(&self->Config_0, text),
    {
        match self {
            TlsError::Environment(why) => why.clone(),
            TlsError::Io(why) => why.clone(),
            TlsError::NoKeyFound => "Key file has no keys!".to_owned(),
            TlsError::NoCertificatesFound => "Cert file has no certs!".to_owned(),
            TlsError::Config(why) => why.to_string(),
        }
    }
}

} // verus!
