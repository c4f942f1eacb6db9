//! Where the credentials are found.

use crate::error::TlsError;
use vstd::prelude::*;

verus! {

/// The configuration value that names the private key file.
pub const KEY_FILE_VARIABLE: &'static str = "RUST_TLS_KEY_FILE";

/// The configuration value that names the certificate chain file.
pub const CERT_FILE_VARIABLE: &'static str = "RUST_TLS_CERT_FILE";

/// The address that the server listens on.
pub const LISTEN_ADDRESS: &'static str = "127.0.0.1:5000";

/// The paths of the two credential files.
#[derive(Debug, PartialEq, Eq)]
pub struct TlsConfig {
    key_file_path: String,
    cert_file_path: String,
}

/// The mathematical value of a [`TlsConfig`].
pub struct TlsConfigView {
    pub key_file_path: Seq<char>,
    pub cert_file_path: Seq<char>,
}

impl View for TlsConfig {
    type V = TlsConfigView;

    closed spec fn view(&self) -> TlsConfigView {
        TlsConfigView { key_file_path: self.key_file_path@, cert_file_path: self.cert_file_path@ }
    }
}

impl TlsConfig {
    /// A configuration with these two paths.
    pub fn new(key_file_path: String, cert_file_path: String) -> (config: TlsConfig)
        ensures
            config@.key_file_path == key_file_path@,
            config@.cert_file_path == cert_file_path@,
    {
        TlsConfig { key_file_path, cert_file_path }
    }

    /// The path of the private key file.
    pub fn key_file_path(&self) -> (path: &str)
        ensures
            path@ == self@.key_file_path,
    {
        self.key_file_path.as_str()
    }

    /// The path of the certificate chain file.
    pub fn cert_file_path(&self) -> (path: &str)
        ensures
            path@ == self@.cert_file_path,
    {
        self.cert_file_path.as_str()
    }
}

/// Makes the configuration from what looking up [`KEY_FILE_VARIABLE`] and
/// [`CERT_FILE_VARIABLE`] gave: the value, or the reason why there is none.
///
/// Both values are needed. Where one is missing the reason given for it is
/// the error, that of the key file if both are missing.
pub fn load_tls_config(
    key_file_path: Result<String, String>,
    cert_file_path: Result<String, String>,
) -> (config: Result<TlsConfig, TlsError>)
    ensures
        key_file_path is Err ==> config is Err && config->Err_0 == TlsError::Environment(
            key_file_path->Err_0,
        ),
        key_file_path is Ok && cert_file_path is Err ==> config is Err && config->Err_0
            == TlsError::Environment(cert_file_path->Err_0),
        key_file_path is Ok && cert_file_path is Ok ==> config is Ok && config->Ok_0@.key_file_path
            == key_file_path->Ok_0@ && config->Ok_0@.cert_file_path == cert_file_path->Ok_0@,
{
    let key_file_path = match key_file_path {
        Ok(path) => path,
        Err(why) => {
            return Err(TlsError::Environment(why));
        },
    };
    let cert_file_path = match cert_file_path {
        Ok(path) => path,
        Err(why) => {
            return Err(TlsError::Environment(why));
        },
    };
    Ok(TlsConfig::new(key_file_path, cert_file_path))
}

} // verus!
