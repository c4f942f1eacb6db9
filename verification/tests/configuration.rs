use https_server::config::{
    load_tls_config, TlsConfig, CERT_FILE_VARIABLE, KEY_FILE_VARIABLE, LISTEN_ADDRESS,
};
use https_server::error::TlsError;

fn found(path: &str) -> Result<String, String> {
    Ok(path.to_string())
}

fn missing(name: &str) -> Result<String, String> {
    Err(format!("{name} is not set"))
}

#[test]
fn variables_have_their_names() {
    assert_eq!(KEY_FILE_VARIABLE, "RUST_TLS_KEY_FILE");
    assert_eq!(CERT_FILE_VARIABLE, "RUST_TLS_CERT_FILE");
}

#[test]
fn server_listens_on_the_loopback_address() {
    assert_eq!(LISTEN_ADDRESS, "127.0.0.1:5000");
}

#[test]
fn config_keeps_both_paths() {
    let config = TlsConfig::new("/etc/tls/key.pem".to_string(), "/etc/tls/cert.pem".to_string());
    assert_eq!(config.key_file_path(), "/etc/tls/key.pem");
    assert_eq!(config.cert_file_path(), "/etc/tls/cert.pem");
}

#[test]
fn both_values_make_a_config() {
    let config = load_tls_config(found("key.pem"), found("cert.pem")).unwrap();
    assert_eq!(config, TlsConfig::new("key.pem".to_string(), "cert.pem".to_string()));
    assert_eq!(config.key_file_path(), "key.pem");
    assert_eq!(config.cert_file_path(), "cert.pem");
}

#[test]
fn missing_key_path_is_an_error() {
    assert_eq!(
        load_tls_config(missing(KEY_FILE_VARIABLE), found("cert.pem")),
        Err(TlsError::Environment("RUST_TLS_KEY_FILE is not set".to_string()))
    );
}

#[test]
fn missing_certificate_path_is_an_error() {
    assert_eq!(
        load_tls_config(found("key.pem"), missing(CERT_FILE_VARIABLE)),
        Err(TlsError::Environment("RUST_TLS_CERT_FILE is not set".to_string()))
    );
}

#[test]
fn missing_key_path_is_reported_first() {
    assert_eq!(
        load_tls_config(missing(KEY_FILE_VARIABLE), missing(CERT_FILE_VARIABLE)),
        Err(TlsError::Environment("RUST_TLS_KEY_FILE is not set".to_string()))
    );
}

#[test]
fn errors_have_their_messages() {
    assert_eq!(TlsError::NoKeyFound.message(), "Key file has no keys!");
    assert_eq!(TlsError::NoCertificatesFound.message(), "Cert file has no certs!");
    assert_eq!(TlsError::Io("permission denied".to_string()).message(), "permission denied");
    assert_eq!(TlsError::Environment("not set".to_string()).message(), "not set");
}
