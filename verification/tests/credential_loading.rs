use https_server::credentials::{
    import_cert, import_key, select_certificates, select_key, CertificateChain, PrivateKey,
};
use https_server::error::TlsError;
use https_server::pem::PemRead;

/// One PEM section of type `label` around `body`, which is base64 text.
fn section(label: &str, body: &str) -> String {
    let dashes = "-".repeat(5);
    format!("{dashes}BEGIN {label}{dashes}\n{body}\n{dashes}END {label}{dashes}\n")
}

const CERT: &str = "CERTIFICATE";
const RSA: &str = "RSA PRIVATE KEY";
const PKCS8: &str = "PRIVATE KEY";
const EC: &str = "EC PRIVATE KEY";
const CRL: &str = "X509 CRL";

fn key_bytes(text: &str) -> Result<Vec<u8>, TlsError> {
    import_key(text.as_bytes()).map(PrivateKey::into_der)
}

fn cert_bytes(text: &str) -> Result<Vec<Vec<u8>>, TlsError> {
    import_cert(text.as_bytes()).map(CertificateChain::into_certs)
}

#[test]
fn single_rsa_key_is_loaded() {
    assert_eq!(key_bytes(&section(RSA, "AQID")), Ok(vec![1, 2, 3]));
}

#[test]
fn single_pkcs8_key_is_loaded() {
    assert_eq!(key_bytes(&section(PKCS8, "BAUG")), Ok(vec![4, 5, 6]));
}

#[test]
fn single_ec_key_is_loaded() {
    assert_eq!(key_bytes(&section(EC, "BwgJ")), Ok(vec![7, 8, 9]));
}

#[test]
fn single_key_among_other_sections_is_loaded() {
    let text = [
        section(CERT, "AQID"),
        section(CRL, "DQ4P"),
        section(EC, "BwgJ"),
        section(CERT, "BAUG"),
    ]
    .concat();
    assert_eq!(key_bytes(&text), Ok(vec![7, 8, 9]));
}

#[test]
fn first_of_several_keys_is_loaded() {
    let text = [section(PKCS8, "BAUG"), section(RSA, "AQID"), section(EC, "BwgJ")].concat();
    assert_eq!(key_bytes(&text), Ok(vec![4, 5, 6]));
    let text = [section(EC, "BwgJ"), section(PKCS8, "BAUG"), section(RSA, "AQID")].concat();
    assert_eq!(key_bytes(&text), Ok(vec![7, 8, 9]));
}

#[test]
fn first_key_counts_by_position_not_by_type() {
    let text = [section(CERT, "AQID"), section(RSA, "CgsM"), section(RSA, "DQ4P")].concat();
    assert_eq!(key_bytes(&text), Ok(vec![10, 11, 12]));
}

#[test]
fn unreadable_key_section_is_passed_over() {
    let text = [section(RSA, "!!!!"), section(RSA, "AQID")].concat();
    assert_eq!(key_bytes(&text), Ok(vec![1, 2, 3]));
}

#[test]
fn empty_key_file_has_no_key() {
    assert_eq!(key_bytes(""), Err(TlsError::NoKeyFound));
}

#[test]
fn key_file_of_certificates_has_no_key() {
    let text = [section(CERT, "AQID"), section(CERT, "BAUG")].concat();
    assert_eq!(key_bytes(&text), Err(TlsError::NoKeyFound));
}

#[test]
fn key_file_of_unknown_and_broken_sections_has_no_key() {
    let text = [section("PUBLIC KEY", "AQID"), section(RSA, "!!!!"), section(CRL, "DQ4P")].concat();
    assert_eq!(key_bytes(&text), Err(TlsError::NoKeyFound));
}

#[test]
fn single_certificate_is_loaded() {
    assert_eq!(cert_bytes(&section(CERT, "AQID")), Ok(vec![vec![1, 2, 3]]));
}

#[test]
fn certificates_come_in_file_order() {
    let text = [section(CERT, "BwgJ"), section(CERT, "AQID"), section(CERT, "BAUG")].concat();
    assert_eq!(cert_bytes(&text), Ok(vec![vec![7, 8, 9], vec![1, 2, 3], vec![4, 5, 6]]));
}

#[test]
fn certificates_between_other_sections_are_all_loaded() {
    let text = [
        section(RSA, "CgsM"),
        section(CERT, "AQID"),
        section(CRL, "DQ4P"),
        "a remark\n".to_string(),
        section(CERT, "BAUG"),
        section("PUBLIC KEY", "AQID"),
        section(CERT, "!!!!"),
        section(CERT, "BwgJ"),
        section(EC, "CgsM"),
    ]
    .concat();
    assert_eq!(cert_bytes(&text), Ok(vec![vec![1, 2, 3], vec![4, 5, 6], vec![7, 8, 9]]));
}

#[test]
fn equal_certificates_are_each_kept() {
    let text = [section(CERT, "AQID"), section(CERT, "AQID")].concat();
    assert_eq!(cert_bytes(&text), Ok(vec![vec![1, 2, 3], vec![1, 2, 3]]));
}

#[test]
fn empty_certificate_file_has_no_certificates() {
    assert_eq!(cert_bytes(""), Err(TlsError::NoCertificatesFound));
}

#[test]
fn certificate_file_of_keys_has_no_certificates() {
    let text = [section(RSA, "AQID"), section(PKCS8, "BAUG"), section(EC, "BwgJ")].concat();
    assert_eq!(cert_bytes(&text), Err(TlsError::NoCertificatesFound));
}

#[test]
fn select_key_takes_the_first_key_read() {
    let reads = vec![
        PemRead::Malformed,
        PemRead::X509Certificate(vec![1]),
        PemRead::Crl(vec![2]),
        PemRead::Unrecognized,
        PemRead::Pkcs8Key(vec![3]),
        PemRead::RsaKey(vec![4]),
    ];
    assert_eq!(select_key(reads).map(PrivateKey::into_der), Ok(vec![3]));
}

#[test]
fn select_key_finds_no_key_among_other_reads() {
    let reads = vec![
        PemRead::Malformed,
        PemRead::X509Certificate(vec![1]),
        PemRead::Crl(vec![2]),
        PemRead::Unrecognized,
    ];
    assert_eq!(select_key(reads), Err(TlsError::NoKeyFound));
    assert_eq!(select_key(Vec::new()), Err(TlsError::NoKeyFound));
}

#[test]
fn select_certificates_keeps_certificates_in_order() {
    let reads = vec![
        PemRead::EcKey(vec![9]),
        PemRead::X509Certificate(vec![1]),
        PemRead::Malformed,
        PemRead::X509Certificate(vec![2]),
        PemRead::Crl(vec![7]),
        PemRead::X509Certificate(vec![3]),
    ];
    assert_eq!(
        select_certificates(reads).map(CertificateChain::into_certs),
        Ok(vec![vec![1], vec![2], vec![3]])
    );
}

#[test]
fn select_certificates_finds_none_among_other_reads() {
    let reads = vec![PemRead::EcKey(vec![9]), PemRead::Malformed, PemRead::Crl(vec![7])];
    assert_eq!(select_certificates(reads), Err(TlsError::NoCertificatesFound));
    assert_eq!(select_certificates(Vec::new()), Err(TlsError::NoCertificatesFound));
}

#[test]
fn private_key_keeps_its_bytes() {
    let key = PrivateKey::new(vec![5, 6, 7]);
    assert_eq!(key.der(), &vec![5, 6, 7]);
    assert_eq!(key.into_der(), vec![5, 6, 7]);
}

#[test]
fn chain_is_never_empty() {
    assert_eq!(CertificateChain::new(Vec::new()), Err(TlsError::NoCertificatesFound));
    let chain = CertificateChain::new(vec![vec![1], vec![2, 3]]).unwrap();
    assert_eq!(chain.len(), 2);
    assert_eq!(chain.certs(), &vec![vec![1], vec![2, 3]]);
    assert_eq!(chain.into_certs(), vec![vec![1], vec![2, 3]]);
}
