//! Choosing the private key and the certificate chain among the sections
//! of a PEM buffer.

use crate::error::TlsError;
use crate::pem::{pem_reads, read_blocks, views, PemRead, ReadKind, ReadView};
use vstd::prelude::*;

verus! {

/// The payload of `read` if it is a private key of a recognised encoding
/// (RSA, PKCS#8 or EC).
pub open spec fn key_of(read: ReadView) -> Option<Seq<u8>> {
    match read.kind {
        ReadKind::RsaKey | ReadKind::Pkcs8Key | ReadKind::EcKey => Some(read.der),
        _ => None,
    }
}

/// The payload of `read` if it is an X.509 certificate.
pub open spec fn certificate_of(read: ReadView) -> Option<Seq<u8>> {
    match read.kind {
        ReadKind::X509Certificate => Some(read.der),
        _ => None,
    }
}

/// The private keys among `reads`, in the order of `reads`.
pub open spec fn keys(reads: Seq<ReadView>) -> Seq<Seq<u8>> {
    reads.filter_map(|read: ReadView| key_of(read))
}

/// The certificates among `reads`, in the order of `reads`.
pub open spec fn certificates(reads: Seq<ReadView>) -> Seq<Seq<u8>> {
    reads.filter_map(|read: ReadView| certificate_of(read))
}

/// The byte strings that a list of buffers holds.
pub open spec fn contents(buffers: Seq<Vec<u8>>) -> Seq<Seq<u8>> {
    buffers.map_values(|buffer: Vec<u8>| buffer@)
}

/// A private key as the bytes that its PEM section decoded to.
#[derive(Debug, PartialEq, Eq)]
pub struct PrivateKey {
    der: Vec<u8>,
}

impl View for PrivateKey {
    type V = Seq<u8>;

    closed spec fn view(&self) -> Seq<u8> {
        self.der@
    }
}

impl PrivateKey {
    /// Wraps the bytes of a key.
    pub fn new(der: Vec<u8>) -> (key: PrivateKey)
        ensures
            key@ == der@,
    {
        PrivateKey { der }
    }

    /// The bytes of the key.
    pub fn der(&self) -> (der: &Vec<u8>)
        ensures
            der@ == self@,
    {
        &self.der
    }

    /// Gives up the key for its bytes.
    pub fn into_der(self) -> (der: Vec<u8>)
        ensures
            der@ == self@,
    {
        self.der
    }
}

/// A certificate chain: one or more certificates, each as the bytes that its
/// PEM section decoded to, in the order of the file they came from.
#[derive(Debug, PartialEq, Eq)]
pub struct CertificateChain {
    certs: Vec<Vec<u8>>,
}

impl View for CertificateChain {
    type V = Seq<Seq<u8>>;

    closed spec fn view(&self) -> Seq<Seq<u8>> {
        contents(self.certs@)
    }
}

impl CertificateChain {
    #[verifier::type_invariant]
    spec fn holds_a_certificate(&self) -> bool {
        self.certs@.len() >= 1
    }

    /// Makes a chain of `certs`, unless there are none.
    pub fn new(certs: Vec<Vec<u8>>) -> (chain: Result<CertificateChain, TlsError>)
        ensures
            certs@.len() == 0 ==> chain matches Err(TlsError::NoCertificatesFound),
            certs@.len() > 0 ==> chain is Ok && chain->Ok_0@ == contents(certs@),
    {
        if certs.len() == 0 {
            Err(TlsError::NoCertificatesFound)
        } else {
            Ok(CertificateChain { certs })
        }
    }

    /// The number of certificates, which is never zero.
    pub fn len(&self) -> (n: usize)
        ensures
            n == self@.len(),
            n >= 1,
    {
        proof {
            use_type_invariant(self);
        }
        self.certs.len()
    }

    /// The certificates, first of the file first.
    pub fn certs(&self) -> (certs: &Vec<Vec<u8>>)
        ensures
            contents(certs@) == self@,
            certs@.len() >= 1,
    {
        proof {
            use_type_invariant(self);
        }
        &self.certs
    }

    /// Gives up the chain for its certificates.
    pub fn into_certs(self) -> (certs: Vec<Vec<u8>>)
        ensures
            contents(certs@) == self@,
            certs@.len() >= 1,
    {
        proof {
            use_type_invariant(&self);
        }
        self.certs
    }
}

/// What is selected from two lists joined is what is selected from the first
/// and then what is selected from the second.
proof fn lemma_filter_map_concat<A, B>(front: Seq<A>, back: Seq<A>, f: spec_fn(A) -> Option<B>)
    ensures
        (front + back).filter_map(f) == front.filter_map(f) + back.filter_map(f),
    decreases back.len(),
{
    if back.len() > 0 {
        lemma_filter_map_concat(front, back.drop_last(), f);
        assert((front + back).drop_last() == front + back.drop_last());
    }
}

/// Selecting from a list in which nothing is selected gives nothing.
proof fn lemma_filter_map_none<A, B>(items: Seq<A>, f: spec_fn(A) -> Option<B>)
    requires
        forall|j: int| 0 <= j < items.len() ==> f(#[trigger] items[j]) is None,
    ensures
        items.filter_map(f).len() == 0,
    decreases items.len(),
{
    if items.len() > 0 {
        lemma_filter_map_none(items.drop_last(), f);
    }
}

/// Where nothing before position `i` is selected and the item at `i` is, the
/// selection starts with what `f` makes of that item.
proof fn lemma_filter_map_first<A, B>(items: Seq<A>, f: spec_fn(A) -> Option<B>, i: int)
    requires
        0 <= i < items.len(),
        items.take(i).filter_map(f).len() == 0,
        f(items[i]) is Some,
    ensures
        items.filter_map(f).len() > 0,
        items.filter_map(f)[0] == f(items[i])->Some_0,
{
    items.lemma_filter_map_take_succ(f, i);
    lemma_filter_map_concat(items.take(i + 1), items.skip(i + 1), f);
    assert(items.take(i + 1) + items.skip(i + 1) == items);
}

/// Picks the private key among `reads`: the first one, whatever follows it.
pub fn select_key(reads: Vec<PemRead>) -> (key: Result<PrivateKey, TlsError>)
    ensures
        keys(views(reads@)).len() == 0 ==> key matches Err(TlsError::NoKeyFound),
        keys(views(reads@)).len() > 0 ==> key is Ok && key->Ok_0@ == keys(views(reads@))[0],
{
    let ghost all = views(reads@);
    for read in it: reads
        invariant
            all == views(it.seq()),
            keys(all.take(it.index() as int)).len() == 0,
    {
        proof {
            all.lemma_filter_map_take_succ(|r: ReadView| key_of(r), it.index() as int);
        }
        match read {
            PemRead::RsaKey(der) | PemRead::Pkcs8Key(der) | PemRead::EcKey(der) => {
                proof {
                    lemma_filter_map_first(all, |r: ReadView| key_of(r), it.index() as int);
                }
                return Ok(PrivateKey::new(der));
            },
            _ => {},
        }
    }
    proof {
        assert(all.take(all.len() as int) == all);
    }
    Err(TlsError::NoKeyFound)
}

/// Collects the certificates among `reads`, in their order, into a chain.
pub fn select_certificates(reads: Vec<PemRead>) -> (chain: Result<CertificateChain, TlsError>)
    ensures
        certificates(views(reads@)).len() == 0 ==> chain matches Err(TlsError::NoCertificatesFound),
        certificates(views(reads@)).len() > 0 ==> chain is Ok && chain->Ok_0@ == certificates(
            views(reads@),
        ),
{
    let ghost all = views(reads@);
    let mut certs: Vec<Vec<u8>> = Vec::new();
    for read in it: reads
        invariant
            all == views(it.seq()),
            contents(certs@) == certificates(all.take(it.index() as int)),
    {
        proof {
            all.lemma_filter_map_take_succ(|r: ReadView| certificate_of(r), it.index() as int);
        }
        match read {
            PemRead::X509Certificate(der) => {
                certs.push(der);
            },
            _ => {},
        }
    }
    proof {
        assert(all.take(all.len() as int) == all);
    }
    CertificateChain::new(certs)
}

/// The private key that a PEM buffer gives: the first of its keys, if it has
/// any.
pub open spec fn key_in(input: Seq<u8>) -> Option<Seq<u8>> {
    let found = keys(pem_reads(input));
    if found.len() == 0 {
        None
    } else {
        Some(found[0])
    }
}

/// The certificates that a PEM buffer gives, in the order of the buffer.
pub open spec fn chain_in(input: Seq<u8>) -> Seq<Seq<u8>> {
    certificates(pem_reads(input))
}

/// Loads the private key from the contents of a key file.
///
/// Sections of other types and unreadable sections are passed over. The
/// first key of the file is taken; a file without one is refused.
pub fn import_key(input: &[u8]) -> (key: Result<PrivateKey, TlsError>)
    ensures
        key_in(input@) is None ==> key matches Err(TlsError::NoKeyFound),
        key_in(input@) is Some ==> key is Ok && key->Ok_0@ == key_in(input@)->Some_0,
{
    select_key(read_blocks(input))
}

/// Loads the certificate chain from the contents of a certificate file.
///
/// Sections of other types and unreadable sections are passed over. Every
/// certificate of the file is taken, in file order; a file without one is
/// refused.
pub fn import_cert(input: &[u8]) -> (chain: Result<CertificateChain, TlsError>)
    ensures
        chain_in(input@).len() == 0 ==> chain matches Err(TlsError::NoCertificatesFound),
        chain_in(input@).len() > 0 ==> chain is Ok && chain->Ok_0@ == chain_in(input@),
{
    select_certificates(read_blocks(input))
}

/// What `read` adds to the list of keys.
pub open spec fn key_part(read: ReadView) -> Seq<Seq<u8>> {
    match key_of(read) {
        Some(der) => seq![der],
        None => Seq::empty(),
    }
}

/// What `read` adds to the list of certificates.
pub open spec fn certificate_part(read: ReadView) -> Seq<Seq<u8>> {
    match certificate_of(read) {
        Some(der) => seq![der],
        None => Seq::empty(),
    }
}

/// A buffer with nothing in it gives no reads, no key and no certificate.
pub proof fn lemma_empty_input(input: Seq<u8>)
    requires
        input.len() == 0,
    ensures
        pem_reads(input).len() == 0,
        key_in(input) is None,
        chain_in(input).len() == 0,
{
}

/// The key of a buffer is the first in file order: where the read at `i` is
/// a key and no read before it is, the buffer gives the payload of that read,
/// whatever comes after it.
pub proof fn lemma_first_key_is_taken(input: Seq<u8>, i: int)
    requires
        0 <= i < pem_reads(input).len(),
        key_of(pem_reads(input)[i]) is Some,
        forall|j: int| 0 <= j < i ==> key_of(#[trigger] pem_reads(input)[j]) is None,
    ensures
        key_in(input) == Some(pem_reads(input)[i].der),
{
    let reads = pem_reads(input);
    let f = |read: ReadView| key_of(read);
    lemma_filter_map_none(reads.take(i), f);
    lemma_filter_map_first(reads, f, i);
}

/// Where exactly one read of a buffer is a key, that key is the only one
/// found and the one that the buffer gives.
pub proof fn lemma_only_key_is_taken(input: Seq<u8>, i: int)
    requires
        0 <= i < pem_reads(input).len(),
        key_of(pem_reads(input)[i]) is Some,
        forall|j: int|
            0 <= j < pem_reads(input).len() && j != i ==> key_of(#[trigger] pem_reads(input)[j])
                is None,
    ensures
        keys(pem_reads(input)) == seq![pem_reads(input)[i].der],
        key_in(input) == Some(pem_reads(input)[i].der),
{
    let reads = pem_reads(input);
    let f = |read: ReadView| key_of(read);
    lemma_filter_map_none(reads.take(i), f);
    lemma_filter_map_none(reads.skip(i + 1), f);
    lemma_keys_around(reads.take(i), reads[i], reads.skip(i + 1));
    assert(reads.take(i) + seq![reads[i]] + reads.skip(i + 1) == reads);
}

/// A buffer gives no key exactly when none of its reads is a key: a buffer of
/// certificates alone, for one, gives none.
pub proof fn lemma_no_key_found(input: Seq<u8>)
    ensures
        key_in(input) is None <==> forall|j: int|
            0 <= j < pem_reads(input).len() ==> key_of(#[trigger] pem_reads(input)[j]) is None,
{
    let reads = pem_reads(input);
    let f = |read: ReadView| key_of(read);
    if forall|j: int| 0 <= j < reads.len() ==> key_of(#[trigger] reads[j]) is None {
        lemma_filter_map_none(reads, f);
    } else {
        let j = choose|j: int| 0 <= j < reads.len() && key_of(#[trigger] reads[j]) is Some;
        lemma_keys_around(reads.take(j), reads[j], reads.skip(j + 1));
        assert(reads.take(j) + seq![reads[j]] + reads.skip(j + 1) == reads);
    }
}

/// The keys of a list of reads are those before any one read, then what that
/// read adds, then those after it.
pub proof fn lemma_keys_around(front: Seq<ReadView>, read: ReadView, back: Seq<ReadView>)
    ensures
        keys(front + seq![read] + back) == keys(front) + key_part(read) + keys(back),
{
    let f = |r: ReadView| key_of(r);
    lemma_filter_map_concat(front, seq![read], f);
    lemma_filter_map_concat(front + seq![read], back, f);
    Seq::lemma_filter_map_singleton(read, f);
}

/// The certificates of a list of reads are those before any one read, then
/// what that read adds, then those after it. So the chain keeps the order of
/// the file, holds each certificate once, and is the same with or without
/// the reads of other kinds that stand between the certificates.
pub proof fn lemma_certificates_around(front: Seq<ReadView>, read: ReadView, back: Seq<ReadView>)
    ensures
        certificates(front + seq![read] + back) == certificates(front) + certificate_part(read)
            + certificates(back),
{
    let f = |r: ReadView| certificate_of(r);
    lemma_filter_map_concat(front, seq![read], f);
    lemma_filter_map_concat(front + seq![read], back, f);
    Seq::lemma_filter_map_singleton(read, f);
}

/// Each certificate keeps its place: the certificate read at `i` stands in
/// the chain behind exactly the certificates that were read before it.
pub proof fn lemma_certificate_keeps_its_place(reads: Seq<ReadView>, i: int)
    requires
        0 <= i < reads.len(),
        certificate_of(reads[i]) is Some,
    ensures
        certificates(reads.take(i)).len() < certificates(reads).len(),
        certificates(reads)[certificates(reads.take(i)).len() as int] == reads[i].der,
        certificates(reads).take(certificates(reads.take(i)).len() as int) == certificates(
            reads.take(i),
        ),
{
    lemma_certificates_around(reads.take(i), reads[i], reads.skip(i + 1));
    assert(reads.take(i) + seq![reads[i]] + reads.skip(i + 1) == reads);
}

/// A buffer gives no certificate exactly when none of its reads is a
/// certificate: a buffer of keys alone, for one, gives none.
pub proof fn lemma_no_certificate_found(input: Seq<u8>)
    ensures
        chain_in(input).len() == 0 <==> forall|j: int|
            0 <= j < pem_reads(input).len() ==> certificate_of(#[trigger] pem_reads(input)[j])
                is None,
{
    let reads = pem_reads(input);
    let f = |read: ReadView| certificate_of(read);
    if forall|j: int| 0 <= j < reads.len() ==> certificate_of(#[trigger] reads[j]) is None {
        lemma_filter_map_none(reads, f);
    } else {
        let j = choose|j: int| 0 <= j < reads.len() && certificate_of(#[trigger] reads[j]) is Some;
        lemma_certificate_keeps_its_place(reads, j);
    }
}

/// The chain has as many entries as the list of reads has certificates.
pub proof fn lemma_certificates_count(reads: Seq<ReadView>)
    ensures
        certificates(reads).len() == reads.filter(
            |read: ReadView| certificate_of(read) is Some,
        ).len(),
    decreases reads.len(),
{
    reveal(Seq::filter);
    if reads.len() > 0 {
        lemma_certificates_count(reads.drop_last());
    }
}

} // verus!
