//! Reading PEM sections out of a byte buffer.
//!
//! The sections are decoded by `rustls_pemfile`; this module turns its
//! streaming reader into the full list of reads that a buffer gives.

use rustls_pemfile::Item;
use vstd::prelude::*;
use vstd::slice::slice_subrange;

verus! {

/// What a single read from a PEM buffer produced, without its payload.
#[derive(Clone, Copy, Debug, PartialEq, Eq, Structural)]
pub enum ReadKind {
    X509Certificate,
    RsaKey,
    Pkcs8Key,
    EcKey,
    Crl,
    /// A decoded section of a kind that has no variant here.
    Unrecognized,
    /// The reader reported an error instead of a section.
    Malformed,
    /// Nothing was left to read.
    End,
}

/// What a single read from a PEM buffer produced.
///
/// The first five variants carry the decoded (alleged DER) payload of a
/// section of that type.
#[derive(Debug, PartialEq, Eq)]
pub enum PemRead {
    X509Certificate(Vec<u8>),
    RsaKey(Vec<u8>),
    Pkcs8Key(Vec<u8>),
    EcKey(Vec<u8>),
    Crl(Vec<u8>),
    /// A decoded section of a kind that has no variant here.
    Unrecognized,
    /// The reader reported an error instead of a section.
    Malformed,
    /// Nothing was left to read.
    End,
}

/// The mathematical value of a [`PemRead`].
pub struct ReadView {
    pub kind: ReadKind,
    /// The payload; empty for the kinds that carry none.
    pub der: Seq<u8>,
}

impl View for PemRead {
    type V = ReadView;

    open spec fn view(&self) -> ReadView {
        match self {
            PemRead::X509Certificate(der) => ReadView { kind: ReadKind::X509Certificate, der: der@ },
            PemRead::RsaKey(der) => ReadView { kind: ReadKind::RsaKey, der: der@ },
            PemRead::Pkcs8Key(der) => ReadView { kind: ReadKind::Pkcs8Key, der: der@ },
            PemRead::EcKey(der) => ReadView { kind: ReadKind::EcKey, der: der@ },
            PemRead::Crl(der) => ReadView { kind: ReadKind::Crl, der: der@ },
            PemRead::Unrecognized => ReadView { kind: ReadKind::Unrecognized, der: Seq::empty() },
            PemRead::Malformed => ReadView { kind: ReadKind::Malformed, der: Seq::empty() },
            PemRead::End => ReadView { kind: ReadKind::End, der: Seq::empty() },
        }
    }
}

impl PemRead {
    /// The kind of this read.
    pub fn kind(&self) -> (kind: ReadKind)
        ensures
            kind == self@.kind,
    {
        match self {
            PemRead::X509Certificate(_) => ReadKind::X509Certificate,
            PemRead::RsaKey(_) => ReadKind::RsaKey,
            PemRead::Pkcs8Key(_) => ReadKind::Pkcs8Key,
            PemRead::EcKey(_) => ReadKind::EcKey,
            PemRead::Crl(_) => ReadKind::Crl,
            PemRead::Unrecognized => ReadKind::Unrecognized,
            PemRead::Malformed => ReadKind::Malformed,
            PemRead::End => ReadKind::End,
        }
    }
}

/// The result of `rustls_pemfile::read_one` on a reader over `input`:
/// what was read, and how many bytes of `input` the reader left unread.
pub uninterp spec fn pem_read_one(input: Seq<u8>) -> (ReadView, nat);

/// Calls `rustls_pemfile::read_one` on a reader over `input`.
///
/// Trusted: the pair returned is the one that [`pem_read_one`] names. The
/// reader only moves forward, so it leaves at most `input.len()` bytes; an
/// empty buffer gives `End`; and every other result comes after at least one
/// line was taken from the buffer, so it leaves fewer bytes than it was given.
#[verifier::external_body]
fn read_one(input: &[u8]) -> (r: (PemRead, usize))
    ensures
        (r.0@, r.1 as nat) == pem_read_one(input@),
        r.1 <= input@.len(),
        input@.len() == 0 ==> r.0@.kind == ReadKind::End,
        r.0@.kind != ReadKind::End ==> r.1 < input@.len(),
{
    let mut rest: &[u8] = input;
    let read = match rustls_pemfile::read_one(&mut rest) {
        Ok(Some(Item::X509Certificate(der))) => PemRead::X509Certificate(der),
        Ok(Some(Item::RSAKey(der))) => PemRead::RsaKey(der),
        Ok(Some(Item::PKCS8Key(der))) => PemRead::Pkcs8Key(der),
        Ok(Some(Item::ECKey(der))) => PemRead::EcKey(der),
        Ok(Some(Item::Crl(der))) => PemRead::Crl(der),
        Ok(Some(_)) => PemRead::Unrecognized,
        Ok(None) => PemRead::End,
        Err(_) => PemRead::Malformed,
    };
    (read, rest.len())
}

/// The values of a list of reads.
pub open spec fn views(reads: Seq<PemRead>) -> Seq<ReadView> {
    reads.map_values(|read: PemRead| read@)
}

/// The part of `input` that a read leaving `unread` bytes did not take.
pub open spec fn remainder(input: Seq<u8>, unread: nat) -> Seq<u8> {
    input.subrange(input.len() - unread, input.len() as int)
}

/// Every read that a buffer gives, in order, up to but not including the
/// read that finds nothing left.
///
/// Each read starts where the one before it stopped. Reads that report an
/// error are part of the list: the reader has moved past the offending lines
/// and goes on behind them.
pub open spec fn pem_reads(input: Seq<u8>) -> Seq<ReadView>
    decreases input.len(),
{
    let (read, unread) = pem_read_one(input);
    if read.kind == ReadKind::End || unread >= input.len() {
        Seq::empty()
    } else {
        seq![read] + pem_reads(remainder(input, unread))
    }
}

/// The list of reads holds sections and errors only: the read that finds
/// nothing left is not in it.
pub proof fn lemma_reads_stop_before_end(input: Seq<u8>, i: int)
    requires
        0 <= i < pem_reads(input).len(),
    ensures
        pem_reads(input)[i].kind != ReadKind::End,
    decreases input.len(),
{
    if i > 0 {
        let (_, unread) = pem_read_one(input);
        lemma_reads_stop_before_end(remainder(input, unread), i - 1);
    }
}

/// Reads `input` to its end and returns every read made on the way.
pub fn read_blocks(input: &[u8]) -> (reads: Vec<PemRead>)
    ensures
        views(reads@) == pem_reads(input@),
{
    let mut reads: Vec<PemRead> = Vec::new();
    let mut pos: usize = 0;
    proof {
        assert(input@.skip(0) == input@);
    }
    loop
        invariant
            pos <= input@.len(),
            pem_reads(input@) == views(reads@) + pem_reads(input@.skip(pos as int)),
        ensures
            views(reads@) == pem_reads(input@),
        decreases input@.len() - pos,
    {
        let rest = slice_subrange(input, pos, input.len());
        let (read, unread) = read_one(rest);
        assert(remainder(rest@, unread as nat) == input@.skip(input@.len() - unread));
        match read {
            PemRead::End => {
                break ;
            },
            _ => {
                pos = input.len() - unread;
                reads.push(read);
            },
        }
    }
    reads
}

} // verus!
