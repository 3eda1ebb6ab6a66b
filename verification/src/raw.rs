//! What can go wrong on the wire, how it is said, and which certificates are
//! trusted.

use tokio_rustls::rustls::pki_types::pem::PemObject;
use tokio_rustls::rustls::pki_types::{CertificateDer, ServerName};
use tokio_rustls::rustls::RootCertStore;
use vstd::prelude::*;
use vstd::string::*;

use crate::text;
use crate::text::line;
use crate::wire;

verus! {

/// How long a check waits for the subject to produce a frame, in
/// nanoseconds.
pub const READ_TIMEOUT: u64 = 5_000_000_000;

/// Errors while exchanging frames with the subject.
#[derive(Debug)]
pub enum WireError {
    Io(String),
    Encode(String),
    Timeout,
    BadFrameLength(i32),
    Tls(String),
}

impl WireError {
    pub open spec fn spec_text(self) -> Seq<char> {
        match self {
            WireError::Io(e) => "i/o error: "@ + e@,
            WireError::Encode(e) => "encode error: "@ + e@,
            WireError::Timeout => "timed out after "@ + text::duration_text(READ_TIMEOUT)
                + " waiting for a response frame"@,
            WireError::BadFrameLength(n) => "frame length "@ + text::dec(n as int)
                + " out of range"@,
            WireError::Tls(e) => "tls: "@ + e@,
        }
    }

    /// The error as a reader sees it.
    pub fn text(&self) -> (r: String)
        ensures
            r@ == self.spec_text(),
    {
        match self {
            WireError::Io(e) => line("i/o error: ").lit(e.as_str()).done(),
            WireError::Encode(e) => line("encode error: ").lit(e.as_str()).done(),
            WireError::Timeout => line("timed out after ").wait(READ_TIMEOUT).lit(
                " waiting for a response frame",
            ).done(),
            WireError::BadFrameLength(n) => line("frame length ").num(*n as i64).lit(
                " out of range",
            ).done(),
            WireError::Tls(e) => line("tls: ").lit(e.as_str()).done(),
        }
    }
}

/// The certificates of a PEM text before the first section that does not read,
/// and what is wrong with that section, if there is one.
pub uninterp spec fn pem_sections(pem: Seq<u8>) -> (Seq<Seq<u8>>, Option<Seq<char>>);

/// Why a certificate is refused as a trust anchor, if it is.
pub uninterp spec fn anchor_fault(der: Seq<u8>) -> Option<Seq<char>>;

/// Why a text names no server, if it does not.
pub uninterp spec fn server_name_fault(name: Seq<char>) -> Option<Seq<char>>;

/// Byte strings by their bytes.
pub open spec fn byte_views(items: Seq<Vec<u8>>) -> Seq<Seq<u8>> {
    items.map_values(|item: Vec<u8>| item@)
}

/// `CertificateDer::pem_slice_iter` of rustls-pki-types, walked up to the
/// first section that it cannot read: the certificates it gave, and that
/// section's error as `Display` writes it. Both go by the bytes alone; which
/// they are is the name `pem_sections`, and nothing more is claimed of it.
#[verifier::external_body]
fn read_pem(pem: &[u8]) -> (r: (Vec<Vec<u8>>, Option<String>))
    ensures
        (byte_views(r.0@), wire::opt_view(r.1)) == pem_sections(pem@),
{
    let mut read: Vec<Vec<u8>> = Vec::new();
    for section in CertificateDer::pem_slice_iter(pem) {
        match section {
            Ok(der) => read.push(der.to_vec()),
            Err(e) => return (read, Some(e.to_string())),
        }
    }
    (read, None)
}

/// `RootCertStore::add` of rustls on an empty store: its error as `Display`
/// writes it, or nothing where it took the certificate. Whether it does goes
/// by the certificate alone, whatever the store holds; the outcome is the name
/// `anchor_fault`, and nothing more is claimed of it.
#[verifier::external_body]
fn refuse_anchor(der: &Vec<u8>) -> (r: Option<String>)
    ensures
        wire::opt_view(r) == anchor_fault(der@),
{
    match RootCertStore::empty().add(CertificateDer::from(der.as_slice())) {
        Ok(()) => None,
        Err(e) => Some(e.to_string()),
    }
}

/// `ServerName::try_from` of rustls-pki-types on a text: its error as `Display`
/// writes it, or nothing where it read a name. The outcome is the name
/// `server_name_fault`, and nothing more is claimed of it.
#[verifier::external_body]
fn refuse_name(name: &str) -> (r: Option<String>)
    ensures
        wire::opt_view(r) == server_name_fault(name@),
{
    match ServerName::try_from(name) {
        Ok(_) => None,
        Err(e) => Some(e.to_string()),
    }
}

/// Why the first certificate that is refused is refused.
pub open spec fn first_refusal(certificates: Seq<Seq<u8>>) -> Option<Seq<char>>
    decreases certificates.len(),
{
    if certificates.len() == 0 {
        None
    } else if anchor_fault(certificates[0]) is Some {
        anchor_fault(certificates[0])
    } else {
        first_refusal(certificates.skip(1))
    }
}

fn refuse_first(certificates: &Vec<Vec<u8>>) -> (r: Option<String>)
    ensures
        wire::opt_view(r) == first_refusal(byte_views(certificates@)),
{
    let ghost all = byte_views(certificates@);
    assert(all.skip(0) =~= all);
    let mut i: usize = 0;
    while i < certificates.len()
        invariant
            i <= certificates@.len(),
            all == byte_views(certificates@),
            first_refusal(all) == first_refusal(all.skip(i as int)),
        decreases certificates@.len() - i,
    {
        assert(all.skip(i as int)[0] == certificates@[i as int]@);
        assert(all.skip(i as int).skip(1) =~= all.skip(i + 1));
        let fault = refuse_anchor(&certificates[i]);
        if fault.is_some() {
            return fault;
        }
        i = i + 1;
    }
    None
}

/// Which certificates are trusted, by what was read of the PEM text, why the
/// first refused certificate was refused and why the name names no server:
/// the faults in that order, and all the certificates where there is none.
pub open spec fn spec_settle_trust(
    certificates: Seq<Seq<u8>>,
    unread: Option<Seq<char>>,
    refused: Option<Seq<char>>,
    unnamed: Option<Seq<char>>,
) -> Result<Seq<Seq<u8>>, Seq<char>> {
    if refused is Some {
        Err("bad ca certificate: "@ + refused->Some_0)
    } else if unread is Some {
        Err("bad ca pem: "@ + unread->Some_0)
    } else if certificates.len() == 0 {
        Err("ca pem holds no certificates"@)
    } else if unnamed is Some {
        Err("bad server name: "@ + unnamed->Some_0)
    } else {
        Ok(certificates)
    }
}

/// The trusted certificates by their bytes, or what the error says.
pub open spec fn trusted_view(r: Result<Vec<Vec<u8>>, WireError>) -> Result<
    Seq<Seq<u8>>,
    Seq<char>,
> {
    match r {
        Ok(certificates) => Ok(byte_views(certificates@)),
        Err(WireError::Tls(e)) => Err(e@),
        Err(e) => Err(e.spec_text()),
    }
}

/// Settles which certificates are trusted. A refused certificate comes before
/// the section that does not read, since only the ones before it were read.
pub fn settle_trust(
    certificates: Vec<Vec<u8>>,
    unread: Option<String>,
    refused: Option<String>,
    unnamed: Option<String>,
) -> (r: Result<Vec<Vec<u8>>, WireError>)
    ensures
        r matches Err(e) ==> e is Tls,
        trusted_view(r) == spec_settle_trust(
            byte_views(certificates@),
            wire::opt_view(unread),
            wire::opt_view(refused),
            wire::opt_view(unnamed),
        ),
{
    if let Some(e) = refused {
        return Err(WireError::Tls(line("bad ca certificate: ").lit(e.as_str()).done()));
    }
    if let Some(e) = unread {
        return Err(WireError::Tls(line("bad ca pem: ").lit(e.as_str()).done()));
    }
    if certificates.len() == 0 {
        return Err(WireError::Tls(String::from_str("ca pem holds no certificates")));
    }
    if let Some(e) = unnamed {
        return Err(WireError::Tls(line("bad server name: ").lit(e.as_str()).done()));
    }
    Ok(certificates)
}

/// Which certificates are trusted, by what was read of the PEM text.
pub open spec fn spec_trusted(
    certificates: Seq<Seq<u8>>,
    unread: Option<Seq<char>>,
    server_name: Seq<char>,
) -> Result<Seq<Seq<u8>>, Seq<char>> {
    spec_settle_trust(
        certificates,
        unread,
        first_refusal(certificates),
        server_name_fault(server_name),
    )
}

/// The certificates to trust, and no others, for a broker that is held to
/// `server_name`.
pub fn trusted(ca_pem: &[u8], server_name: &str) -> (r: Result<Vec<Vec<u8>>, WireError>)
    ensures
        r matches Err(e) ==> e is Tls,
        trusted_view(r) == spec_trusted(
            pem_sections(ca_pem@).0,
            pem_sections(ca_pem@).1,
            server_name@,
        ),
{
    let (certificates, unread) = read_pem(ca_pem);
    let refused = refuse_first(&certificates);
    settle_trust(certificates, unread, refused, refuse_name(server_name))
}

/// What the suite trusts, and the name it holds a broker to.
pub struct TlsTrust {
    /// The trusted certificates, DER-encoded: these, and not the system's
    /// roots as well.
    pub certificates: Vec<Vec<u8>>,
    pub server_name: String,
}

impl TlsTrust {
    /// Trusts exactly the certificates in `ca_pem`, and requires the broker to
    /// present one valid for `server_name`.
    pub fn from_ca_pem(ca_pem: &[u8], server_name: &str) -> (r: Result<TlsTrust, WireError>)
        ensures
            r matches Ok(trust) ==> trust.server_name@ == server_name@,
            r matches Err(e) ==> e is Tls,
            (match r {
                Ok(trust) => Ok::<Seq<Seq<u8>>, Seq<char>>(byte_views(trust.certificates@)),
                Err(WireError::Tls(e)) => Err::<Seq<Seq<u8>>, Seq<char>>(e@),
                Err(e) => Err::<Seq<Seq<u8>>, Seq<char>>(e.spec_text()),
            }) == spec_trusted(pem_sections(ca_pem@).0, pem_sections(ca_pem@).1, server_name@),
    {
        match trusted(ca_pem, server_name) {
            Ok(certificates) => Ok(
                TlsTrust { certificates, server_name: String::from_str(server_name) },
            ),
            Err(e) => Err(e),
        }
    }
}

proof fn lemma_none_refused(certificates: Seq<Seq<u8>>, i: int)
    requires
        first_refusal(certificates) is None,
        0 <= i < certificates.len(),
    ensures
        anchor_fault(certificates[i]) is None,
    decreases certificates.len(),
{
    if i > 0 {
        lemma_none_refused(certificates.skip(1), i - 1);
        assert(certificates.skip(1)[i - 1] == certificates[i]);
    }
}

/// Trust is granted to exactly the certificates of the PEM text, and only
/// where it reads to its end, holds at least one, each can be trusted and the
/// name names a server.
pub proof fn law_exactly_those_are_trusted(pem: Seq<u8>, server_name: Seq<char>)
    ensures
        ({
            let (certificates, unread) = pem_sections(pem);
            let sound = {
                &&& unread is None
                &&& certificates.len() > 0
                &&& forall|i: int|
                    0 <= i < certificates.len() ==> anchor_fault(#[trigger] certificates[i]) is None
                &&& server_name_fault(server_name) is None
            };
            &&& sound ==> spec_trusted(certificates, unread, server_name) == Ok::<
                Seq<Seq<u8>>,
                Seq<char>,
            >(certificates)
            &&& !sound ==> spec_trusted(certificates, unread, server_name) is Err
        }),
{
    let (certificates, unread) = pem_sections(pem);
    if first_refusal(certificates) is None {
        assert forall|i: int| 0 <= i < certificates.len() implies anchor_fault(
            #[trigger] certificates[i],
        ) is None by {
            lemma_none_refused(certificates, i);
        }
    } else {
        lemma_some_refused(certificates);
    }
}

proof fn lemma_some_refused(certificates: Seq<Seq<u8>>)
    requires
        first_refusal(certificates) is Some,
    ensures
        exists|i: int|
            0 <= i < certificates.len() && anchor_fault(#[trigger] certificates[i]) is Some,
    decreases certificates.len(),
{
    if certificates.len() > 0 && anchor_fault(certificates[0]) is None {
        let rest = certificates.skip(1);
        lemma_some_refused(rest);
        let i = choose|i: int| 0 <= i < rest.len() && anchor_fault(#[trigger] rest[i]) is Some;
        assert(certificates[i + 1] == rest[i]);
    }
}

} // verus!
