//! The certificate authority: owns the root key and certificate material,
//! loads it from persisted bytes or has it regenerated, and issues per-host
//! leaf certificates up to a fixed issuance cap.
//!
//! The cryptography itself is done by outside code behind the trusted items
//! below; everything decided here — when material counts as loadable, when
//! regeneration is attempted, when issuance is refused — is verified.

use vstd::prelude::*;
use rcgen::KeyUsagePurpose;
use crate::strutil::{spec_join, path_join};

verus! {

/// What rustls_pemfile::pkcs8_private_keys extracts from the given bytes: the
/// DER contents of each PKCS8 private-key section, or nothing where the input
/// is malformed. A parse is a function of the bytes alone.
pub uninterp spec fn pkcs8_keys_of(b: Seq<u8>) -> Option<Seq<Seq<u8>>>;

/// What rustls_pemfile::certs extracts from the given bytes: the DER contents
/// of each certificate section, or nothing where the input is malformed.
pub uninterp spec fn certs_of(b: Seq<u8>) -> Option<Seq<Seq<u8>>>;

/// Relies on rustls_pemfile::pkcs8_private_keys: extracts the DER bytes of
/// every PKCS8-encoded private key in its input, skipping other sections, and
/// fails only on malformed input.
#[verifier::external_body]
fn parse_pkcs8_keys(pem: &Vec<u8>) -> (r: Option<Vec<Vec<u8>>>)
    ensures
        r is Some <==> pkcs8_keys_of(pem@) is Some,
        r matches Some(v) ==> Some(v.deep_view()) == pkcs8_keys_of(pem@),
{
    rustls_pemfile::pkcs8_private_keys(&mut pem.as_slice()).ok()
}

/// Relies on rustls_pemfile::certs: extracts the DER bytes of every
/// certificate section in its input, skipping other sections, and fails only
/// on malformed input.
#[verifier::external_body]
fn parse_certs(pem: &Vec<u8>) -> (r: Option<Vec<Vec<u8>>>)
    ensures
        r is Some <==> certs_of(pem@) is Some,
        r matches Some(v) ==> Some(v.deep_view()) == certs_of(pem@),
{
    rustls_pemfile::certs(&mut pem.as_slice()).ok()
}

/// Relies on rcgen: KeyPair::generate, CertificateParams::self_signed,
/// Certificate::pem and KeyPair::serialize_pem. Generates a self-signed CA
/// certificate with the given distinguished-name fields, CA basic constraints
/// and the digital-signature, key-cert-sign and CRL-sign key usages. The key
/// pair is freshly generated, so nothing relates two calls; every outcome is
/// a pair of nonempty PEM texts (certificate, then private key), as bytes.
#[verifier::external_body]
fn rcgen_self_signed_ca(cn: &str, org: &str, country: &str, locality: &str) -> (r: Option<
    (Vec<u8>, Vec<u8>),
>)
    ensures
        r matches Some(p) ==> p.0@.len() > 0 && p.1@.len() > 0,
{
    let key_pair = rcgen::KeyPair::generate().ok()?;
    let mut params = rcgen::CertificateParams::default();
    let mut dn = rcgen::DistinguishedName::new();
    dn.push(rcgen::DnType::CommonName, cn);
    dn.push(rcgen::DnType::OrganizationName, org);
    dn.push(rcgen::DnType::CountryName, country);
    dn.push(rcgen::DnType::LocalityName, locality);
    params.distinguished_name = dn;
    params.is_ca = rcgen::IsCa::Ca(rcgen::BasicConstraints::Unconstrained);
    params.key_usages = vec![KeyUsagePurpose::DigitalSignature, KeyUsagePurpose::KeyCertSign, KeyUsagePurpose::CrlSign];
    let cert = params.self_signed(&key_pair).ok()?;
    Some((cert.pem().into_bytes(), key_pair.serialize_pem().into_bytes()))
}

/// Relies on rcgen: KeyPair::from_pem, CertificateParams::from_ca_cert_pem,
/// CertificateParams::new and signed_by, and Certificate::pem. Issues a
/// certificate naming the given host, signed with the given CA material;
/// fails where the material does not parse or signing fails. Nothing beyond a
/// nonempty PEM text is relied on.
#[verifier::external_body]
fn rcgen_issue_leaf(host: &str, ca_key_pem: &Vec<u8>, ca_cert_pem: &Vec<u8>) -> (r: Option<String>)
    ensures
        r matches Some(p) ==> p@.len() > 0,
{
    let ca_key = rcgen::KeyPair::from_pem(core::str::from_utf8(ca_key_pem).ok()?).ok()?;
    let ca_params = rcgen::CertificateParams::from_ca_cert_pem(
        core::str::from_utf8(ca_cert_pem).ok()?,
    ).ok()?;
    let ca_cert = ca_params.self_signed(&ca_key).ok()?;
    let mut params = rcgen::CertificateParams::new(vec![host.to_string()]).ok()?;
    let mut dn = rcgen::DistinguishedName::new();
    dn.push(rcgen::DnType::CommonName, host);
    params.distinguished_name = dn;
    let leaf = params.signed_by(&ca_key, &ca_cert, &ca_key).ok()?;
    Some(leaf.pem())
}

/// Root material is loadable when the key bytes hold at least one PKCS8
/// private key and the certificate bytes at least one certificate.
pub open spec fn spec_material_ok(key: Seq<u8>, cert: Seq<u8>) -> bool {
    &&& pkcs8_keys_of(key) matches Some(ks) && ks.len() > 0
    &&& certs_of(cert) matches Some(cs) && cs.len() > 0
}

/// Runtime check that persisted root material can back the authority.
pub fn material_ok(key: &Vec<u8>, cert: &Vec<u8>) -> (r: bool)
    ensures
        r == spec_material_ok(key@, cert@),
{
    let keys = parse_pkcs8_keys(key);
    let certs = parse_certs(cert);
    match (keys, certs) {
        (Some(ks), Some(cs)) => ks.len() > 0 && cs.len() > 0,
        _ => false,
    }
}

/// A certificate issued for one host, signed by the root.
pub struct LeafCertificate {
    /// The host this leaf impersonates; its subject is bound to it.
    pub host: String,
    /// The certificate, as PEM text.
    pub cert_pem: String,
}

/// Why a leaf certificate was not issued.
#[derive(Debug)]
pub enum IssueError {
    /// The issuance cap is reached; interception of new hosts is refused, the
    /// proxy keeps running.
    Exhausted,
    /// The signing operation itself failed.
    Generation,
}

/// The root certificate authority: loadable material plus the issuance
/// counter and its cap.
pub struct CertificateAuthority {
    key_pem: Vec<u8>,
    cert_pem: Vec<u8>,
    issued: u64,
    cap: u64,
}

impl CertificateAuthority {
    /// The root private-key material, as persisted bytes.
    pub closed spec fn key_pem_spec(&self) -> Seq<u8> {
        self.key_pem@
    }

    /// The root certificate material, as persisted bytes.
    pub closed spec fn cert_pem_spec(&self) -> Seq<u8> {
        self.cert_pem@
    }

    /// How many leaf certificates have been issued.
    pub closed spec fn issued_spec(&self) -> u64 {
        self.issued
    }

    /// The issuance cap the authority was created with. There is no reset or
    /// eviction: a long-lived instance that reaches the cap refuses
    /// interception for new hosts from then on. This mirrors the fixed cap of
    /// the surrounding application and is a documented limitation.
    pub closed spec fn cap_spec(&self) -> u64 {
        self.cap
    }

    /// An authority over the given material, with nothing issued yet.
    pub fn new(key_pem: Vec<u8>, cert_pem: Vec<u8>, cap: u64) -> (r: Self)
        ensures
            r.key_pem_spec() == key_pem@,
            r.cert_pem_spec() == cert_pem@,
            r.issued_spec() == 0,
            r.cap_spec() == cap,
    {
        CertificateAuthority { key_pem, cert_pem, issued: 0, cap }
    }

    /// Issue a short-lived certificate bound to `host`, signed by the root.
    /// Refused — not crashed — once the cap is reached; the material and the
    /// cap never change, and the counter moves only on success.
    pub fn issue_leaf(&mut self, host: &str) -> (r: Result<LeafCertificate, IssueError>)
        ensures
            final(self).key_pem_spec() == old(self).key_pem_spec(),
            final(self).cert_pem_spec() == old(self).cert_pem_spec(),
            final(self).cap_spec() == old(self).cap_spec(),
            r == Err::<LeafCertificate, IssueError>(IssueError::Exhausted) <==> old(
                self,
            ).issued_spec() >= old(self).cap_spec(),
            r matches Ok(leaf) ==> {
                &&& final(self).issued_spec() == old(self).issued_spec() + 1
                &&& leaf.host@ == host@
                &&& leaf.cert_pem@.len() > 0
            },
            r is Err ==> final(self).issued_spec() == old(self).issued_spec(),
            old(self).issued_spec() < old(self).cap_spec() ==> (r is Ok || r == Err::<
                LeafCertificate,
                IssueError,
            >(IssueError::Generation)),
    {
        if self.issued >= self.cap {
            return Err(IssueError::Exhausted);
        }
        match rcgen_issue_leaf(host, &self.key_pem, &self.cert_pem) {
            Some(pem) => {
                self.issued = self.issued + 1;
                Ok(LeafCertificate { host: String::from_str(host), cert_pem: pem })
            },
            None => Err(IssueError::Generation),
        }
    }
}

/// What the loader decides after one read of the persisted material.
pub enum CaLoadOutcome {
    /// The material is loadable: the authority, ready to issue.
    Ready(CertificateAuthority),
    /// Something was missing or unparsable on the first attempt: regenerate
    /// both files, persist them, and retry the read.
    Regenerate,
    /// The retry after regeneration still failed: the proxy cannot run
    /// without a trusted root, a fatal startup condition.
    Fatal,
}

/// The material read from disk is present and loadable.
pub open spec fn spec_loadable(key: Option<Vec<u8>>, cert: Option<Vec<u8>>) -> bool {
    &&& key matches Some(k) && spec_material_ok(k@, cert.unwrap()@)
    &&& cert is Some
}

/// One step of loading the root CA at startup. `key` and `cert` are the two
/// files' contents as read, `None` where a file was missing or unreadable;
/// `already_regenerated` says whether this read is the retry after a
/// regeneration.
pub fn ca_load_step(
    already_regenerated: bool,
    key: Option<Vec<u8>>,
    cert: Option<Vec<u8>>,
    cap: u64,
) -> (r: CaLoadOutcome)
    ensures
        spec_loadable(key, cert) ==> (r matches CaLoadOutcome::Ready(ca) && {
            &&& ca.key_pem_spec() == key.unwrap()@
            &&& ca.cert_pem_spec() == cert.unwrap()@
            &&& ca.issued_spec() == 0
            &&& ca.cap_spec() == cap
        }),
        !spec_loadable(key, cert) && !already_regenerated ==> r is Regenerate,
        !spec_loadable(key, cert) && already_regenerated ==> r is Fatal,
{
    match (key, cert) {
        (Some(k), Some(c)) => {
            if material_ok(&k, &c) {
                return CaLoadOutcome::Ready(CertificateAuthority::new(k, c, cap));
            }
            if already_regenerated {
                CaLoadOutcome::Fatal
            } else {
                CaLoadOutcome::Regenerate
            }
        },
        _ => {
            if already_regenerated {
                CaLoadOutcome::Fatal
            } else {
                CaLoadOutcome::Regenerate
            }
        },
    }
}

/// The two files the root material persists in, under the given home: the
/// private-key file and the certificate file in the proxy's data directory.
pub fn ca_paths(home: &str) -> (r: (String, String))
    ensures
        r.0@ == spec_join(
            spec_join(spec_join(spec_join(home@, ".local/share"@), "anime-games-proxy"@), "ca"@),
            "private.key"@,
        ),
        r.1@ == spec_join(
            spec_join(spec_join(spec_join(home@, ".local/share"@), "anime-games-proxy"@), "ca"@),
            "cert.crt"@,
        ),
{
    let data = path_join(home, ".local/share");
    let base = path_join(data.as_str(), "anime-games-proxy");
    let dir = path_join(base.as_str(), "ca");
    (path_join(dir.as_str(), "private.key"), path_join(dir.as_str(), "cert.crt"))
}

/// Fresh self-signed root material: the fixed identity of this proxy as the
/// subject, CA key usages set. Returns the key bytes and the certificate
/// bytes to persist, or nothing where generation failed.
pub fn generate_ca_material() -> (r: Option<(Vec<u8>, Vec<u8>)>)
    ensures
        r matches Some(p) ==> p.0@.len() > 0 && p.1@.len() > 0,
{
    match rcgen_self_signed_ca("AnimeGamesProxy", "AnimeGames", "US", "Local") {
        Some((cert, key)) => Some((key, cert)),
        None => None,
    }
}

} // verus!
