//! The TLS transport: certificates, private keys and host names.
use crate::config::TlsConfig;
use crate::helper;
use crate::helper::AddrError;
use crate::transport::pkcs12;
use crate::transport::pkcs12::{
    archive_readable, blobs, is_result, pkcs12_certs, pkcs12_keys, readable_form,
};
use tokio_rustls::rustls::pki_types::CertificateDer;
use tokio_rustls::rustls::RootCertStore;
use vstd::prelude::*;

verus! {

/// The store of root certificates of rustls.
#[verifier::external_type_specification]
#[verifier::external_body]
pub struct ExRootCertStore(tokio_rustls::rustls::RootCertStore);

/// The certificates of a PEM file, or what is wrong with it.
pub uninterp spec fn pem_certs(pem: Seq<u8>) -> Result<Seq<Seq<u8>>, Seq<char>>;

/// The trust anchors of those certificates that can be parsed as roots, in order, each as
/// its subject, its key and its name constraints in DER.
pub uninterp spec fn trust_anchors(certs: Seq<Seq<u8>>) -> Seq<Seq<u8>>;

/// The trust anchors that a store holds, in order, in the same form.
pub uninterp spec fn store_anchors(store: tokio_rustls::rustls::RootCertStore) -> Seq<Seq<u8>>;

/// `rustls_pemfile::certs`: the certificates of a PEM file, which depend on nothing but
/// its bytes, or the text of the first error.
#[verifier::external_body]
fn certs(pem: &[u8]) -> (r: Result<Vec<Vec<u8>>, String>)
    ensures
        is_result(r, pem_certs(pem@)),
{
    let mut reader = pem;
    let found: Result<Vec<_>, _> = rustls_pemfile::certs(&mut reader).collect();
    let found = found.map_err(|e| e.to_string())?;
    Ok(found.into_iter().map(|c| c.to_vec()).collect())
}

/// `RootCertStore::empty` and `RootCertStore::add_parsable_certificates`: the store holds the
/// trust anchors of those certificates that can be parsed as roots, and no others. How many
/// they are is returned too. The anchors depend on nothing but the certificates, of which
/// each gives at most one.
#[verifier::external_body]
fn add_parsable_certificates(certs: Vec<Vec<u8>>) -> (r: (RootCertStore, usize))
    ensures
        store_anchors(r.0) == trust_anchors(blobs(certs@)),
        r.1 == trust_anchors(blobs(certs@)).len(),
        r.1 <= certs@.len(),
{
    let mut store = RootCertStore::empty();
    let (added, _) = store.add_parsable_certificates(certs.into_iter().map(CertificateDer::from));
    (store, added)
}

/// Why a TLS transport cannot be set up.
#[derive(Debug, PartialEq, Eq)]
pub enum TlsError {
    MissingConfig,
    /// The archive or the PEM file is not what it should be.
    Malformed(String),
    /// The archive holds what cannot be read: an iteration count that no machine works off,
    /// or a length that overflows.
    Unreadable,
    /// The archive holds no private key.
    NoKey,
    /// The trusted root holds no certificate of use.
    NoTrustedRoot,
    /// The system has no certificate of use; what went wrong when they were loaded.
    NoNativeRoots(String),
}

impl TlsError {
    /// What the error says.
    pub open spec fn text(self) -> Seq<char> {
        match self {
            TlsError::MissingConfig => "Missing tls config"@,
            TlsError::Malformed(why) => why@,
            TlsError::Unreadable => "Unsupported archive in `tls.pkcs12`"@,
            TlsError::NoKey => "No private key in `tls.pkcs12`"@,
            TlsError::NoTrustedRoot => "No certificates in `tls.trusted_root`"@,
            TlsError::NoNativeRoots(errors) => "Failed to load native certs: "@ + errors@,
        }
    }

    /// What the error says.
    pub fn message(&self) -> (r: String)
        ensures
            r@ == self.text(),
    {
        let mut out = String::new();
        match self {
            TlsError::MissingConfig => out.push_str("Missing tls config"),
            TlsError::Malformed(why) => out.push_str(why.as_str()),
            TlsError::Unreadable => out.push_str("Unsupported archive in `tls.pkcs12`"),
            TlsError::NoKey => out.push_str("No private key in `tls.pkcs12`"),
            TlsError::NoTrustedRoot => out.push_str("No certificates in `tls.trusted_root`"),
            TlsError::NoNativeRoots(errors) => {
                out.push_str("Failed to load native certs: ");
                out.push_str(errors.as_str());
            },
        }
        proof {
            assert(out@ =~= self.text());
        }
        out
    }
}

/// The certificates and the private key of a server.
pub struct Identity {
    pub chain: Vec<Vec<u8>>,
    pub key: Vec<u8>,
}

/// What a server presents: all certificates of its archive, and the first private key.
pub open spec fn identity_of(
    certs: Result<Seq<Seq<u8>>, Seq<char>>,
    keys: Result<Seq<Seq<u8>>, Seq<char>>,
    r: Result<Identity, TlsError>,
) -> bool {
    match (certs, keys) {
        (Err(why), _) => r matches Err(TlsError::Malformed(text)) && text@ == why,
        (_, Err(why)) => r matches Err(TlsError::Malformed(text)) && text@ == why,
        (Ok(chain), Ok(found)) => if found.len() == 0 {
            r matches Err(TlsError::NoKey)
        } else {
            r matches Ok(identity) && blobs(identity.chain@) == chain && identity.key@ == found[0]
        },
    }
}

/// Picks what a server presents from what its archive holds.
pub fn pick_identity(certs: Result<Vec<Vec<u8>>, String>, keys: Result<Vec<Vec<u8>>, String>) -> (r:
    Result<Identity, TlsError>)
    ensures
        forall|c: Result<Seq<Seq<u8>>, Seq<char>>, k: Result<Seq<Seq<u8>>, Seq<char>>|
            is_result(certs, c) && is_result(keys, k) ==> identity_of(c, k, r),
{
    let chain = match certs {
        Ok(chain) => chain,
        Err(why) => return Err(TlsError::Malformed(why)),
    };
    let mut keys = match keys {
        Ok(keys) => keys,
        Err(why) => return Err(TlsError::Malformed(why)),
    };
    if keys.len() == 0 {
        return Err(TlsError::NoKey);
    }
    let key = keys.remove(0);
    Ok(Identity { chain, key })
}

/// Loads what a server presents from a PKCS #12 archive.
pub fn load_server_config(archive: &[u8], password: &str) -> (r: Result<Identity, TlsError>)
    ensures
        if archive_readable(archive@, password@) {
            let form = readable_form(archive@, password@);
            identity_of(pkcs12_certs(form, password@), pkcs12_keys(form, password@), r)
        } else {
            r matches Err(TlsError::Unreadable)
        },
{
    let form = match pkcs12::open_archive(archive, password) {
        Some(form) => form,
        None => return Err(TlsError::Unreadable),
    };
    let certs = pkcs12::cert_bags(form.as_slice(), password);
    let keys = pkcs12::key_bags(form.as_slice(), password);
    pick_identity(certs, keys)
}

/// Whether a client can go on with the roots that it found.
pub fn roots_usable(found: usize, added: usize) -> (r: bool)
    ensures
        r == (found > 0 && added > 0),
{
    found > 0 && added > 0
}

/// Loads the roots that a client trusts from a PEM file.
pub fn load_client_config(pem: &[u8]) -> (r: Result<RootCertStore, TlsError>)
    ensures
        match pem_certs(pem@) {
            Err(why) => r matches Err(TlsError::Malformed(text)) && text@ == why,
            Ok(found) => if trust_anchors(found).len() > 0 {
                r matches Ok(store) && store_anchors(store) == trust_anchors(found)
            } else {
                r matches Err(TlsError::NoTrustedRoot)
            },
        },
{
    let found = match certs(pem) {
        Ok(found) => found,
        Err(why) => return Err(TlsError::Malformed(why)),
    };
    let count: usize = found.len();
    let (store, added) = add_parsable_certificates(found);
    if roots_usable(count, added) {
        Ok(store)
    } else {
        Err(TlsError::NoTrustedRoot)
    }
}

/// Takes the roots of the system, where no PEM file is configured.
pub fn load_native_roots(found: Vec<Vec<u8>>, errors: String) -> (r: Result<
    RootCertStore,
    TlsError,
>)
    ensures
        if trust_anchors(blobs(found@)).len() > 0 {
            r matches Ok(store) && store_anchors(store) == trust_anchors(blobs(found@))
        } else {
            r == Err::<RootCertStore, TlsError>(TlsError::NoNativeRoots(errors))
        },
{
    let count: usize = found.len();
    let (store, added) = add_parsable_certificates(found);
    if roots_usable(count, added) {
        Ok(store)
    } else {
        Err(TlsError::NoNativeRoots(errors))
    }
}

/// The name that the server's certificate must hold: the configured one, or else the host
/// of the address. The address must be one in either case.
pub fn server_name(config: &TlsConfig, addr: &str) -> (r: Result<String, AddrError>)
    ensures
        match helper::address_parts(addr@) {
            Err(e) => r == Err::<String, AddrError>(e),
            Ok((host, _)) => r matches Ok(name) && name@ == (match config.hostname {
                Some(hostname) => hostname@,
                None => host,
            }),
        },
{
    let (host, _) = match helper::host_port_pair(addr) {
        Ok(parts) => parts,
        Err(e) => return Err(e),
    };
    match &config.hostname {
        Some(hostname) => Ok(hostname.clone()),
        None => Ok(host),
    }
}

/// The name that the certificate of a server must hold is the configured one, and else the host
/// of the address, whatever the port is.
pub proof fn law_the_certificate_names_the_server(
    config: &TlsConfig,
    addr: &str,
    host: Seq<char>,
    port: u16,
    r: Result<String, AddrError>,
)
    requires
        addr@ == host + seq![':'] + crate::text::decimal(port as nat),
        call_ensures(server_name, (config, addr), r),
    ensures
        r matches Ok(name) && (match config.hostname {
            Some(hostname) => name@ == hostname@,
            None => name@ == host,
        }),
{
    let digits = crate::text::decimal(port as nat);
    helper::lemma_port_digits(port);
    helper::lemma_last_colon_before(host, digits);
    assert(addr@.skip(host.len() as int + 1) =~= digits);
    assert(addr@.take(host.len() as int) =~= host);
}

/// A server presents everything that its archive holds: all certificates, in order, and the
/// first key. What is wrong with the certificates comes before what is wrong with the keys.
pub proof fn law_an_identity_is_all_certificates_and_the_first_key(
    certs: Result<Vec<Vec<u8>>, String>,
    keys: Result<Vec<Vec<u8>>, String>,
    r: Result<Identity, TlsError>,
)
    requires
        call_ensures(pick_identity, (certs, keys), r),
    ensures
        match (certs, keys) {
            (Err(why), _) => r matches Err(TlsError::Malformed(text)) && text@ == why@,
            (Ok(_), Err(why)) => r matches Err(TlsError::Malformed(text)) && text@ == why@,
            (Ok(chain), Ok(found)) => if found@.len() == 0 {
                r matches Err(TlsError::NoKey)
            } else {
                r matches Ok(identity) && identity.key@ == found@[0]@ && identity.chain@.len()
                    == chain@.len() && forall|i: int|
                    0 <= i < chain@.len() ==> (#[trigger] identity.chain@[i])@ == chain@[i]@
            },
        },
{
    let c = match certs {
        Ok(chain) => Ok::<Seq<Seq<u8>>, Seq<char>>(blobs(chain@)),
        Err(why) => Err(why@),
    };
    let k = match keys {
        Ok(found) => Ok::<Seq<Seq<u8>>, Seq<char>>(blobs(found@)),
        Err(why) => Err(why@),
    };
    assert(is_result(certs, c) && is_result(keys, k));
    assert(identity_of(c, k, r));
    if let (Ok(chain), Ok(found), Ok(identity)) = (certs, keys, r) {
        assert(blobs(identity.chain@) == blobs(chain@));
        assert(blobs(identity.chain@).len() == identity.chain@.len());
        assert(blobs(chain@).len() == chain@.len());
        assert forall|i: int| 0 <= i < chain@.len() implies (#[trigger] identity.chain@[i])@
            == chain@[i]@ by {
            assert(blobs(identity.chain@)[i] == identity.chain@[i]@);
            assert(blobs(chain@)[i] == chain@[i]@);
        }
    }
}

} // verus!
