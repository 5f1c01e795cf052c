//! rustls client configuration: the client certificate (signed by the portal
//! CA), and server verification against the public webpki roots and the portal
//! CA.
//!
//! The server side of the trust is deliberately not pinned to the portal CA
//! alone: the agents vhost terminates TLS with an ACME certificate (a public
//! DNS identity), while the mTLS guarantee lives in the other direction, where
//! the client certificate is verified against the portal CA.
use rustls::pki_types::{CertificateDer, PrivateKeyDer, TrustAnchor};
use rustls::{ClientConfig, RootCertStore};
use std::sync::Arc;
use vstd::prelude::*;

verus! {

/// A certificate authority that a server certificate may be traced to.
#[verifier::external_type_specification]
#[verifier::external_body]
pub struct ExTrustAnchor<'a>(TrustAnchor<'a>);

/// A list of trust anchors.
#[verifier::external_type_specification]
#[verifier::external_body]
pub struct ExRootCertStore(RootCertStore);

/// A private key.
#[verifier::external_type_specification]
#[verifier::external_body]
pub struct ExPrivateKeyDer<'a>(PrivateKeyDer<'a>);

/// The configuration of a TLS client.
#[verifier::external_type_specification]
#[verifier::external_body]
pub struct ExClientConfig(ClientConfig);

/// The error of rustls.
#[verifier::external_type_specification]
#[verifier::external_body]
pub struct ExTlsError(rustls::Error);

/// The error of an input or output operation, here one on bytes in memory.
#[verifier::external_type_specification]
#[verifier::external_body]
pub struct ExIoError(std::io::Error);

/// The certificates in a PEM file, in order: what each decodes to, or nothing
/// where a section cannot be read.
pub uninterp spec fn pem_certificates(pem: Seq<u8>) -> Seq<Option<Seq<u8>>>;

/// The first private key in a PEM file, if there is one; an error where a
/// section before it cannot be read.
pub uninterp spec fn pem_private_key(pem: Seq<u8>) -> Result<Option<PrivateKeyDer<'static>>, ()>;

/// The trust anchor that a certificate makes, where it can be one.
pub uninterp spec fn trust_anchor(der: Seq<u8>) -> Option<TrustAnchor<'static>>;

/// The trust anchors in a store, in order.
pub uninterp spec fn anchors(store: RootCertStore) -> Seq<TrustAnchor<'static>>;

/// Tells whether these are the public roots that `webpki_roots` lists.
pub uninterp spec fn are_public_roots(roots: Seq<TrustAnchor<'static>>) -> bool;

/// The client configuration that trusts these anchors and shows this chain of
/// certificates with this key; nothing where the key cannot be used or does
/// not match the chain.
pub uninterp spec fn configuration(
    roots: Seq<TrustAnchor<'static>>,
    chain: Seq<Seq<u8>>,
    key: PrivateKeyDer<'static>,
) -> Option<ClientConfig>;

/// What the items of a PEM file hold.
pub open spec fn item_views(items: Seq<Option<Vec<u8>>>) -> Seq<Option<Seq<u8>>> {
    Seq::new(
        items.len(),
        |i: int|
            match items[i] {
                Some(der) => Some(der@),
                None => None,
            },
    )
}

/// What a chain of certificates holds.
pub open spec fn chain_views(chain: Seq<Vec<u8>>) -> Seq<Seq<u8>> {
    Seq::new(chain.len(), |i: int| chain[i]@)
}

/// `rustls_pemfile::certs` on bytes in memory, each certificate as its bytes
/// and each error as nothing: a function of the bytes.
#[verifier::external_body]
fn read_certificates(pem: &[u8]) -> (items: Vec<Option<Vec<u8>>>)
    ensures
        item_views(items@) == pem_certificates(pem@),
{
    let mut reader: &[u8] = pem;
    rustls_pemfile::certs(&mut reader).map(|item| item.ok().map(|der| der.to_vec())).collect()
}

/// `rustls_pemfile::private_key` on bytes in memory: a function of the bytes.
#[verifier::external_body]
fn read_private_key(pem: &[u8]) -> (r: Result<Option<PrivateKeyDer<'static>>, std::io::Error>)
    ensures
        match r {
            Ok(key) => pem_private_key(pem@) == Ok::<Option<PrivateKeyDer<'static>>, ()>(key),
            Err(_) => pem_private_key(pem@) is Err,
        },
{
    let mut reader: &[u8] = pem;
    rustls_pemfile::private_key(&mut reader)
}

/// The public roots that `webpki_roots::TLS_SERVER_ROOTS` lists, as a store.
/// The list is not empty; which roots it has is left to the crate.
#[verifier::external_body]
fn public_roots() -> (store: RootCertStore)
    ensures
        are_public_roots(anchors(store)),
        anchors(store).len() > 0,
{
    RootCertStore { roots: webpki_roots::TLS_SERVER_ROOTS.to_vec() }
}

/// `RootCertStore::add`: appends the anchor that the certificate makes, and
/// fails, with the store as it was, where it makes none.
#[verifier::external_body]
fn add_root(store: &mut RootCertStore, der: Vec<u8>) -> (r: Result<(), rustls::Error>)
    ensures
        match r {
            Ok(_) => trust_anchor(der@) matches Some(anchor) && anchors(*final(store)) == anchors(
                *old(store),
            ).push(anchor),
            Err(_) => trust_anchor(der@) is None && anchors(*final(store)) == anchors(*old(store)),
        },
{
    store.add(CertificateDer::from(der))
}

/// `RootCertStore::is_empty`: whether the store has no anchor.
#[verifier::external_body]
fn store_is_empty(store: &RootCertStore) -> (b: bool)
    ensures
        b == (anchors(*store).len() == 0),
{
    store.is_empty()
}

/// `ConfigBuilder::with_client_auth_cert` of rustls, on a builder with the
/// `aws_lc_rs` provider, its default protocol versions and these roots:
/// whether it succeeds, and which roots, chain and key the configuration has,
/// follows from these three.
#[verifier::external_body]
fn build_config(
    roots: RootCertStore,
    chain: Vec<Vec<u8>>,
    key: PrivateKeyDer<'static>,
) -> (r: Result<ClientConfig, rustls::Error>)
    ensures
        match r {
            Ok(config) => configuration(anchors(roots), chain_views(chain@), key) == Some(config),
            Err(_) => configuration(anchors(roots), chain_views(chain@), key) is None,
        },
{
    let provider = Arc::new(rustls::crypto::aws_lc_rs::default_provider());
    ClientConfig::builder_with_provider(provider)
        .with_safe_default_protocol_versions()?
        .with_root_certificates(roots)
        .with_client_auth_cert(chain.into_iter().map(CertificateDer::from).collect(), key)
}

/// Why there is no client configuration.
#[derive(Clone, Copy, PartialEq, Eq, Structural, Debug)]
pub enum TlsError {
    ReadCa,
    ParseCa,
    AddCa,
    NoCaCertificate,
    ReadCertificate,
    ParseCertificate,
    NoCertificate,
    ReadKey,
    ParseKey,
    NoKey,
    Build,
}

/// The words for an error over these files.
pub open spec fn tls_error_text(
    e: TlsError,
    cert_path: Seq<char>,
    key_path: Seq<char>,
    ca_path: Seq<char>,
) -> Seq<char> {
    match e {
        TlsError::ReadCa => "reading "@ + ca_path,
        TlsError::ParseCa => "parsing CA certificate"@,
        TlsError::AddCa => "adding CA to root store"@,
        TlsError::NoCaCertificate => "no certificates found in "@ + ca_path,
        TlsError::ReadCertificate => "reading "@ + cert_path,
        TlsError::ParseCertificate => "parsing client certificate"@,
        TlsError::NoCertificate => "no certificates found in "@ + cert_path,
        TlsError::ReadKey => "reading "@ + key_path,
        TlsError::ParseKey => "parsing client key"@,
        TlsError::NoKey => "no private key found in "@ + key_path,
        TlsError::Build => "building TLS config with client certificate"@,
    }
}

impl TlsError {
    /// The words for the error over these files.
    pub fn message(&self, cert_path: &str, key_path: &str, ca_path: &str) -> (text: String)
        ensures
            text@ == tls_error_text(*self, cert_path@, key_path@, ca_path@),
    {
        match self {
            TlsError::ReadCa => "reading ".to_owned().concat(ca_path),
            TlsError::ParseCa => "parsing CA certificate".to_owned(),
            TlsError::AddCa => "adding CA to root store".to_owned(),
            TlsError::NoCaCertificate => "no certificates found in ".to_owned().concat(ca_path),
            TlsError::ReadCertificate => "reading ".to_owned().concat(cert_path),
            TlsError::ParseCertificate => "parsing client certificate".to_owned(),
            TlsError::NoCertificate => "no certificates found in ".to_owned().concat(cert_path),
            TlsError::ReadKey => "reading ".to_owned().concat(key_path),
            TlsError::ParseKey => "parsing client key".to_owned(),
            TlsError::NoKey => "no private key found in ".to_owned().concat(key_path),
            TlsError::Build => "building TLS config with client certificate".to_owned(),
        }
    }
}

/// The anchors of a CA file, or the first error in it.
pub open spec fn ca_anchors(items: Seq<Option<Seq<u8>>>) -> Result<
    Seq<TrustAnchor<'static>>,
    TlsError,
>
    decreases items.len(),
{
    if items.len() == 0 {
        Ok(Seq::empty())
    } else {
        match ca_anchors(items.drop_last()) {
            Err(e) => Err(e),
            Ok(before) => match items.last() {
                None => Err(TlsError::ParseCa),
                Some(der) => match trust_anchor(der) {
                    None => Err(TlsError::AddCa),
                    Some(anchor) => Ok(before.push(anchor)),
                },
            },
        }
    }
}

/// The chain of a certificate file, where every certificate in it can be read
/// and there is one.
pub open spec fn client_chain(items: Seq<Option<Seq<u8>>>) -> Result<Seq<Seq<u8>>, TlsError> {
    if exists|i: int| 0 <= i < items.len() && (#[trigger] items[i]) is None {
        Err(TlsError::ParseCertificate)
    } else if items.len() == 0 {
        Err(TlsError::NoCertificate)
    } else {
        Ok(Seq::new(items.len(), |i: int| items[i]->0))
    }
}

/// The key of a key file.
pub open spec fn client_key(pem: Seq<u8>) -> Result<PrivateKeyDer<'static>, TlsError> {
    match pem_private_key(pem) {
        Err(_) => Err(TlsError::ParseKey),
        Ok(None) => Err(TlsError::NoKey),
        Ok(Some(key)) => Ok(key),
    }
}

/// The client configuration that these files make beside the public roots, or
/// the first error on the way: first the CA file, then the certificate, then
/// the key. A file that could not be read is `None`.
pub open spec fn client_outcome(
    public: Seq<TrustAnchor<'static>>,
    ca_pem: Option<Seq<u8>>,
    cert_pem: Option<Seq<u8>>,
    key_pem: Option<Seq<u8>>,
) -> Result<ClientConfig, TlsError> {
    match ca_pem {
        None => Err(TlsError::ReadCa),
        Some(ca_pem) => match ca_anchors(pem_certificates(ca_pem)) {
            Err(e) => Err(e),
            Ok(portal) => if (public + portal).len() == 0 {
                Err(TlsError::NoCaCertificate)
            } else {
                match cert_pem {
                    None => Err(TlsError::ReadCertificate),
                    Some(cert_pem) => match client_chain(pem_certificates(cert_pem)) {
                        Err(e) => Err(e),
                        Ok(chain) => match key_pem {
                            None => Err(TlsError::ReadKey),
                            Some(key_pem) => match client_key(key_pem) {
                                Err(e) => Err(e),
                                Ok(key) => match configuration(public + portal, chain, key) {
                                    Some(config) => Ok(config),
                                    None => Err(TlsError::Build),
                                },
                            },
                        },
                    },
                }
            },
        },
    }
}

/// What an optional byte string holds.
pub open spec fn opt_bytes(o: Option<Vec<u8>>) -> Option<Seq<u8>> {
    match o {
        Some(v) => Some(v@),
        None => None,
    }
}

/// Adds the certificates of a CA file, as they were read, to a store.
pub fn add_certificates(store: &mut RootCertStore, items: &Vec<Option<Vec<u8>>>) -> (r: Result<
    (),
    TlsError,
>)
    ensures
        match r {
            Ok(_) => ca_anchors(item_views(items@)) matches Ok(portal) && anchors(*final(store))
                == anchors(*old(store)) + portal,
            Err(e) => ca_anchors(item_views(items@)) == Err::<
                Seq<TrustAnchor<'static>>,
                TlsError,
            >(e),
        },
{
    let ghost all = item_views(items@);
    let ghost first = anchors(*store);
    let mut i: usize = 0;
    assert(all.take(0) == Seq::<Option<Seq<u8>>>::empty());
    assert(first + Seq::empty() == first);
    while i < items.len()
        invariant
            i <= items@.len(),
            item_views(items@) == all,
            ca_anchors(all.take(i as int)) matches Ok(added) && anchors(*store) == first + added,
        decreases items@.len() - i,
    {
        assert(all.take(i + 1).drop_last() == all.take(i as int));
        assert(all.take(i + 1).last() == all[i as int]);
        let der = match &items[i] {
            Some(der) => der.clone(),
            None => {
                proof {
                    lemma_ca_error_stays(all, i + 1);
                }
                return Err(TlsError::ParseCa);
            },
        };
        match add_root(store, der) {
            Ok(_) => {},
            Err(_) => {
                proof {
                    lemma_ca_error_stays(all, i + 1);
                }
                return Err(TlsError::AddCa);
            },
        }
        i = i + 1;
    }
    assert(all.take(i as int) == all);
    Ok(())
}

/// The first error in a CA file is the error of the file.
proof fn lemma_ca_error_stays(items: Seq<Option<Seq<u8>>>, n: int)
    requires
        0 <= n <= items.len(),
        ca_anchors(items.take(n)) is Err,
    ensures
        ca_anchors(items) == ca_anchors(items.take(n)),
    decreases items.len() - n,
{
    if n < items.len() {
        assert(items.take(n + 1).drop_last() == items.take(n));
        lemma_ca_error_stays(items, n + 1);
    } else {
        assert(items.take(n) == items);
    }
}

/// The chain of a certificate file, from its certificates as they were read.
pub fn chain_of(items: &Vec<Option<Vec<u8>>>) -> (r: Result<Vec<Vec<u8>>, TlsError>)
    ensures
        match r {
            Ok(chain) => client_chain(item_views(items@)) == Ok::<Seq<Seq<u8>>, TlsError>(
                chain_views(chain@),
            ),
            Err(e) => client_chain(item_views(items@)) == Err::<Seq<Seq<u8>>, TlsError>(e),
        },
{
    let ghost all = item_views(items@);
    let mut chain: Vec<Vec<u8>> = Vec::new();
    let mut i: usize = 0;
    while i < items.len()
        invariant
            i <= items@.len(),
            all == item_views(items@),
            chain@.len() == i,
            forall|j: int| 0 <= j < i ==> #[trigger] all[j] == Some(chain@[j]@),
        decreases items@.len() - i,
    {
        match &items[i] {
            Some(der) => {
                let copy = der.clone();
                assert(copy@ == der@);
                assert(all[i as int] == Some(der@));
                chain.push(copy);
            },
            None => {
                assert(all[i as int] is None);
                return Err(TlsError::ParseCertificate);
            },
        }
        i = i + 1;
    }
    if chain.len() == 0 {
        return Err(TlsError::NoCertificate);
    }
    assert(chain_views(chain@) =~= Seq::new(all.len(), |i: int| all[i]->0)) by {
        assert forall|j: int| 0 <= j < all.len() implies chain_views(chain@)[j] == all[j]->0 by {
            assert(all[j] == Some(chain@[j]@));
        }
    }
    Ok(chain)
}

/// Builds the client configuration from the public roots and the contents of
/// the three files. A file that could not be read is `None`.
pub fn client_config_with(
    public: RootCertStore,
    ca_pem: Option<Vec<u8>>,
    cert_pem: Option<Vec<u8>>,
    key_pem: Option<Vec<u8>>,
) -> (r: Result<Arc<ClientConfig>, TlsError>)
    ensures
        match r {
            Ok(config) => client_outcome(
                anchors(public),
                opt_bytes(ca_pem),
                opt_bytes(cert_pem),
                opt_bytes(key_pem),
            ) == Ok::<ClientConfig, TlsError>(*config),
            Err(e) => client_outcome(
                anchors(public),
                opt_bytes(ca_pem),
                opt_bytes(cert_pem),
                opt_bytes(key_pem),
            ) == Err::<ClientConfig, TlsError>(e),
        },
{
    let ca_pem = match ca_pem {
        Some(pem) => pem,
        None => return Err(TlsError::ReadCa),
    };
    let mut roots = public;
    let ca_items = read_certificates(ca_pem.as_slice());
    match add_certificates(&mut roots, &ca_items) {
        Ok(_) => {},
        Err(e) => return Err(e),
    }
    if store_is_empty(&roots) {
        return Err(TlsError::NoCaCertificate);
    }
    let cert_pem = match cert_pem {
        Some(pem) => pem,
        None => return Err(TlsError::ReadCertificate),
    };
    let cert_items = read_certificates(cert_pem.as_slice());
    let chain = match chain_of(&cert_items) {
        Ok(chain) => chain,
        Err(e) => return Err(e),
    };
    let key_pem = match key_pem {
        Some(pem) => pem,
        None => return Err(TlsError::ReadKey),
    };
    let key = match read_private_key(key_pem.as_slice()) {
        Ok(Some(key)) => key,
        Ok(None) => return Err(TlsError::NoKey),
        Err(_) => return Err(TlsError::ParseKey),
    };
    match build_config(roots, chain, key) {
        Ok(config) => Ok(Arc::new(config)),
        Err(_) => Err(TlsError::Build),
    }
}

/// Builds the client configuration from the contents of the three files: the
/// server is verified against the public roots and the portal CA. A file that
/// could not be read is `None`.
pub fn client_config(
    ca_pem: Option<Vec<u8>>,
    cert_pem: Option<Vec<u8>>,
    key_pem: Option<Vec<u8>>,
) -> (r: Result<Arc<ClientConfig>, TlsError>)
    ensures
        exists|public: Seq<TrustAnchor<'static>>|
            are_public_roots(public) && public.len() > 0 && match r {
                Ok(config) => #[trigger] client_outcome(
                    public,
                    opt_bytes(ca_pem),
                    opt_bytes(cert_pem),
                    opt_bytes(key_pem),
                ) == Ok::<ClientConfig, TlsError>(*config),
                Err(e) => client_outcome(
                    public,
                    opt_bytes(ca_pem),
                    opt_bytes(cert_pem),
                    opt_bytes(key_pem),
                ) == Err::<ClientConfig, TlsError>(e),
            },
{
    client_config_with(public_roots(), ca_pem, cert_pem, key_pem)
}

/// A client configuration trusts exactly the public roots and the anchors of
/// the CA file, and shows exactly the chain of the certificate file with the
/// key of the key file.
pub proof fn law_trust_is_public_and_portal(
    public: Seq<TrustAnchor<'static>>,
    ca_pem: Seq<u8>,
    cert_pem: Seq<u8>,
    key_pem: Seq<u8>,
    config: ClientConfig,
)
    requires
        client_outcome(public, Some(ca_pem), Some(cert_pem), Some(key_pem)) == Ok::<
            ClientConfig,
            TlsError,
        >(config),
    ensures
        ca_anchors(pem_certificates(ca_pem)) matches Ok(portal) && client_chain(
            pem_certificates(cert_pem),
        ) matches Ok(chain) && client_key(key_pem) matches Ok(key) && configuration(
            public + portal,
            chain,
            key,
        ) == Some(config),
{
}

/// A CA file fails over a certificate that cannot be read or be an anchor.
proof fn lemma_ca_errors(items: Seq<Option<Seq<u8>>>)
    ensures
        ca_anchors(items) matches Err(e) ==> e == TlsError::ParseCa || e == TlsError::AddCa,
    decreases items.len(),
{
    if items.len() > 0 {
        lemma_ca_errors(items.drop_last());
    }
}

/// Which public roots there are decides no error, as long as there are some:
/// only the last step, which puts everything together, looks at them.
pub proof fn law_public_roots_decide_no_error(
    public: Seq<TrustAnchor<'static>>,
    other: Seq<TrustAnchor<'static>>,
    ca_pem: Option<Seq<u8>>,
    cert_pem: Option<Seq<u8>>,
    key_pem: Option<Seq<u8>>,
    e: TlsError,
)
    requires
        public.len() > 0,
        other.len() > 0,
        client_outcome(public, ca_pem, cert_pem, key_pem) == Err::<ClientConfig, TlsError>(e),
        e != TlsError::Build,
    ensures
        client_outcome(other, ca_pem, cert_pem, key_pem) == Err::<ClientConfig, TlsError>(e),
        e != TlsError::NoCaCertificate,
{
    if let Some(ca_pem) = ca_pem {
        lemma_ca_errors(pem_certificates(ca_pem));
    }
}

/// A CA file whose certificates all are anchors gives these anchors, one for
/// one and in order.
pub proof fn law_ca_file_gives_all_its_anchors(items: Seq<Option<Seq<u8>>>)
    requires
        forall|i: int|
            0 <= i < items.len() ==> ((#[trigger] items[i]) matches Some(der) && trust_anchor(
                der,
            ) is Some),
    ensures
        ca_anchors(items) == Ok::<Seq<TrustAnchor<'static>>, TlsError>(
            Seq::new(items.len(), |i: int| trust_anchor(items[i]->0)->0),
        ),
    decreases items.len(),
{
    let all = Seq::new(items.len(), |i: int| trust_anchor(items[i]->0)->0);
    if items.len() > 0 {
        let fewer = items.drop_last();
        assert forall|i: int| 0 <= i < fewer.len() implies ((
        #[trigger] fewer[i]) matches Some(der) && trust_anchor(der) is Some) by {
            assert(fewer[i] == items[i]);
        }
        law_ca_file_gives_all_its_anchors(fewer);
        assert(items[items.len() - 1] is Some);
        assert(Seq::new(fewer.len(), |i: int| trust_anchor(fewer[i]->0)->0).push(all.last())
            == all);
    } else {
        assert(Seq::<TrustAnchor<'static>>::empty() == all);
    }
}

/// A CA file fails over its first certificate that cannot be read or cannot be
/// an anchor, whatever stands behind it.
pub proof fn law_ca_file_fails_at_its_first_fault(items: Seq<Option<Seq<u8>>>, n: int)
    requires
        0 <= n < items.len(),
        forall|i: int|
            0 <= i < n ==> ((#[trigger] items[i]) matches Some(der) && trust_anchor(der) is Some),
        items[n] matches Some(der) ==> trust_anchor(der) is None,
    ensures
        ca_anchors(items) == Err::<Seq<TrustAnchor<'static>>, TlsError>(
            if items[n] is None {
                TlsError::ParseCa
            } else {
                TlsError::AddCa
            },
        ),
{
    let good = items.take(n);
    assert forall|i: int| 0 <= i < good.len() implies ((
    #[trigger] good[i]) matches Some(der) && trust_anchor(der) is Some) by {
        assert(good[i] == items[i]);
    }
    law_ca_file_gives_all_its_anchors(good);
    assert(items.take(n + 1).drop_last() == good);
    assert(items.take(n + 1).last() == items[n]);
    lemma_ca_error_stays(items, n + 1);
}

/// A certificate file gives its certificates, one for one and in order, where
/// it has one and all can be read; otherwise it fails.
pub proof fn law_certificate_file_gives_its_chain(items: Seq<Option<Seq<u8>>>, i: int)
    requires
        0 <= i < items.len(),
    ensures
        (forall|j: int| 0 <= j < items.len() ==> (#[trigger] items[j]) is Some) ==> (client_chain(
            items,
        ) matches Ok(chain) && chain.len() == items.len() && items[i] == Some(chain[i])),
        items[i] is None ==> client_chain(items) == Err::<Seq<Seq<u8>>, TlsError>(
            TlsError::ParseCertificate,
        ),
        client_chain(Seq::empty()) == Err::<Seq<Seq<u8>>, TlsError>(TlsError::NoCertificate),
{
    if forall|j: int| 0 <= j < items.len() ==> (#[trigger] items[j]) is Some {
        assert(items[i] is Some);
    }
}

/// Complete material makes the configuration that trusts the public roots and
/// the CA file's anchors and shows the chain with the key; where these do not
/// go together, it fails.
pub proof fn law_complete_material_is_put_together(
    public: Seq<TrustAnchor<'static>>,
    ca_pem: Seq<u8>,
    cert_pem: Seq<u8>,
    key_pem: Seq<u8>,
    portal: Seq<TrustAnchor<'static>>,
    chain: Seq<Seq<u8>>,
    key: PrivateKeyDer<'static>,
)
    requires
        public.len() > 0,
        ca_anchors(pem_certificates(ca_pem)) == Ok::<Seq<TrustAnchor<'static>>, TlsError>(portal),
        client_chain(pem_certificates(cert_pem)) == Ok::<Seq<Seq<u8>>, TlsError>(chain),
        pem_private_key(key_pem) == Ok::<Option<PrivateKeyDer<'static>>, ()>(Some(key)),
    ensures
        configuration(public + portal, chain, key) matches Some(config) ==> client_outcome(
            public,
            Some(ca_pem),
            Some(cert_pem),
            Some(key_pem),
        ) == Ok::<ClientConfig, TlsError>(config),
        configuration(public + portal, chain, key) is None ==> client_outcome(
            public,
            Some(ca_pem),
            Some(cert_pem),
            Some(key_pem),
        ) == Err::<ClientConfig, TlsError>(TlsError::Build),
{
}

/// The first file that is missing or faulty decides the error: the CA file,
/// then the certificate, then the key, whatever the later ones are.
pub proof fn law_first_faulty_file_decides(
    public: Seq<TrustAnchor<'static>>,
    ca_pem: Seq<u8>,
    cert_pem: Seq<u8>,
    key_pem: Seq<u8>,
    cert_file: Option<Seq<u8>>,
    key_file: Option<Seq<u8>>,
)
    requires
        public.len() > 0,
    ensures
        client_outcome(public, None, cert_file, key_file) == Err::<ClientConfig, TlsError>(
            TlsError::ReadCa,
        ),
        ca_anchors(pem_certificates(ca_pem)) matches Err(e) ==> client_outcome(
            public,
            Some(ca_pem),
            cert_file,
            key_file,
        ) == Err::<ClientConfig, TlsError>(e),
        ca_anchors(pem_certificates(ca_pem)) is Ok ==> {
            &&& client_outcome(public, Some(ca_pem), None, key_file) == Err::<
                ClientConfig,
                TlsError,
            >(TlsError::ReadCertificate)
            &&& client_chain(pem_certificates(cert_pem)) matches Err(e) ==> client_outcome(
                public,
                Some(ca_pem),
                Some(cert_pem),
                key_file,
            ) == Err::<ClientConfig, TlsError>(e)
            &&& client_chain(pem_certificates(cert_pem)) is Ok ==> {
                &&& client_outcome(public, Some(ca_pem), Some(cert_pem), None) == Err::<
                    ClientConfig,
                    TlsError,
                >(TlsError::ReadKey)
                &&& pem_private_key(key_pem) is Err ==> client_outcome(
                    public,
                    Some(ca_pem),
                    Some(cert_pem),
                    Some(key_pem),
                ) == Err::<ClientConfig, TlsError>(TlsError::ParseKey)
                &&& pem_private_key(key_pem) == Ok::<Option<PrivateKeyDer<'static>>, ()>(None)
                    ==> client_outcome(public, Some(ca_pem), Some(cert_pem), Some(key_pem)) == Err::<
                    ClientConfig,
                    TlsError,
                >(TlsError::NoKey)
            }
        },
{
}

/// Without public roots, a CA file without certificates leaves nothing to
/// trust.
pub proof fn law_nothing_to_trust_is_an_error(
    ca_pem: Seq<u8>,
    cert_file: Option<Seq<u8>>,
    key_file: Option<Seq<u8>>,
)
    requires
        pem_certificates(ca_pem).len() == 0,
    ensures
        client_outcome(Seq::empty(), Some(ca_pem), cert_file, key_file) == Err::<
            ClientConfig,
            TlsError,
        >(TlsError::NoCaCertificate),
{
}

/// The words for an error name the file that it is about.
pub proof fn law_tls_errors_name_their_file(
    cert_path: Seq<char>,
    key_path: Seq<char>,
    ca_path: Seq<char>,
)
    ensures
        ({
            let text = |e: TlsError| tls_error_text(e, cert_path, key_path, ca_path);
            &&& text(TlsError::ReadCa) == "reading "@ + ca_path
            &&& text(TlsError::ReadCertificate) == "reading "@ + cert_path
            &&& text(TlsError::ReadKey) == "reading "@ + key_path
            &&& text(TlsError::NoCaCertificate) == "no certificates found in "@ + ca_path
            &&& text(TlsError::NoCertificate) == "no certificates found in "@ + cert_path
            &&& text(TlsError::NoKey) == "no private key found in "@ + key_path
            &&& text(TlsError::ParseCa) == "parsing CA certificate"@
            &&& text(TlsError::AddCa) == "adding CA to root store"@
            &&& text(TlsError::ParseCertificate) == "parsing client certificate"@
            &&& text(TlsError::ParseKey) == "parsing client key"@
            &&& text(TlsError::Build) == "building TLS config with client certificate"@
        }),
{
}

/// What a list of certificates holds is their bytes, one for one.
pub proof fn law_certificates_keep_their_bytes(
    items: Seq<Option<Vec<u8>>>,
    chain: Seq<Vec<u8>>,
    i: int,
    v: Vec<u8>,
)
    ensures
        item_views(items).len() == items.len(),
        chain_views(chain).len() == chain.len(),
        0 <= i < items.len() && items[i] is None ==> item_views(items)[i] is None,
        0 <= i < items.len() ==> (items[i] matches Some(der) ==> item_views(items)[i] == Some(
            der@,
        )),
        0 <= i < chain.len() ==> chain_views(chain)[i] == chain[i]@,
        opt_bytes(Some(v)) == Some(v@),
        opt_bytes(None) is None,
{
}

} // verus!
