//! Enrollment and renewal: a keypair and a CSR are exchanged for a signed
//! client certificate.
//!
//! The private key is generated locally and never leaves this host; the portal
//! signs the CSR and binds the certificate CN to the server's UUID regardless
//! of what is requested.
use crate::protocol::{field_views, put, Field, FieldView};
use crate::text::{opt_text, texts, trim_end_char, without_trailing};
use crate::tls::opt_bytes;
use rcgen::{CertificateParams, CertificateSigningRequest, KeyPair};
use vstd::prelude::*;

verus! {

/// A keypair.
#[verifier::external_type_specification]
#[verifier::external_body]
pub struct ExKeyPair(KeyPair);

/// A certificate signing request.
#[verifier::external_type_specification]
#[verifier::external_body]
pub struct ExCertificateSigningRequest(CertificateSigningRequest);

/// The error of rcgen.
#[verifier::external_type_specification]
#[verifier::external_body]
pub struct ExRcgenError(rcgen::Error);

/// A private key with its certificate, as the HTTP client holds it.
#[verifier::external_type_specification]
#[verifier::external_body]
pub struct ExIdentity(reqwest::Identity);

/// A certificate, as the HTTP client holds it.
#[verifier::external_type_specification]
#[verifier::external_body]
pub struct ExCertificate(reqwest::Certificate);

/// The error of the HTTP client.
#[verifier::external_type_specification]
#[verifier::external_body]
pub struct ExReqwestError(reqwest::Error);

/// Tells whether making a new keypair can come back with this: with a keypair
/// that holds its private key, or with an error.
pub uninterp spec fn generated(r: Result<KeyPair, rcgen::Error>) -> bool;

/// Tells whether a text is the PEM form of the private key of a keypair.
pub uninterp spec fn is_pem_of_key(pem: Seq<char>, key: KeyPair) -> bool;

/// Tells whether building a signing request for a keypair can come back with
/// this: with a request for its public key, signed with its private key, or
/// with an error.
pub uninterp spec fn request_built(
    key: KeyPair,
    r: Result<CertificateSigningRequest, rcgen::Error>,
) -> bool;

/// Tells whether encoding a signing request can come back with this: with its
/// PEM form, or with an error.
pub uninterp spec fn request_encoded(
    csr: CertificateSigningRequest,
    r: Result<Seq<char>, rcgen::Error>,
) -> bool;

/// The identity that the HTTP client makes of a PEM file with a private key
/// and certificates; nothing where it takes none from it.
pub uninterp spec fn pem_identity(pem: Seq<u8>) -> Option<reqwest::Identity>;

/// The certificate that the HTTP client makes of a PEM file.
pub uninterp spec fn pem_root_certificate(pem: Seq<u8>) -> Option<reqwest::Certificate>;

/// `KeyPair::generate`: a new random keypair, which holds its private key.
/// Which one, and whether the machine can make one, is left open: what came
/// back is one of the outcomes that there can be.
#[verifier::external_body]
fn generate_key() -> (r: Result<KeyPair, rcgen::Error>)
    ensures
        generated(r),
{
    KeyPair::generate()
}

/// `KeyPair::serialize_pem`: the private key as PEM. It panics on a keypair
/// that does not hold its private key; a generated one does.
#[verifier::external_body]
fn key_to_pem(key: &KeyPair) -> (pem: String)
    requires
        generated(Ok(*key)),
    ensures
        is_pem_of_key(pem@, *key),
{
    key.serialize_pem()
}

/// `CertificateParams::serialize_request` on the default parameters: a signing
/// request for this keypair. The signature is random, so that no two requests
/// are the same, and whether it can be made is left open: what came back is one
/// of the outcomes that there can be for this keypair.
#[verifier::external_body]
fn signing_request(key: &KeyPair) -> (r: Result<CertificateSigningRequest, rcgen::Error>)
    ensures
        request_built(*key, r),
{
    CertificateParams::default().serialize_request(key)
}

/// `CertificateSigningRequest::pem`: the request as PEM. What came back is one
/// of the outcomes that there can be for this request.
#[verifier::external_body]
fn request_to_pem(csr: &CertificateSigningRequest) -> (r: Result<String, rcgen::Error>)
    ensures
        request_encoded(
            *csr,
            match r {
                Ok(pem) => Ok(pem@),
                Err(e) => Err(e),
            },
        ),
{
    csr.pem()
}

/// `Identity::from_pem` of reqwest: a function of the bytes.
#[verifier::external_body]
fn identity_from_pem(pem: &Vec<u8>) -> (r: Result<reqwest::Identity, reqwest::Error>)
    ensures
        match r {
            Ok(identity) => pem_identity(pem@) == Some(identity),
            Err(_) => pem_identity(pem@) is None,
        },
{
    reqwest::Identity::from_pem(pem)
}

/// `Certificate::from_pem` of reqwest: a function of the bytes.
#[verifier::external_body]
fn certificate_from_pem(pem: &Vec<u8>) -> (r: Result<reqwest::Certificate, reqwest::Error>)
    ensures
        match r {
            Ok(certificate) => pem_root_certificate(pem@) == Some(certificate),
            Err(_) => pem_root_certificate(pem@) is None,
        },
{
    reqwest::Certificate::from_pem(pem)
}

/// What the portal is asked for.
#[derive(Clone, Copy, PartialEq, Eq, Structural, Debug)]
pub enum Exchange {
    /// The first certificate, for a one-time token.
    Enrollment,
    /// The next certificate, over the channel that the current one opens.
    Renewal,
}

/// A fresh private key and the signing request for it, both as PEM.
pub struct KeyRequest {
    pub key_pem: String,
    pub csr_pem: String,
}

/// Tells whether a private key is a new one, and a signing request was made for
/// it.
pub open spec fn belong_together(key_pem: Seq<char>, csr_pem: Seq<char>) -> bool {
    exists|key: KeyPair, csr: CertificateSigningRequest|
        #![trigger request_built(key, Ok(csr))]
        generated(Ok(key)) && is_pem_of_key(key_pem, key) && request_built(key, Ok(csr))
            && request_encoded(csr, Ok(csr_pem))
}

/// Why there is no signing request.
#[derive(Clone, Copy, PartialEq, Eq, Structural, Debug)]
pub enum KeyRequestError {
    GenerateKey,
    BuildCsr,
    EncodeCsr,
}

impl KeyRequestError {
    /// The words for the error.
    pub fn message(&self, exchange: Exchange) -> (text: &'static str)
        ensures
            text@ == match *self {
                KeyRequestError::GenerateKey => if exchange == Exchange::Enrollment {
                    "generating keypair"@
                } else {
                    "generating new keypair"@
                },
                KeyRequestError::BuildCsr => "building CSR"@,
                KeyRequestError::EncodeCsr => "encoding CSR"@,
            },
    {
        match self {
            KeyRequestError::GenerateKey => match exchange {
                Exchange::Enrollment => "generating keypair",
                Exchange::Renewal => "generating new keypair",
            },
            KeyRequestError::BuildCsr => "building CSR",
            KeyRequestError::EncodeCsr => "encoding CSR",
        }
    }
}

/// Tells whether the step that an error names has failed, with the steps before
/// it done: making the keypair, building the signing request for it, or
/// encoding that request.
pub open spec fn step_failed(e: KeyRequestError) -> bool {
    match e {
        KeyRequestError::GenerateKey => exists|cause: rcgen::Error| #[trigger]
            generated(Err(cause)),
        KeyRequestError::BuildCsr => exists|key: KeyPair, cause: rcgen::Error|
            generated(Ok(key)) && #[trigger] request_built(key, Err(cause)),
        KeyRequestError::EncodeCsr => exists|
            key: KeyPair,
            csr: CertificateSigningRequest,
            cause: rcgen::Error,
        |
            generated(Ok(key)) && #[trigger] request_built(key, Ok(csr))
                && #[trigger] request_encoded(csr, Err(cause)),
    }
}

/// Makes a fresh private key and the signing request for it. An error says
/// which step has failed.
pub fn new_key_request() -> (r: Result<KeyRequest, KeyRequestError>)
    ensures
        match r {
            Ok(request) => belong_together(request.key_pem@, request.csr_pem@),
            Err(e) => step_failed(e),
        },
{
    let key = match generate_key() {
        Ok(key) => key,
        Err(_) => return Err(KeyRequestError::GenerateKey),
    };
    let csr = match signing_request(&key) {
        Ok(csr) => csr,
        Err(_) => return Err(KeyRequestError::BuildCsr),
    };
    let csr_pem = match request_to_pem(&csr) {
        Ok(pem) => pem,
        Err(_) => return Err(KeyRequestError::EncodeCsr),
    };
    let key_pem = key_to_pem(&key);
    assert(request_built(key, Ok(csr)));
    Ok(KeyRequest { key_pem, csr_pem })
}

/// Where the portal takes a request, under its base URL.
pub open spec fn endpoint(base_url: Seq<char>, exchange: Exchange) -> Seq<char> {
    trim_end_char(base_url, '/') + match exchange {
        Exchange::Enrollment => "/v1/gameserver/enroll"@,
        Exchange::Renewal => "/v1/gameserver/renew"@,
    }
}

/// Where the portal takes a request, under its base URL.
pub fn endpoint_url(base_url: &str, exchange: Exchange) -> (url: String)
    ensures
        url@ == endpoint(base_url@, exchange),
{
    let base = without_trailing(base_url, '/');
    match exchange {
        Exchange::Enrollment => base.concat("/v1/gameserver/enroll"),
        Exchange::Renewal => base.concat("/v1/gameserver/renew"),
    }
}

/// The body of an enrollment request: the one-time token and the signing
/// request, nothing else.
pub fn enroll_body(token: &str, csr_pem: &str) -> (fields: Vec<(String, Field)>)
    ensures
        field_views(fields@) == seq![
            ("enrollment_token"@, FieldView::Text(token@)),
            ("csr_pem"@, FieldView::Text(csr_pem@)),
        ],
{
    let mut fields: Vec<(String, Field)> = Vec::new();
    assert(field_views(fields@) == Seq::<(Seq<char>, FieldView)>::empty());
    put(&mut fields, "enrollment_token", Field::Text(token.to_owned()));
    put(&mut fields, "csr_pem", Field::Text(csr_pem.to_owned()));
    fields
}

/// The body of a renewal request: the signing request, nothing else.
pub fn renew_body(csr_pem: &str) -> (fields: Vec<(String, Field)>)
    ensures
        field_views(fields@) == seq![("csr_pem"@, FieldView::Text(csr_pem@))],
{
    let mut fields: Vec<(String, Field)> = Vec::new();
    assert(field_views(fields@) == Seq::<(Seq<char>, FieldView)>::empty());
    put(&mut fields, "csr_pem", Field::Text(csr_pem.to_owned()));
    fields
}

/// The words for a request that the portal has turned down.
pub open spec fn rejection(exchange: Exchange, status: Seq<char>, body: Seq<char>) -> Seq<char> {
    match exchange {
        Exchange::Enrollment => "enrollment rejected ("@ + status + "): "@ + body,
        Exchange::Renewal => "renewal rejected ("@ + status + "): "@ + body,
    }
}

/// Why the portal's response does not do, with its status and its body, where
/// the status is not one of success.
pub fn rejected(exchange: Exchange, success: bool, status: &str, body: &str) -> (reason: Option<
    String,
>)
    ensures
        opt_text(reason) == (if success {
            None
        } else {
            Some(rejection(exchange, status@, body@))
        }),
{
    if success {
        return None;
    }
    let start = match exchange {
        Exchange::Enrollment => "enrollment rejected (",
        Exchange::Renewal => "renewal rejected (",
    };
    Some(start.to_owned().concat(status).concat("): ").concat(body))
}

/// What the portal answers an enrollment with.
pub struct EnrollResponse {
    pub server_id: String,
    pub server_name: String,
    pub certificate_pem: String,
    pub ca_certificate_pem: String,
    pub expires_at: String,
    pub demo_token: String,
    pub demo_upload_url: String,
}

/// A file to be written, with its permissions.
#[derive(Debug)]
pub struct MaterialFile {
    pub name: String,
    pub contents: String,
    pub mode: u32,
}

/// What a file holds.
pub struct FileView {
    pub name: Seq<char>,
    pub contents: Seq<char>,
    pub mode: u32,
}

impl View for MaterialFile {
    type V = FileView;

    open spec fn view(&self) -> FileView {
        FileView { name: self.name@, contents: self.contents@, mode: self.mode }
    }
}

/// What the files of a list hold.
pub open spec fn file_views(files: Seq<MaterialFile>) -> Seq<FileView> {
    Seq::new(files.len(), |i: int| files[i]@)
}

/// Readable and writable by the owner alone.
pub const KEY_MODE: u32 = 0o600;

/// Readable by everybody.
pub const PUBLIC_MODE: u32 = 0o644;

/// Readable by the group too.
pub const SETTINGS_MODE: u32 = 0o640;

/// The settings file for MatchZy's demo upload.
pub open spec fn demo_settings(upload_url: Seq<char>, token: Seq<char>) -> Seq<char> {
    "// Written by portal-server-agent enroll. Server-scoped demo\n"@
        + "// upload settings for csgo/cfg/MatchZy/config.cfg — do NOT\n"@
        + "// put these in per-match cvars.\n"@ + "matchzy_demo_upload_url \""@ + upload_url
        + "\"\nmatchzy_demo_upload_header_key \"Authorization\"\n"@
        + "matchzy_demo_upload_header_value \"Bearer "@ + token + "\"\n"@
}

/// The files that an enrollment leaves: the private key, the certificate, the
/// portal CA, and the settings for the demo upload where there is a token for
/// it.
pub open spec fn material_files(enrolled: EnrollResponse, key_pem: Seq<char>) -> Seq<FileView> {
    let files = seq![
        FileView { name: "client.key"@, contents: key_pem, mode: KEY_MODE },
        FileView {
            name: "client.pem"@,
            contents: enrolled.certificate_pem@,
            mode: PUBLIC_MODE,
        },
        FileView {
            name: "portal-ca.pem"@,
            contents: enrolled.ca_certificate_pem@,
            mode: PUBLIC_MODE,
        },
    ];
    if enrolled.demo_token@.len() == 0 {
        files
    } else {
        files.push(
            FileView {
                name: "matchzy_portal.cfg"@,
                contents: demo_settings(enrolled.demo_upload_url@, enrolled.demo_token@),
                mode: SETTINGS_MODE,
            },
        )
    }
}

/// Appends a file.
fn add_file(files: &mut Vec<MaterialFile>, name: &str, contents: String, mode: u32)
    ensures
        file_views(final(files)@) == file_views(old(files)@).push(
            FileView { name: name@, contents: contents@, mode },
        ),
{
    let file = MaterialFile { name: name.to_owned(), contents, mode };
    files.push(file);
    assert(file_views(files@) == file_views(old(files)@).push(file@));
}

/// The files that an enrollment leaves. The demo token is only ever returned
/// by the one enroll response, so that its settings are kept in a file.
pub fn material(enrolled: &EnrollResponse, key_pem: &str) -> (files: Vec<MaterialFile>)
    ensures
        file_views(files@) == material_files(*enrolled, key_pem@),
{
    let mut files: Vec<MaterialFile> = Vec::new();
    assert(file_views(files@) == Seq::<FileView>::empty());
    add_file(&mut files, "client.key", key_pem.to_owned(), KEY_MODE);
    add_file(&mut files, "client.pem", enrolled.certificate_pem.clone(), PUBLIC_MODE);
    add_file(&mut files, "portal-ca.pem", enrolled.ca_certificate_pem.clone(), PUBLIC_MODE);
    if !enrolled.demo_token.as_str().is_empty() {
        let settings = "// Written by portal-server-agent enroll. Server-scoped demo\n".to_owned()
            .concat("// upload settings for csgo/cfg/MatchZy/config.cfg — do NOT\n").concat(
            "// put these in per-match cvars.\n",
        ).concat("matchzy_demo_upload_url \"").concat(enrolled.demo_upload_url.as_str()).concat(
            "\"\nmatchzy_demo_upload_header_key \"Authorization\"\n",
        ).concat("matchzy_demo_upload_header_value \"Bearer ").concat(
            enrolled.demo_token.as_str(),
        ).concat("\"\n");
        add_file(&mut files, "matchzy_portal.cfg", settings, SETTINGS_MODE);
    }
    files
}

/// The lines that tell how an enrollment went and what to configure.
pub open spec fn enroll_lines(enrolled: EnrollResponse, dir: Seq<char>) -> Seq<Seq<char>> {
    let lines = seq![
        "Enrolled as server "@ + enrolled.server_name@ + " ("@ + enrolled.server_id@ + ")"@,
        "Certificate valid until "@ + enrolled.expires_at@,
        "Material written to "@ + dir + "/ (client.key, client.pem, portal-ca.pem)"@,
        ""@,
        "Set in /etc/portal/portal-server-agent.env:"@,
        "  PORTAL_AGENT_URL=wss://agents.<portal-domain>/v1/gameserver/agent/ws"@,
        "  PORTAL_AGENT_CERT="@ + dir + "/client.pem"@,
        "  PORTAL_AGENT_KEY="@ + dir + "/client.key"@,
        "  PORTAL_AGENT_CA="@ + dir + "/portal-ca.pem"@,
    ];
    if enrolled.demo_token@.len() == 0 {
        lines
    } else {
        lines + seq![
            ""@,
            "Add to csgo/cfg/MatchZy/config.cfg (server-scoped demo upload, survives"@,
            "cvar restores - do NOT put these in per-match cvars):"@,
            "  matchzy_demo_upload_url \""@ + enrolled.demo_upload_url@ + "\""@,
            "  matchzy_demo_upload_header_key \"Authorization\""@,
            "  matchzy_demo_upload_header_value \"Bearer "@ + enrolled.demo_token@ + "\""@,
            ""@,
            "(Also written to "@ + dir + "/matchzy_portal.cfg for config management.)"@,
        ]
    }
}

/// Appends a line.
fn add_line(lines: &mut Vec<String>, line: String)
    ensures
        texts(final(lines)@) == texts(old(lines)@).push(line@),
{
    lines.push(line);
    assert(texts(lines@) == texts(old(lines)@).push(line@));
}

/// The lines that tell how an enrollment went and what to configure.
pub fn enroll_report(enrolled: &EnrollResponse, dir: &str) -> (lines: Vec<String>)
    ensures
        texts(lines@) == enroll_lines(*enrolled, dir@),
{
    let mut lines: Vec<String> = Vec::new();
    assert(texts(lines@) == Seq::<Seq<char>>::empty());
    add_line(
        &mut lines,
        "Enrolled as server ".to_owned().concat(enrolled.server_name.as_str()).concat(" (").concat(
            enrolled.server_id.as_str(),
        ).concat(")"),
    );
    add_line(
        &mut lines,
        "Certificate valid until ".to_owned().concat(enrolled.expires_at.as_str()),
    );
    add_line(
        &mut lines,
        "Material written to ".to_owned().concat(dir).concat(
            "/ (client.key, client.pem, portal-ca.pem)",
        ),
    );
    add_line(&mut lines, "".to_owned());
    add_line(&mut lines, "Set in /etc/portal/portal-server-agent.env:".to_owned());
    add_line(
        &mut lines,
        "  PORTAL_AGENT_URL=wss://agents.<portal-domain>/v1/gameserver/agent/ws".to_owned(),
    );
    add_line(&mut lines, "  PORTAL_AGENT_CERT=".to_owned().concat(dir).concat("/client.pem"));
    add_line(&mut lines, "  PORTAL_AGENT_KEY=".to_owned().concat(dir).concat("/client.key"));
    add_line(&mut lines, "  PORTAL_AGENT_CA=".to_owned().concat(dir).concat("/portal-ca.pem"));
    if !enrolled.demo_token.as_str().is_empty() {
        let ghost first = texts(lines@);
        add_line(&mut lines, "".to_owned());
        add_line(
            &mut lines,
            "Add to csgo/cfg/MatchZy/config.cfg (server-scoped demo upload, survives".to_owned(),
        );
        add_line(
            &mut lines,
            "cvar restores - do NOT put these in per-match cvars):".to_owned(),
        );
        add_line(
            &mut lines,
            "  matchzy_demo_upload_url \"".to_owned().concat(
                enrolled.demo_upload_url.as_str(),
            ).concat("\""),
        );
        add_line(
            &mut lines,
            "  matchzy_demo_upload_header_key \"Authorization\"".to_owned(),
        );
        add_line(
            &mut lines,
            "  matchzy_demo_upload_header_value \"Bearer ".to_owned().concat(
                enrolled.demo_token.as_str(),
            ).concat("\""),
        );
        add_line(&mut lines, "".to_owned());
        add_line(
            &mut lines,
            "(Also written to ".to_owned().concat(dir).concat(
                "/matchzy_portal.cfg for config management.)",
            ),
        );
        assert(texts(lines@) == enroll_lines(*enrolled, dir@));
    }
    lines
}

/// The system user that the service runs as.
pub const SERVICE_USER: &'static str = "portal-agent";

/// Traversable by the group.
pub const DIR_MODE: u32 = 0o750;

/// The arguments of `getent` that ask for the service user.
pub fn user_lookup_args() -> (args: Vec<String>)
    ensures
        texts(args@) == seq!["passwd"@, SERVICE_USER@],
{
    let mut args: Vec<String> = Vec::new();
    assert(texts(args@) == Seq::<Seq<char>>::empty());
    add_line(&mut args, "passwd".to_owned());
    add_line(&mut args, SERVICE_USER.to_owned());
    args
}

/// The arguments of `chown` that hand a directory to the service user.
pub fn chown_args(dir: &str) -> (args: Vec<String>)
    ensures
        texts(args@) == seq!["-R"@, SERVICE_USER@ + ":"@ + SERVICE_USER@, dir@],
{
    let mut args: Vec<String> = Vec::new();
    assert(texts(args@) == Seq::<Seq<char>>::empty());
    add_line(&mut args, "-R".to_owned());
    add_line(&mut args, SERVICE_USER.to_owned().concat(":").concat(SERVICE_USER));
    add_line(&mut args, dir.to_owned());
    args
}

/// What has happened while the material is handed to the service user.
#[derive(Clone, Copy, PartialEq, Eq, Structural, Debug)]
pub enum HandoverEvent {
    /// Whether there is a service user on this host.
    UserLookup { found: bool },
    /// Whether the directory has changed hands.
    Chown { done: bool },
}

/// What to do next while the material is handed to the service user.
#[derive(Debug)]
pub enum HandoverAction {
    /// Nothing: on a host without the service user there is nobody to hand
    /// the material to.
    Skip,
    /// Change the owner of the directory.
    Chown,
    /// Give the directory these permissions, and print the notice.
    Open { mode: u32, notice: String },
    /// Print the warning as an error.
    Warn(String),
}

/// What an action holds.
pub enum HandoverActionView {
    Skip,
    Chown,
    Open { mode: u32, notice: Seq<char> },
    Warn(Seq<char>),
}

impl View for HandoverAction {
    type V = HandoverActionView;

    open spec fn view(&self) -> HandoverActionView {
        match self {
            HandoverAction::Skip => HandoverActionView::Skip,
            HandoverAction::Chown => HandoverActionView::Chown,
            HandoverAction::Open { mode, notice } => HandoverActionView::Open {
                mode: *mode,
                notice: notice@,
            },
            HandoverAction::Warn(warning) => HandoverActionView::Warn(warning@),
        }
    }
}

/// The next action of the handover of a directory.
pub open spec fn handover(event: HandoverEvent, dir: Seq<char>) -> HandoverActionView {
    match event {
        HandoverEvent::UserLookup { found } => if found {
            HandoverActionView::Chown
        } else {
            HandoverActionView::Skip
        },
        HandoverEvent::Chown { done } => if done {
            HandoverActionView::Open {
                mode: DIR_MODE,
                notice: "Ownership of "@ + dir + " handed to portal-agent (the service user)"@,
            }
        } else {
            HandoverActionView::Warn(
                "warning: could not chown "@ + dir
                    + " — run: chown -R portal-agent:portal-agent "@ + dir,
            )
        },
    }
}

/// Decides the next action of the handover of a directory. The handover is
/// best-effort: without the service user it is skipped, and where it fails the
/// warning names the command to run by hand.
pub fn on_handover(event: HandoverEvent, dir: &str) -> (action: HandoverAction)
    ensures
        action@ == handover(event, dir@),
{
    match event {
        HandoverEvent::UserLookup { found } => if found {
            HandoverAction::Chown
        } else {
            HandoverAction::Skip
        },
        HandoverEvent::Chown { done } => if done {
            HandoverAction::Open {
                mode: DIR_MODE,
                notice: "Ownership of ".to_owned().concat(dir).concat(
                    " handed to portal-agent (the service user)",
                ),
            }
        } else {
            HandoverAction::Warn(
                "warning: could not chown ".to_owned().concat(dir).concat(
                    " — run: chown -R portal-agent:portal-agent ",
                ).concat(dir),
            )
        },
    }
}

/// What the current certificate gives the HTTP client for a renewal.
pub struct RenewalCredentials {
    pub identity: reqwest::Identity,
    pub ca: reqwest::Certificate,
}

/// Why there are no credentials for a renewal.
#[derive(Clone, Copy, PartialEq, Eq, Structural, Debug)]
pub enum CredentialsError {
    ReadCertificate,
    ReadKey,
    ReadCa,
    BuildIdentity,
    ParseCa,
}

impl CredentialsError {
    /// The words for the error.
    pub fn message(&self) -> (text: &'static str)
        ensures
            text@ == match *self {
                CredentialsError::ReadCertificate => "reading client.pem"@,
                CredentialsError::ReadKey => "reading client.key"@,
                CredentialsError::ReadCa => "reading portal-ca.pem"@,
                CredentialsError::BuildIdentity => "building client identity"@,
                CredentialsError::ParseCa => "parsing portal CA"@,
            },
    {
        match self {
            CredentialsError::ReadCertificate => "reading client.pem",
            CredentialsError::ReadKey => "reading client.key",
            CredentialsError::ReadCa => "reading portal-ca.pem",
            CredentialsError::BuildIdentity => "building client identity",
            CredentialsError::ParseCa => "parsing portal CA",
        }
    }
}

/// The credentials that the three current files make, or the first error on
/// the way. A file that could not be read is `None`. The identity is made of
/// the key and, behind it, the certificate.
pub open spec fn renewal_outcome(
    cert_pem: Option<Seq<u8>>,
    key_pem: Option<Seq<u8>>,
    ca_pem: Option<Seq<u8>>,
) -> Result<(reqwest::Identity, reqwest::Certificate), CredentialsError> {
    match (cert_pem, key_pem, ca_pem) {
        (None, _, _) => Err(CredentialsError::ReadCertificate),
        (_, None, _) => Err(CredentialsError::ReadKey),
        (_, _, None) => Err(CredentialsError::ReadCa),
        (Some(cert), Some(key), Some(ca)) => match pem_identity(key + cert) {
            None => Err(CredentialsError::BuildIdentity),
            Some(identity) => match pem_root_certificate(ca) {
                None => Err(CredentialsError::ParseCa),
                Some(ca) => Ok((identity, ca)),
            },
        },
    }
}

/// Takes the credentials for a renewal from the three current files. A file
/// that could not be read is `None`.
pub fn renewal_credentials(
    cert_pem: Option<Vec<u8>>,
    key_pem: Option<Vec<u8>>,
    ca_pem: Option<Vec<u8>>,
) -> (r: Result<RenewalCredentials, CredentialsError>)
    ensures
        renewal_outcome(opt_bytes(cert_pem), opt_bytes(key_pem), opt_bytes(ca_pem)) == match r {
            Ok(credentials) => Ok((credentials.identity, credentials.ca)),
            Err(e) => Err(e),
        },
{
    let mut cert_pem = match cert_pem {
        Some(pem) => pem,
        None => return Err(CredentialsError::ReadCertificate),
    };
    let key_pem = match key_pem {
        Some(pem) => pem,
        None => return Err(CredentialsError::ReadKey),
    };
    let ca_pem = match ca_pem {
        Some(pem) => pem,
        None => return Err(CredentialsError::ReadCa),
    };
    let mut identity_pem = key_pem;
    identity_pem.append(&mut cert_pem);
    let identity = match identity_from_pem(&identity_pem) {
        Ok(identity) => identity,
        Err(_) => return Err(CredentialsError::BuildIdentity),
    };
    let ca = match certificate_from_pem(&ca_pem) {
        Ok(ca) => ca,
        Err(_) => return Err(CredentialsError::ParseCa),
    };
    Ok(RenewalCredentials { identity, ca })
}

/// A step of the swap that puts renewed material in place.
#[derive(Debug)]
pub enum SwapStep {
    /// Write a new file, beside the one that it will replace.
    Stage { file: MaterialFile, target: String },
    /// Copy a file, with its permissions.
    Copy { from: String, to: String },
    /// Rename a file, in place of the one that has that name.
    Activate { from: String, to: String },
    /// Remove a file, if it is there.
    Discard { name: String },
}

/// What a step holds.
pub enum SwapStepView {
    Stage { file: FileView, target: Seq<char> },
    Copy { from: Seq<char>, to: Seq<char> },
    Activate { from: Seq<char>, to: Seq<char> },
    Discard { name: Seq<char> },
}

impl View for SwapStep {
    type V = SwapStepView;

    open spec fn view(&self) -> SwapStepView {
        match self {
            SwapStep::Stage { file, target } => SwapStepView::Stage {
                file: file@,
                target: target@,
            },
            SwapStep::Copy { from, to } => SwapStepView::Copy { from: from@, to: to@ },
            SwapStep::Activate { from, to } => SwapStepView::Activate { from: from@, to: to@ },
            SwapStep::Discard { name } => SwapStepView::Discard { name: name@ },
        }
    }
}

/// The words for a step that has failed.
pub open spec fn step_failure(step: SwapStepView) -> Seq<char> {
    match step {
        SwapStepView::Stage { target, .. } => "writing new "@ + target,
        SwapStepView::Copy { from, .. } => "writing new "@ + from,
        SwapStepView::Activate { to, .. } => "writing new "@ + to,
        SwapStepView::Discard { name } => "removing "@ + name,
    }
}

impl SwapStep {
    /// The words for a step that has failed.
    pub fn failure(&self) -> (text: String)
        ensures
            text@ == step_failure(self@),
    {
        match self {
            SwapStep::Stage { target, .. } => "writing new ".to_owned().concat(target.as_str()),
            SwapStep::Copy { from, .. } => "writing new ".to_owned().concat(from.as_str()),
            SwapStep::Activate { to, .. } => "writing new ".to_owned().concat(to.as_str()),
            SwapStep::Discard { name } => "removing ".to_owned().concat(name.as_str()),
        }
    }
}

/// What the steps of a list hold.
pub open spec fn swap_views(steps: Seq<SwapStep>) -> Seq<SwapStepView> {
    Seq::new(steps.len(), |i: int| steps[i]@)
}

/// The swap of the private key and the certificate: both new files are written,
/// and the old key is kept aside, before anything is replaced. The certificate
/// file keeps its permissions.
pub open spec fn swap(
    key_pem: Seq<char>,
    certificate_pem: Seq<char>,
    certificate_mode: u32,
) -> Seq<SwapStepView> {
    seq![
        SwapStepView::Stage {
            file: FileView { name: "client.key.new"@, contents: key_pem, mode: KEY_MODE },
            target: "client.key"@,
        },
        SwapStepView::Stage {
            file: FileView {
                name: "client.pem.new"@,
                contents: certificate_pem,
                mode: certificate_mode,
            },
            target: "client.pem"@,
        },
        SwapStepView::Copy { from: "client.key"@, to: "client.key.old"@ },
        SwapStepView::Activate { from: "client.key.new"@, to: "client.key"@ },
        SwapStepView::Activate { from: "client.pem.new"@, to: "client.pem"@ },
    ]
}

/// What takes away the files that a swap has used on the way.
pub open spec fn leftovers() -> Seq<SwapStepView> {
    seq![
        SwapStepView::Discard { name: "client.key.new"@ },
        SwapStepView::Discard { name: "client.pem.new"@ },
        SwapStepView::Discard { name: "client.key.old"@ },
    ]
}

/// What takes back a swap that has failed after `done` steps: where the new key
/// is in place already, the old one comes back.
pub open spec fn undo(done: int) -> Seq<SwapStepView> {
    if done == 4 {
        seq![SwapStepView::Activate { from: "client.key.old"@, to: "client.key"@ }] + leftovers()
    } else {
        leftovers()
    }
}

/// Appends a step.
fn add_step(steps: &mut Vec<SwapStep>, step: SwapStep)
    ensures
        swap_views(final(steps)@) == swap_views(old(steps)@).push(step@),
{
    steps.push(step);
    assert(swap_views(steps@) == swap_views(old(steps)@).push(step@));
}

/// The steps that put a renewed key and certificate in place, where the
/// certificate file has these permissions.
pub fn swap_steps(key_pem: &str, certificate_pem: &str, certificate_mode: u32) -> (steps: Vec<
    SwapStep,
>)
    ensures
        swap_views(steps@) == swap(key_pem@, certificate_pem@, certificate_mode),
{
    let mut steps: Vec<SwapStep> = Vec::new();
    assert(swap_views(steps@) == Seq::<SwapStepView>::empty());
    let key = MaterialFile {
        name: "client.key.new".to_owned(),
        contents: key_pem.to_owned(),
        mode: KEY_MODE,
    };
    let certificate = MaterialFile {
        name: "client.pem.new".to_owned(),
        contents: certificate_pem.to_owned(),
        mode: certificate_mode,
    };
    add_step(&mut steps, SwapStep::Stage { file: key, target: "client.key".to_owned() });
    add_step(&mut steps, SwapStep::Stage { file: certificate, target: "client.pem".to_owned() });
    add_step(
        &mut steps,
        SwapStep::Copy { from: "client.key".to_owned(), to: "client.key.old".to_owned() },
    );
    add_step(
        &mut steps,
        SwapStep::Activate { from: "client.key.new".to_owned(), to: "client.key".to_owned() },
    );
    add_step(
        &mut steps,
        SwapStep::Activate { from: "client.pem.new".to_owned(), to: "client.pem".to_owned() },
    );
    steps
}

/// Appends the steps that take away the files that a swap has used on the way.
fn add_leftovers(steps: &mut Vec<SwapStep>)
    ensures
        swap_views(final(steps)@) == swap_views(old(steps)@) + leftovers(),
{
    add_step(steps, SwapStep::Discard { name: "client.key.new".to_owned() });
    add_step(steps, SwapStep::Discard { name: "client.pem.new".to_owned() });
    add_step(steps, SwapStep::Discard { name: "client.key.old".to_owned() });
    assert(swap_views(steps@) == swap_views(old(steps)@) + leftovers());
}

/// The steps that follow a complete swap.
pub fn cleanup_steps() -> (steps: Vec<SwapStep>)
    ensures
        swap_views(steps@) == leftovers(),
{
    let mut steps: Vec<SwapStep> = Vec::new();
    add_leftovers(&mut steps);
    assert(swap_views(steps@) == leftovers());
    steps
}

/// The steps that follow a swap that has failed after `done` steps.
pub fn undo_steps(done: usize) -> (steps: Vec<SwapStep>)
    ensures
        swap_views(steps@) == undo(done as int),
{
    let mut steps: Vec<SwapStep> = Vec::new();
    assert(swap_views(steps@) == Seq::<SwapStepView>::empty());
    if done == 4 {
        add_step(
            &mut steps,
            SwapStep::Activate { from: "client.key.old".to_owned(), to: "client.key".to_owned() },
        );
    }
    add_leftovers(&mut steps);
    assert(swap_views(steps@) == undo(done as int));
    steps
}

/// The lines that tell how a renewal went.
pub fn renewal_report(expires_at: &str) -> (lines: Vec<String>)
    ensures
        texts(lines@) == seq![
            "Certificate renewed; valid until "@ + expires_at@,
            "Restart the agent to reconnect with the new certificate."@,
        ],
{
    let mut lines: Vec<String> = Vec::new();
    assert(texts(lines@) == Seq::<Seq<char>>::empty());
    add_line(&mut lines, "Certificate renewed; valid until ".to_owned().concat(expires_at));
    add_line(&mut lines, "Restart the agent to reconnect with the new certificate.".to_owned());
    lines
}

/// The files of a directory by name: what each holds, and its permissions.
pub type Directory = Map<Seq<char>, (Seq<char>, u32)>;

/// A directory after one step.
pub open spec fn after_step(dir: Directory, step: SwapStepView) -> Directory {
    match step {
        SwapStepView::Stage { file, .. } => dir.insert(file.name, (file.contents, file.mode)),
        SwapStepView::Copy { from, to } => dir.insert(to, dir[from]),
        SwapStepView::Activate { from, to } => dir.remove(from).insert(to, dir[from]),
        SwapStepView::Discard { name } => dir.remove(name),
    }
}

/// A directory after a list of steps.
pub open spec fn after_steps(dir: Directory, steps: Seq<SwapStepView>) -> Directory
    decreases steps.len(),
{
    if steps.len() == 0 {
        dir
    } else {
        after_step(after_steps(dir, steps.drop_last()), steps.last())
    }
}

/// A directory after a step that has failed: a write may have left part of its
/// file, a rename has left everything as it was.
pub open spec fn after_failed_step(
    dir: Directory,
    step: SwapStepView,
    partial: Option<(Seq<char>, u32)>,
) -> Directory {
    match (step, partial) {
        (SwapStepView::Stage { file, .. }, Some(part)) => dir.insert(file.name, part),
        (SwapStepView::Copy { to, .. }, Some(part)) => dir.insert(to, part),
        _ => dir,
    }
}

/// Tells whether a swap uses a name on the way.
pub open spec fn temporary(name: Seq<char>) -> bool {
    name == "client.key.new"@ || name == "client.pem.new"@ || name == "client.key.old"@
}

proof fn lemma_names_are_distinct()
    ensures
        "client.key"@ != "client.pem"@,
        "client.key.new"@ != "client.pem.new"@,
        "client.key.new"@ != "client.key.old"@,
        "client.pem.new"@ != "client.key.old"@,
        !temporary("client.key"@),
        !temporary("client.pem"@),
{
    reveal_strlit("client.key");
    reveal_strlit("client.pem");
    reveal_strlit("client.key.new");
    reveal_strlit("client.pem.new");
    reveal_strlit("client.key.old");
    assert("client.key"@[7] != "client.pem"@[7]);
    assert("client.key.new"@[7] != "client.pem.new"@[7]);
    assert("client.key.new"@[11] != "client.key.old"@[11]);
    assert("client.pem.new"@[7] != "client.key.old"@[7]);
    assert("client.key"@.len() == 10 && "client.pem"@.len() == 10);
    assert("client.key.new"@.len() == 14 && "client.pem.new"@.len() == 14);
    assert("client.key.old"@.len() == 14);
}

proof fn lemma_next_step(dir: Directory, steps: Seq<SwapStepView>, n: int)
    requires
        0 <= n < steps.len(),
    ensures
        after_steps(dir, steps.take(n + 1)) == after_step(
            after_steps(dir, steps.take(n)),
            steps[n],
        ),
{
    assert(steps.take(n + 1).drop_last() == steps.take(n));
    assert(steps.take(n + 1).last() == steps[n]);
}

proof fn lemma_steps_concat(dir: Directory, a: Seq<SwapStepView>, b: Seq<SwapStepView>)
    ensures
        after_steps(dir, a + b) == after_steps(after_steps(dir, a), b),
    decreases b.len(),
{
    if b.len() == 0 {
        assert(a + b == a);
    } else {
        assert((a + b).drop_last() == a + b.drop_last());
        assert((a + b).last() == b.last());
        lemma_steps_concat(dir, a, b.drop_last());
    }
}

/// The files after the first `done` steps of a swap.
proof fn lemma_swap_progress(
    dir: Directory,
    key_pem: Seq<char>,
    certificate_pem: Seq<char>,
    mode: u32,
    done: int,
)
    requires
        0 <= done <= 5,
        dir.contains_key("client.key"@),
    ensures
        ({
            let now = after_steps(dir, swap(key_pem, certificate_pem, mode).take(done));
            &&& now.get("client.key"@) == if done < 4 {
                dir.get("client.key"@)
            } else {
                Some((key_pem, KEY_MODE))
            }
            &&& now.get("client.pem"@) == if done < 5 {
                dir.get("client.pem"@)
            } else {
                Some((certificate_pem, mode))
            }
            &&& 1 <= done < 4 ==> now.get("client.key.new"@) == Some((key_pem, KEY_MODE))
            &&& 2 <= done < 5 ==> now.get("client.pem.new"@) == Some((certificate_pem, mode))
            &&& 3 <= done ==> now.get("client.key.old"@) == dir.get("client.key"@)
            &&& forall|name: Seq<char>|
                name != "client.key"@ && name != "client.pem"@ && !temporary(name)
                    ==> #[trigger] now.get(name) == dir.get(name)
        }),
{
    lemma_names_are_distinct();
    let steps = swap(key_pem, certificate_pem, mode);
    assert(steps.take(0) == Seq::<SwapStepView>::empty());
    lemma_next_step(dir, steps, 0);
    lemma_next_step(dir, steps, 1);
    lemma_next_step(dir, steps, 2);
    lemma_next_step(dir, steps, 3);
    lemma_next_step(dir, steps, 4);
}

/// Taking away what a swap has used on the way takes away nothing else.
proof fn lemma_leftovers(dir: Directory)
    ensures
        forall|name: Seq<char>|
            #[trigger] after_steps(dir, leftovers()).get(name) == if temporary(name) {
                None
            } else {
                dir.get(name)
            },
{
    let steps = leftovers();
    assert(steps.take(0) == Seq::<SwapStepView>::empty());
    assert(steps.take(3) == steps);
    lemma_next_step(dir, steps, 0);
    lemma_next_step(dir, steps, 1);
    lemma_next_step(dir, steps, 2);
}

/// A renewal that fails changes nothing: whichever step of the swap fails, and
/// whatever part of its file it has left, once the swap is taken back every
/// file is as it was, the old key beside the old certificate, and none is left
/// under a temporary name.
pub proof fn law_failed_renewal_changes_nothing(
    dir: Directory,
    key_pem: Seq<char>,
    certificate_pem: Seq<char>,
    certificate_mode: u32,
    done: int,
    partial: Option<(Seq<char>, u32)>,
    name: Seq<char>,
)
    requires
        dir.contains_key("client.key"@),
        0 <= done < swap(key_pem, certificate_pem, certificate_mode).len(),
    ensures
        ({
            let steps = swap(key_pem, certificate_pem, certificate_mode);
            let failed = after_failed_step(
                after_steps(dir, steps.take(done)),
                steps[done],
                partial,
            );
            let now = after_steps(failed, undo(done));
            &&& now.get("client.key"@) == dir.get("client.key"@)
            &&& now.get("client.pem"@) == dir.get("client.pem"@)
            &&& now.get(name) == if temporary(name) {
                None
            } else {
                dir.get(name)
            }
        }),
{
    lemma_names_are_distinct();
    lemma_swap_progress(dir, key_pem, certificate_pem, certificate_mode, done);
    let steps = swap(key_pem, certificate_pem, certificate_mode);
    let before = after_steps(dir, steps.take(done));
    let failed = after_failed_step(before, steps[done], partial);
    assert forall|other: Seq<char>| !temporary(other) implies #[trigger] failed.get(other)
        == before.get(other) by {
        lemma_failed_step_keeps_the_rest(
            before,
            key_pem,
            certificate_pem,
            certificate_mode,
            done,
            partial,
            other,
        );
    }
    if done == 4 {
        assert(steps[4] == (SwapStepView::Activate { from: "client.pem.new"@, to: "client.pem"@ }));
        assert(failed == before);
        assert(failed.get("client.key.old"@) == dir.get("client.key"@));
        let back = seq![SwapStepView::Activate { from: "client.key.old"@, to: "client.key"@ }];
        assert(back.drop_last() == Seq::<SwapStepView>::empty());
        let restored = after_step(failed, back[0]);
        assert(after_steps(failed, back) == restored) by {
            reveal_with_fuel(after_steps, 2);
        }
        assert(restored.get("client.key"@) == dir.get("client.key"@));
        assert forall|other: Seq<char>| !temporary(other) && other != "client.key"@ implies
            #[trigger] restored.get(other) == before.get(other) by {}
        lemma_steps_concat(failed, back, leftovers());
        lemma_leftovers(restored);
    } else {
        lemma_leftovers(failed);
    }
}

/// A step that fails leaves every file as it was but those under a temporary
/// name.
proof fn lemma_failed_step_keeps_the_rest(
    dir: Directory,
    key_pem: Seq<char>,
    certificate_pem: Seq<char>,
    certificate_mode: u32,
    done: int,
    partial: Option<(Seq<char>, u32)>,
    name: Seq<char>,
)
    requires
        0 <= done < 5,
        !temporary(name),
    ensures
        after_failed_step(
            dir,
            swap(key_pem, certificate_pem, certificate_mode)[done],
            partial,
        ).get(name) == dir.get(name),
{
}

/// A renewal that succeeds swaps both files: the key file holds the new key,
/// readable by its owner alone, the certificate file holds the new certificate
/// with its permissions, every other file is as it was, and none is left under
/// a temporary name.
pub proof fn law_complete_renewal_swaps_both(
    dir: Directory,
    key_pem: Seq<char>,
    certificate_pem: Seq<char>,
    certificate_mode: u32,
    name: Seq<char>,
)
    requires
        dir.contains_key("client.key"@),
    ensures
        ({
            let steps = swap(key_pem, certificate_pem, certificate_mode);
            let now = after_steps(after_steps(dir, steps), leftovers());
            now.get(name) == if name == "client.key"@ {
                Some((key_pem, KEY_MODE))
            } else if name == "client.pem"@ {
                Some((certificate_pem, certificate_mode))
            } else if temporary(name) {
                None
            } else {
                dir.get(name)
            }
        }),
{
    lemma_names_are_distinct();
    let steps = swap(key_pem, certificate_pem, certificate_mode);
    lemma_swap_progress(dir, key_pem, certificate_pem, certificate_mode, 5);
    assert(steps.take(5) == steps);
    lemma_leftovers(after_steps(dir, steps));
}

/// Between whichever steps a swap is broken off without being taken back, say
/// by a power cut, nothing is lost: the key file and the certificate file each
/// are wholly the old one or wholly the new one, and where the new key stands
/// beside the old certificate, the old key and the new certificate are there
/// under their temporary names.
pub proof fn law_broken_off_swap_loses_nothing(
    dir: Directory,
    key_pem: Seq<char>,
    certificate_pem: Seq<char>,
    certificate_mode: u32,
    done: int,
)
    requires
        dir.contains_key("client.key"@),
        0 <= done <= swap(key_pem, certificate_pem, certificate_mode).len(),
    ensures
        ({
            let steps = swap(key_pem, certificate_pem, certificate_mode);
            let now = after_steps(dir, steps.take(done));
            let old_key = now.get("client.key"@) == dir.get("client.key"@);
            let old_certificate = now.get("client.pem"@) == dir.get("client.pem"@);
            let new_key = now.get("client.key"@) == Some((key_pem, KEY_MODE));
            let new_certificate = now.get("client.pem"@) == Some(
                (certificate_pem, certificate_mode),
            );
            ||| old_key && old_certificate
            ||| new_key && new_certificate
            ||| new_key && old_certificate && now.get("client.key.old"@) == dir.get("client.key"@)
                && now.get("client.pem.new"@) == Some((certificate_pem, certificate_mode))
        }),
{
    lemma_swap_progress(dir, key_pem, certificate_pem, certificate_mode, done);
}

/// The private key goes into the key file and nowhere else: the key file is
/// readable by its owner alone, and no other file depends on the key.
pub proof fn law_key_goes_into_its_file_alone(
    enrolled: EnrollResponse,
    key_pem: Seq<char>,
    other_key_pem: Seq<char>,
    i: int,
)
    requires
        0 < i < material_files(enrolled, key_pem).len(),
    ensures
        material_files(enrolled, key_pem)[0] == (FileView {
            name: "client.key"@,
            contents: key_pem,
            mode: KEY_MODE,
        }),
        material_files(enrolled, key_pem)[i] == material_files(enrolled, other_key_pem)[i],
{
}

/// Slashes behind the base URL change nothing.
pub proof fn law_trailing_slashes_are_ignored(base_url: Seq<char>, n: nat, exchange: Exchange)
    ensures
        endpoint(base_url + Seq::new(n, |i: int| '/'), exchange) == endpoint(base_url, exchange),
    decreases n,
{
    let slashes = base_url + Seq::new(n, |i: int| '/');
    if n == 0 {
        assert(slashes == base_url);
    } else {
        let fewer = (n - 1) as nat;
        assert(slashes.drop_last() == base_url + Seq::new(fewer, |i: int| '/'));
        law_trailing_slashes_are_ignored(base_url, fewer, exchange);
    }
}

/// The portal takes a request under its base URL, without the slashes behind
/// it, at the place for that kind of request.
pub proof fn law_requests_go_under_the_base_url(base_url: Seq<char>)
    requires
        base_url.len() > 0,
        base_url[base_url.len() - 1] != '/',
    ensures
        endpoint(base_url, Exchange::Enrollment) == base_url + "/v1/gameserver/enroll"@,
        endpoint(base_url, Exchange::Renewal) == base_url + "/v1/gameserver/renew"@,
{
}

/// A rejection tells the status and the whole body of the portal's response.
pub proof fn law_rejections_tell_status_and_body(status: Seq<char>, body: Seq<char>)
    ensures
        rejection(Exchange::Enrollment, status, body) == "enrollment rejected ("@ + status + "): "@
            + body,
        rejection(Exchange::Renewal, status, body) == "renewal rejected ("@ + status + "): "@
            + body,
{
}

/// An enrollment leaves the key, the certificate and the CA as they came, each
/// in its file with its permissions; a demo token, whatever it is, adds the
/// file with the demo settings, and without one there is none.
pub proof fn law_enrollment_leaves_what_came(enrolled: EnrollResponse, key_pem: Seq<char>)
    ensures
        ({
            let files = material_files(enrolled, key_pem);
            &&& files.len() == if enrolled.demo_token@.len() > 0 {
                4int
            } else {
                3int
            }
            &&& files[0].name == "client.key"@ && files[0].contents == key_pem && files[0].mode
                == 0o600
            &&& files[1].name == "client.pem"@ && files[1].contents == enrolled.certificate_pem@
                && files[1].mode == 0o644
            &&& files[2].name == "portal-ca.pem"@ && files[2].contents
                == enrolled.ca_certificate_pem@ && files[2].mode == 0o644
            &&& files.len() == 4 ==> files[3].name == "matchzy_portal.cfg"@ && files[3].mode
                == 0o640 && files[3].contents == demo_settings(
                enrolled.demo_upload_url@,
                enrolled.demo_token@,
            )
        }),
{
}

/// The demo settings have the upload URL and the token in them, whole, each in
/// its setting.
pub proof fn law_demo_settings_hold_url_and_token(upload_url: Seq<char>, token: Seq<char>)
    ensures
        demo_settings(upload_url, token)
            == "// Written by portal-server-agent enroll. Server-scoped demo\n"@
            + "// upload settings for csgo/cfg/MatchZy/config.cfg — do NOT\n"@
            + "// put these in per-match cvars.\n"@ + "matchzy_demo_upload_url \""@ + upload_url
            + "\"\nmatchzy_demo_upload_header_key \"Authorization\"\n"@
            + "matchzy_demo_upload_header_value \"Bearer "@ + token + "\"\n"@,
{
}

/// The report of an enrollment names the server, the end of the certificate and
/// the files of the directory, and the demo settings exactly where there is a
/// token for them.
pub proof fn law_enrollment_reports_the_files(enrolled: EnrollResponse, dir: Seq<char>)
    ensures
        ({
            let lines = enroll_lines(enrolled, dir);
            let demo = enrolled.demo_token@.len() > 0;
            &&& lines.len() == if demo {
                17int
            } else {
                9int
            }
            &&& lines[0] == "Enrolled as server "@ + enrolled.server_name@ + " ("@
                + enrolled.server_id@ + ")"@
            &&& lines[1] == "Certificate valid until "@ + enrolled.expires_at@
            &&& lines[2] == "Material written to "@ + dir
                + "/ (client.key, client.pem, portal-ca.pem)"@
            &&& lines[3] == ""@
            &&& lines[4] == "Set in /etc/portal/portal-server-agent.env:"@
            &&& lines[5]
                == "  PORTAL_AGENT_URL=wss://agents.<portal-domain>/v1/gameserver/agent/ws"@
            &&& lines[6] == "  PORTAL_AGENT_CERT="@ + dir + "/client.pem"@
            &&& lines[7] == "  PORTAL_AGENT_KEY="@ + dir + "/client.key"@
            &&& lines[8] == "  PORTAL_AGENT_CA="@ + dir + "/portal-ca.pem"@
            &&& demo ==> {
                &&& lines[9] == ""@
                &&& lines[10]
                    == "Add to csgo/cfg/MatchZy/config.cfg (server-scoped demo upload, survives"@
                &&& lines[11] == "cvar restores - do NOT put these in per-match cvars):"@
                &&& lines[12] == "  matchzy_demo_upload_url \""@ + enrolled.demo_upload_url@
                    + "\""@
                &&& lines[13] == "  matchzy_demo_upload_header_key \"Authorization\""@
                &&& lines[14] == "  matchzy_demo_upload_header_value \"Bearer "@
                    + enrolled.demo_token@ + "\""@
                &&& lines[15] == ""@
                &&& lines[16] == "(Also written to "@ + dir
                    + "/matchzy_portal.cfg for config management.)"@
            }
        }),
{
}

/// The handover goes on only where there is a service user, opens the directory
/// only where it has changed hands, and otherwise names the command to run.
pub proof fn law_handover_goes_step_by_step(dir: Seq<char>)
    ensures
        handover(HandoverEvent::UserLookup { found: false }, dir) == HandoverActionView::Skip,
        handover(HandoverEvent::UserLookup { found: true }, dir) == HandoverActionView::Chown,
        handover(HandoverEvent::Chown { done: true }, dir) == (HandoverActionView::Open {
            mode: 0o750,
            notice: "Ownership of "@ + dir + " handed to portal-agent (the service user)"@,
        }),
        handover(HandoverEvent::Chown { done: false }, dir) == HandoverActionView::Warn(
            "warning: could not chown "@ + dir + " — run: chown -R portal-agent:portal-agent "@
                + dir,
        ),
{
}

/// A renewal shows the current key with the current certificate behind it, and
/// trusts the current CA; the first file that is missing, and then the first
/// that the client does not take, decides the error.
pub proof fn law_renewal_shows_the_current_material(
    cert: Seq<u8>,
    key: Seq<u8>,
    ca: Seq<u8>,
    cert_file: Option<Seq<u8>>,
    key_file: Option<Seq<u8>>,
    ca_file: Option<Seq<u8>>,
)
    ensures
        renewal_outcome(None, key_file, ca_file) == Err::<
            (reqwest::Identity, reqwest::Certificate),
            CredentialsError,
        >(CredentialsError::ReadCertificate),
        renewal_outcome(Some(cert), None, ca_file) == Err::<
            (reqwest::Identity, reqwest::Certificate),
            CredentialsError,
        >(CredentialsError::ReadKey),
        renewal_outcome(Some(cert), Some(key), None) == Err::<
            (reqwest::Identity, reqwest::Certificate),
            CredentialsError,
        >(CredentialsError::ReadCa),
        pem_identity(key + cert) is None ==> renewal_outcome(Some(cert), Some(key), Some(ca))
            == Err::<(reqwest::Identity, reqwest::Certificate), CredentialsError>(
            CredentialsError::BuildIdentity,
        ),
        pem_identity(key + cert) matches Some(identity) ==> {
            &&& pem_root_certificate(ca) is None ==> renewal_outcome(
                Some(cert),
                Some(key),
                Some(ca),
            ) == Err::<(reqwest::Identity, reqwest::Certificate), CredentialsError>(
                CredentialsError::ParseCa,
            )
            &&& pem_root_certificate(ca) matches Some(root) ==> renewal_outcome(
                Some(cert),
                Some(key),
                Some(ca),
            ) == Ok::<(reqwest::Identity, reqwest::Certificate), CredentialsError>(
                (identity, root),
            )
        },
{
}

/// The words for a failed step name the file that it was about.
pub proof fn law_failed_steps_name_their_file(
    file: FileView,
    from: Seq<char>,
    to: Seq<char>,
)
    ensures
        step_failure(SwapStepView::Stage { file, target: to }) == "writing new "@ + to,
        step_failure(SwapStepView::Copy { from, to }) == "writing new "@ + from,
        step_failure(SwapStepView::Activate { from, to }) == "writing new "@ + to,
        step_failure(SwapStepView::Discard { name: from }) == "removing "@ + from,
{
}

/// What a file, a step or an action holds is its own names, texts and
/// permissions, and a list has them one for one.
pub proof fn law_enrollment_values_keep_their_contents(
    files: Seq<MaterialFile>,
    steps: Seq<SwapStep>,
    i: int,
    action: HandoverAction,
)
    ensures
        file_views(files).len() == files.len(),
        swap_views(steps).len() == steps.len(),
        0 <= i < files.len() ==> file_views(files)[i].name == files[i].name@
            && file_views(files)[i].contents == files[i].contents@ && file_views(files)[i].mode
            == files[i].mode,
        0 <= i < steps.len() ==> match steps[i] {
            SwapStep::Stage { file, target } => {
                &&& swap_views(steps)[i] matches SwapStepView::Stage { file: f, target: t }
                &&& f.name == file.name@ && f.contents == file.contents@ && f.mode == file.mode
                &&& t == target@
            },
            SwapStep::Copy { from, to } => swap_views(steps)[i] == (SwapStepView::Copy {
                from: from@,
                to: to@,
            }),
            SwapStep::Activate { from, to } => swap_views(steps)[i] == (SwapStepView::Activate {
                from: from@,
                to: to@,
            }),
            SwapStep::Discard { name } => swap_views(steps)[i] == (SwapStepView::Discard {
                name: name@,
            }),
        },
        action matches HandoverAction::Skip ==> action@ == HandoverActionView::Skip,
        action matches HandoverAction::Chown ==> action@ == HandoverActionView::Chown,
        action matches HandoverAction::Open { mode, notice } ==> action@ == (
        HandoverActionView::Open { mode, notice: notice@ }),
        action matches HandoverAction::Warn(warning) ==> action@ == HandoverActionView::Warn(
            warning@,
        ),
{
}

/// A swap uses three names on the way, and no file of the material has one of
/// them.
pub proof fn law_temporary_names_are_three(name: Seq<char>)
    ensures
        temporary(name) <==> name == "client.key.new"@ || name == "client.pem.new"@ || name
            == "client.key.old"@,
        name == "client.key"@ || name == "client.pem"@ || name == "portal-ca.pem"@ || name
            == "matchzy_portal.cfg"@ ==> !temporary(name),
{
    lemma_names_are_distinct();
    reveal_strlit("client.key.new");
    reveal_strlit("client.pem.new");
    reveal_strlit("client.key.old");
    reveal_strlit("portal-ca.pem");
    reveal_strlit("matchzy_portal.cfg");
    assert("client.key.new"@.len() == 14 && "client.pem.new"@.len() == 14
        && "client.key.old"@.len() == 14);
    assert("portal-ca.pem"@.len() == 13 && "matchzy_portal.cfg"@.len() == 18);
}

/// Where a key and a signing request belong together, one keypair is behind
/// both: it was newly made, the key is its private key, and the request was
/// built for it and encoded.
pub proof fn law_one_keypair_is_behind_key_and_request(
    key_pem: Seq<char>,
    csr_pem: Seq<char>,
) -> (r: (KeyPair, CertificateSigningRequest))
    requires
        belong_together(key_pem, csr_pem),
    ensures
        generated(Ok(r.0)),
        is_pem_of_key(key_pem, r.0),
        request_built(r.0, Ok(r.1)),
        request_encoded(r.1, Ok(csr_pem)),
{
    choose|key: KeyPair, csr: CertificateSigningRequest|
        #![trigger request_built(key, Ok(csr))]
        generated(Ok(key)) && is_pem_of_key(key_pem, key) && request_built(key, Ok(csr))
            && request_encoded(csr, Ok(csr_pem))
}

/// Each error has its own failure behind it: the keypair could not be made, the
/// request for a made keypair could not be built, or a built request could not
/// be encoded.
pub proof fn law_each_error_has_its_own_failure()
    ensures
        step_failed(KeyRequestError::GenerateKey) ==> exists|cause: rcgen::Error| #[trigger]
            generated(Err(cause)),
        step_failed(KeyRequestError::BuildCsr) ==> exists|key: KeyPair, cause: rcgen::Error|
            generated(Ok(key)) && #[trigger] request_built(key, Err(cause)),
        step_failed(KeyRequestError::EncodeCsr) ==> exists|
            csr: CertificateSigningRequest,
            cause: rcgen::Error,
        | #[trigger] request_encoded(csr, Err(cause)),
{
}

} // verus!
