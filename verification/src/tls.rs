//! The certificates that the webhook serves: how they are issued and when they expire.
use crate::text::{concat3, texts};
use vstd::prelude::*;
use vstd::utf8::{encode_utf8, is_ascii_chars};

verus! {

/// How long a certificate is valid: twelve hours.
pub const CERT_LIFETIME_SECS: i64 = 43_200;

/// The first second of year 0.
pub const FIRST_DATE: i64 = -62_167_219_200;

/// The last second of year 9999.
pub const LAST_DATE: i64 = 253_402_300_799;

/// What a certificate is issued for.
#[derive(Debug)]
pub struct CertRequest {
    pub common_name: String,
    pub dns_names: Vec<String>,
    pub not_before: i64,
    pub not_after: i64,
}

pub struct CertRequestView {
    pub common_name: Seq<char>,
    pub dns_names: Seq<Seq<char>>,
    pub not_before: i64,
    pub not_after: i64,
}

impl View for CertRequest {
    type V = CertRequestView;

    open spec fn view(&self) -> CertRequestView {
        CertRequestView {
            common_name: self.common_name@,
            dns_names: texts(self.dns_names@),
            not_before: self.not_before,
            not_after: self.not_after,
        }
    }
}

/// Whether a moment can be written into a certificate.
pub open spec fn datable(moment: int) -> bool {
    FIRST_DATE <= moment <= LAST_DATE
}

/// Whether a certificate that starts at a moment can be written.
pub open spec fn issuable(now: i64) -> bool {
    datable(now as int) && datable(now + CERT_LIFETIME_SECS)
}

impl CertRequestView {
    /// Whether a certificate can be written for the request: its dates have years of four
    /// digits and its names are ASCII.
    pub open spec fn writable(self) -> bool {
        &&& datable(self.not_before as int)
        &&& datable(self.not_after as int)
        &&& forall|i: int| 0 <= i < self.dns_names.len() ==> is_ascii_chars(#[trigger] self.dns_names[i])
    }
}

/// The request for a service: its name, the two names under which the cluster reaches it,
/// and a validity that starts now.
pub open spec fn service_request(svc_name: Seq<char>, namespace: Seq<char>, now: i64) -> CertRequestView {
    CertRequestView {
        common_name: svc_name,
        dns_names: seq![
            svc_name + "."@ + namespace + ".svc"@,
            svc_name + "."@ + namespace + ".svc.cluster.local"@,
        ],
        not_before: now,
        not_after: (now + CERT_LIFETIME_SECS) as i64,
    }
}

/// The data of the first PEM block of some bytes, which `x509_parser` reads.
pub uninterp spec fn pem_contents(bytes: Seq<u8>) -> Option<Seq<u8>>;

/// The end of the validity of a certificate in DER, which `x509_parser` reads, in seconds
/// of Unix time.
pub uninterp spec fn x509_not_after(der: Seq<u8>) -> Option<i64>;

/// The end of the validity of a certificate in PEM.
pub open spec fn pem_not_after(pem: Seq<u8>) -> Option<i64> {
    match pem_contents(pem) {
        Some(der) => x509_not_after(der),
        None => None,
    }
}

/// Seconds of Unix time without a sign: those before 1970 wrap around.
pub open spec fn unsigned_seconds(seconds: i64) -> u64 {
    if seconds >= 0 {
        seconds as u64
    } else {
        (seconds + 0x1_0000_0000_0000_0000) as u64
    }
}

/// When a certificate expires; one that cannot be read has expired at the epoch.
pub open spec fn expiry_of(not_after: Option<i64>) -> u64 {
    match not_after {
        Some(seconds) => unsigned_seconds(seconds),
        None => 0,
    }
}

/// When a certificate in PEM expires.
pub open spec fn cert_expiry(pem: Seq<u8>) -> u64 {
    expiry_of(pem_not_after(pem))
}

/// Calls `x509_parser::pem::parse_x509_pem` and keeps the decoded data.
#[verifier::external_body]
fn parse_pem(bytes: &[u8]) -> (contents: Option<Vec<u8>>)
    ensures
        pem_contents(bytes@) == match contents {
            Some(contents) => Some(contents@),
            None => None,
        },
{
    x509_parser::pem::parse_x509_pem(bytes).ok().map(|parsed| parsed.1.contents)
}

/// Calls `x509_parser::parse_x509_certificate` and keeps the end of the validity.
#[verifier::external_body]
fn parse_not_after(der: &[u8]) -> (not_after: Option<i64>)
    ensures
        not_after == x509_not_after(der@),
{
    x509_parser::parse_x509_certificate(der).ok().map(
        |parsed| parsed.1.tbs_certificate.validity.not_after.timestamp(),
    )
}

/// When a certificate expires, given the end of its validity, if that could be read.
pub fn expiry_from(not_after: Option<i64>) -> (expiry: u64)
    ensures
        expiry == expiry_of(not_after),
{
    match not_after {
        Some(seconds) => {
            proof {
                assert(seconds < 0 ==> (seconds as u64) == (seconds + 0x1_0000_0000_0000_0000)) by (bit_vector);
            }
            seconds as u64
        },
        None => 0,
    }
}

/// When a certificate in PEM expires.
pub fn get_cert_expiry(cert_pem: &[u8]) -> (expiry: u64)
    ensures
        expiry == cert_expiry(cert_pem@),
{
    match parse_pem(cert_pem) {
        Some(der) => expiry_from(parse_not_after(der.as_slice())),
        None => expiry_from(None),
    }
}

/// A certificate in PEM with its private key, and when it is taken to expire.
#[derive(Debug)]
pub struct Tls {
    pub cert: Vec<u8>,
    pub key: Vec<u8>,
    pub expiry: u64,
}

pub struct TlsView {
    pub cert: Seq<u8>,
    pub key: Seq<u8>,
    pub expiry: u64,
}

impl View for Tls {
    type V = TlsView;

    open spec fn view(&self) -> TlsView {
        TlsView { cert: self.cert@, key: self.key@, expiry: self.expiry }
    }
}

/// A certificate and its private key as they were read: the certificate tells its expiry.
pub open spec fn loaded(cert: Seq<u8>, key: Seq<u8>) -> TlsView {
    TlsView { cert, key, expiry: cert_expiry(cert) }
}

/// Takes over a certificate and its private key.
pub fn load_tls(cert: Vec<u8>, key: Vec<u8>) -> (tls: Tls)
    ensures
        tls@ == loaded(cert@, key@),
{
    let expiry = get_cert_expiry(cert.as_slice());
    Tls { cert, key, expiry }
}

#[verifier::external_type_specification]
#[verifier::external_body]
pub struct ExCertificate(rcgen::Certificate);

#[verifier::external_type_specification]
#[verifier::external_body]
pub struct ExRcgenError(rcgen::Error);

/// What a certificate of `rcgen` was made for, if it was made here: with the given
/// parameters and a key pair that was generated with it.
pub uninterp spec fn issued_for(certificate: rcgen::Certificate) -> Option<CertRequestView>;

/// Whether a text is one that `rcgen` can write for a certificate: its PEM with a signature
/// by its own key. Signatures differ, so a certificate has many such texts.
pub uninterp spec fn is_pem_of(certificate: rcgen::Certificate, text: Seq<char>) -> bool;

/// The private key of a certificate in PEM.
pub uninterp spec fn private_key_text(certificate: rcgen::Certificate) -> Seq<char>;

/// The text of an error of `rcgen`.
pub uninterp spec fn rcgen_error_text(error: rcgen::Error) -> Seq<char>;

/// Calls `now_utc` of the `time` crate and keeps the whole seconds of Unix time. Nothing is
/// said of the clock.
#[verifier::external_body]
pub(crate) fn current_second() -> (seconds: i64) {
    time::OffsetDateTime::now_utc().unix_timestamp()
}

/// Calls `rcgen::Certificate::from_params` with the names and dates of a request and the
/// default for everything else. It generates a key pair, which can fail.
#[verifier::external_body]
fn create_certificate(request: &CertRequest) -> (created: Result<rcgen::Certificate, rcgen::Error>)
    requires
        request@.writable(),
    ensures
        created matches Ok(certificate) ==> issued_for(certificate) == Some(request@),
{
    let mut params = rcgen::CertificateParams::default();
    let mut name = rcgen::DistinguishedName::new();
    name.push(rcgen::DnType::CommonName, request.common_name.as_str());
    params.distinguished_name = name;
    params.subject_alt_names = request.dns_names.iter().cloned().map(rcgen::SanType::DnsName).collect();
    params.not_before = time::OffsetDateTime::from_unix_timestamp(request.not_before).unwrap();
    params.not_after = time::OffsetDateTime::from_unix_timestamp(request.not_after).unwrap();
    rcgen::Certificate::from_params(params)
}

/// Calls `rcgen::Certificate::serialize_pem`, which signs the certificate and writes it.
/// The bytes differ from call to call. What `x509_parser` reads from them as the end of the
/// validity is what the request asked for. Names that are not ASCII and years of other than
/// four digits would panic.
#[verifier::external_body]
fn certificate_pem(certificate: &rcgen::Certificate) -> (written: Result<String, rcgen::Error>)
    requires
        issued_for(*certificate) matches Some(request) && request.writable(),
    ensures
        written matches Ok(text) ==> is_pem_of(*certificate, text@),
        written matches Ok(text) ==> pem_not_after(encode_utf8(text@)) == Some(issued_for(*certificate)->0.not_after),
{
    certificate.serialize_pem()
}

/// Calls `rcgen::Certificate::serialize_private_key_pem`. It would panic on a key pair that
/// is held elsewhere.
#[verifier::external_body]
fn private_key_pem(certificate: &rcgen::Certificate) -> (text: String)
    requires
        issued_for(*certificate) is Some,
    ensures
        text@ == private_key_text(*certificate),
{
    certificate.serialize_private_key_pem()
}

/// Calls `to_string` on an error of `rcgen`.
#[verifier::external_body]
fn error_text(error: &rcgen::Error) -> (text: String)
    ensures
        text@ == rcgen_error_text(*error),
{
    error.to_string()
}

/// Makes the request for a service.
pub fn cert_request(svc_name: &str, namespace: &str, now: i64) -> (request: CertRequest)
    requires
        issuable(now),
    ensures
        request@ == service_request(svc_name@, namespace@, now),
{
    let host = concat3(svc_name, ".", namespace);
    let mut dns_names: Vec<String> = Vec::new();
    dns_names.push(host.clone().concat(".svc"));
    dns_names.push(host.concat(".svc.cluster.local"));
    assert(texts(dns_names@) == service_request(svc_name@, namespace@, now).dns_names);
    CertRequest {
        common_name: svc_name.to_owned(),
        dns_names,
        not_before: now,
        not_after: now + CERT_LIFETIME_SECS,
    }
}

/// Whether two sequences of bytes are a certificate that was issued for a request and the
/// private key of the same certificate, both in PEM.
pub open spec fn pair_for(request: CertRequestView, cert: Seq<u8>, key: Seq<u8>) -> bool {
    exists|certificate: rcgen::Certificate, text: Seq<char>|
        {
            &&& issued_for(certificate) == Some(request)
            &&& #[trigger] is_pem_of(certificate, text)
            &&& cert == encode_utf8(text)
            &&& key == encode_utf8(private_key_text(certificate))
        }
}

/// Whether a text is that of an error of `rcgen`.
pub open spec fn tells_error(text: Seq<char>) -> bool {
    exists|error: rcgen::Error| text == #[trigger] rcgen_error_text(error)
}

/// Why no certificate was issued.
#[derive(Debug)]
pub enum IssueError {
    /// The validity would not lie in years of four digits.
    OutOfRange,
    /// The certificate was not created; with the text of the error.
    NotCreated(String),
    /// The certificate was not written; with the text of the error.
    NotWritten(String),
}

impl IssueError {
    /// The message for an error.
    pub open spec fn spec_message(self) -> Seq<char> {
        match self {
            IssueError::OutOfRange => "Failed to create certificate params: the validity is out of range"@,
            IssueError::NotCreated(text) => "Failed to create certificate params: "@ + text@,
            IssueError::NotWritten(text) => "Failed to serialize certificate PEM: "@ + text@,
        }
    }

    /// The message for an error.
    pub fn message(&self) -> (message: String)
        ensures
            message@ == self.spec_message(),
    {
        match self {
            IssueError::OutOfRange => {
                "Failed to create certificate params: the validity is out of range".to_owned()
            },
            IssueError::NotCreated(text) => {
                "Failed to create certificate params: ".to_owned().concat(text.as_str())
            },
            IssueError::NotWritten(text) => {
                "Failed to serialize certificate PEM: ".to_owned().concat(text.as_str())
            },
        }
    }
}

/// Whether a pair is a certificate and its private key, both in PEM, issued for a service at
/// some time.
pub open spec fn issued_pair(
    svc_name: Seq<char>,
    namespace: Seq<char>,
    now: i64,
    cert: Seq<u8>,
    key: Seq<u8>,
) -> bool {
    &&& issuable(now)
    &&& pem_not_after(cert) == Some((now + CERT_LIFETIME_SECS) as i64)
    &&& pair_for(service_request(svc_name, namespace, now), cert, key)
}

/// Whether an error can come of issuing a certificate at some time.
pub open spec fn issue_error(now: i64, error: IssueError) -> bool {
    match error {
        IssueError::OutOfRange => !issuable(now),
        IssueError::NotCreated(text) => issuable(now) && tells_error(text@),
        IssueError::NotWritten(text) => issuable(now) && tells_error(text@),
    }
}

/// What issuing a certificate for a service at some time gives: the pair, or the message for
/// an error.
pub open spec fn issued_at(
    svc_name: Seq<char>,
    namespace: Seq<char>,
    now: i64,
    issued: Result<(Vec<u8>, Vec<u8>), String>,
) -> bool {
    match issued {
        Ok(pair) => issued_pair(svc_name, namespace, now, pair.0@, pair.1@),
        Err(message) => exists|error: IssueError| #[trigger] issue_error(now, error) && message@ == error.spec_message(),
    }
}

proof fn lemma_service_names_ascii(svc_name: Seq<char>, namespace: Seq<char>, now: i64)
    requires
        is_ascii_chars(svc_name),
        is_ascii_chars(namespace),
    ensures
        forall|i: int| 0 <= i < 2 ==> is_ascii_chars(#[trigger] service_request(svc_name, namespace, now).dns_names[i]),
{
    reveal_strlit(".");
    reveal_strlit(".svc");
    reveal_strlit(".svc.cluster.local");
    let names = service_request(svc_name, namespace, now).dns_names;
    assert(is_ascii_chars(names[0]));
    assert(is_ascii_chars(names[1]));
}

/// Issues a certificate for a service that is valid from a given second on.
fn issue(svc_name: &str, namespace: &str, now: i64) -> (issued: Result<(Vec<u8>, Vec<u8>), IssueError>)
    requires
        svc_name.is_ascii(),
        namespace.is_ascii(),
    ensures
        match issued {
            Ok(pair) => issued_pair(svc_name@, namespace@, now, pair.0@, pair.1@),
            Err(error) => issue_error(now, error),
        },
{
    if now < FIRST_DATE || now > LAST_DATE - CERT_LIFETIME_SECS {
        return Err(IssueError::OutOfRange);
    }
    let request = cert_request(svc_name, namespace, now);
    proof {
        lemma_service_names_ascii(svc_name@, namespace@, now);
    }
    let certificate = match create_certificate(&request) {
        Ok(certificate) => certificate,
        Err(error) => return Err(IssueError::NotCreated(error_text(&error))),
    };
    match certificate_pem(&certificate) {
        Ok(text) => Ok((text.as_str().as_bytes_vec(), private_key_pem(&certificate).as_str().as_bytes_vec())),
        Err(error) => Err(IssueError::NotWritten(error_text(&error))),
    }
}

/// Issues a certificate for a service that is valid from a given second on: the certificate
/// and its private key, both in PEM.
pub fn generate_certs_at(svc_name: &str, namespace: &str, now: i64) -> (issued: Result<(Vec<u8>, Vec<u8>), String>)
    requires
        svc_name.is_ascii(),
        namespace.is_ascii(),
    ensures
        issued_at(svc_name@, namespace@, now, issued),
{
    match issue(svc_name, namespace, now) {
        Ok(pair) => Ok(pair),
        Err(error) => Err(error.message()),
    }
}

/// Issues a certificate for a service that is valid from now on.
pub fn generate_certs(svc_name: &str, namespace: &str) -> (issued: Result<(Vec<u8>, Vec<u8>), String>)
    requires
        svc_name.is_ascii(),
        namespace.is_ascii(),
    ensures
        exists|now: i64| #[trigger] issued_at(svc_name@, namespace@, now, issued),
{
    generate_certs_at(svc_name, namespace, current_second())
}

/// A request for a service asks for a certificate under the name of the service, with two
/// names of it: the service in its namespace, a dot between them, and `.svc` behind; and that
/// name with `.cluster.local` behind. It is valid from the given second on, for twelve hours.
pub proof fn law_request_for_service(request: CertRequest, svc_name: Seq<char>, namespace: Seq<char>, now: i64)
    requires
        issuable(now),
        request@ == service_request(svc_name, namespace, now),
    ensures
        request.common_name@ == svc_name,
        request.dns_names@.len() == 2,
        request.dns_names@[0]@ == svc_name + seq!['.'] + namespace + seq!['.', 's', 'v', 'c'],
        request.dns_names@[1]@ == request.dns_names@[0]@ + ".cluster.local"@,
        request.not_before == now,
        request.not_after == request.not_before + 12 * 3_600,
{
    reveal_strlit(".");
    reveal_strlit(".svc");
    reveal_strlit(".svc.cluster.local");
    reveal_strlit(".cluster.local");
    let names = texts(request.dns_names@);
    assert(names.len() == 2);
    assert(names[0] == request.dns_names@[0]@);
    assert(names[1] == request.dns_names@[1]@);
    assert("."@ == seq!['.']);
    assert(".svc"@ == seq!['.', 's', 'v', 'c']);
    assert(".svc.cluster.local"@ == ".svc"@ + ".cluster.local"@);
    assert(request.dns_names@[1]@ == request.dns_names@[0]@ + ".cluster.local"@);
}

/// Whether two sequences of bytes are the certificate of some request of this kind, signed by
/// its own key, and that very key, both in PEM.
pub open spec fn belong_together(
    request: CertRequest,
    certificate: rcgen::Certificate,
    cert: Seq<u8>,
    key: Seq<u8>,
) -> bool {
    &&& issued_for(certificate) == Some(request@)
    &&& exists|text: Seq<char>| #[trigger] is_pem_of(certificate, text) && cert == encode_utf8(text)
    &&& key == encode_utf8(private_key_text(certificate))
}

/// What is issued for a service at a second whose validity lies in years of four digits: a
/// certificate that expires twelve hours later and was made for the request of that service,
/// with the key of the same certificate; or a message that says which step failed. At any
/// other second there is only the message for that.
pub proof fn law_issued_for_service(
    request: CertRequest,
    svc_name: Seq<char>,
    namespace: Seq<char>,
    now: i64,
    issued: Result<(Vec<u8>, Vec<u8>), String>,
)
    requires
        issued_at(svc_name, namespace, now, issued),
        request@ == service_request(svc_name, namespace, now),
    ensures
        match issued {
            Ok(pair) => {
                &&& -62_167_219_200 <= now <= 253_402_300_799 - 43_200
                &&& pem_contents(pair.0@) matches Some(der) && x509_not_after(der) == Some((now + 43_200) as i64)
                &&& exists|certificate: rcgen::Certificate| #[trigger]
                    belong_together(request, certificate, pair.0@, pair.1@)
            },
            Err(message) => if -62_167_219_200 <= now <= 253_402_300_799 - 43_200 {
                exists|error: rcgen::Error|
                    {
                        ||| message@ == "Failed to create certificate params: "@ + #[trigger] rcgen_error_text(error)
                        ||| message@ == "Failed to serialize certificate PEM: "@ + rcgen_error_text(error)
                    }
            } else {
                message@ == "Failed to create certificate params: the validity is out of range"@
            },
        },
{
    match issued {
        Ok(pair) => {
            let (certificate, text) = choose|certificate: rcgen::Certificate, text: Seq<char>|
                {
                    &&& issued_for(certificate) == Some(request@)
                    &&& #[trigger] is_pem_of(certificate, text)
                    &&& pair.0@ == encode_utf8(text)
                    &&& pair.1@ == encode_utf8(private_key_text(certificate))
                };
            assert(belong_together(request, certificate, pair.0@, pair.1@));
        },
        Err(message) => {
            let error = choose|error: IssueError| #[trigger]
                issue_error(now, error) && message@ == error.spec_message();
            match error {
                IssueError::OutOfRange => {},
                IssueError::NotCreated(text) => {
                    let cause = choose|cause: rcgen::Error| text@ == #[trigger] rcgen_error_text(cause);
                    assert(message@ == "Failed to create certificate params: "@ + rcgen_error_text(cause));
                },
                IssueError::NotWritten(text) => {
                    let cause = choose|cause: rcgen::Error| text@ == #[trigger] rcgen_error_text(cause);
                    assert(message@ == "Failed to serialize certificate PEM: "@ + rcgen_error_text(cause));
                },
            }
        },
    }
}

/// The message for an error starts with what was tried and ends with the text of the error.
pub proof fn law_message_tells_cause(text: String)
    ensures
        IssueError::NotCreated(text).spec_message() == "Failed to create certificate params: "@ + text@,
        IssueError::NotWritten(text).spec_message() == "Failed to serialize certificate PEM: "@ + text@,
        IssueError::OutOfRange.spec_message()
            == "Failed to create certificate params: the validity is out of range"@,
{
}

/// A certificate that was loaded is served with the key that came with it, and expires at the
/// second that the certificate in its first PEM block names, which wraps around where that is
/// before 1970, and at second zero where no certificate can be read.
pub proof fn law_loaded_tells_expiry(tls: Tls, cert: Seq<u8>, key: Seq<u8>, end: i64)
    requires
        tls@ == loaded(cert, key),
    ensures
        tls.cert@ == cert,
        tls.key@ == key,
        pem_contents(cert) is None ==> tls.expiry == 0,
        pem_contents(cert) matches Some(der) ==> {
            &&& x509_not_after(der) is None ==> tls.expiry == 0
            &&& x509_not_after(der) == Some(end) ==> (tls.expiry - end == 0 || tls.expiry - end
                == 0x1_0000_0000_0000_0000)
        },
{
}

/// A certificate expires at the second that its end names, one that cannot be read at second
/// zero; seconds before 1970 wrap around.
pub proof fn law_expiry_is_the_end(cert: Seq<u8>, der: Seq<u8>, end: i64)
    ensures
        expiry_of(None) == 0,
        end >= 0 ==> expiry_of(Some(end)) == end,
        end < 0 ==> expiry_of(Some(end)) == u64::MAX + 1 + end,
        pem_contents(cert) is None ==> cert_expiry(cert) == 0,
        pem_contents(cert) == Some(der) && x509_not_after(der) is None ==> cert_expiry(cert) == 0,
        pem_contents(cert) == Some(der) && x509_not_after(der) == Some(end) && end >= 0 ==> cert_expiry(cert) == end,
        pem_contents(cert) == Some(der) && x509_not_after(der) == Some(end) && end < 0 ==> cert_expiry(cert)
            == u64::MAX + 1 + end,
{
}

} // verus!
