//! Who a client is: the user id that the client's certificate carries in the UID
//! attribute of its subject.

use vstd::prelude::*;
use x509_parser::certificate::X509Certificate;
use x509_parser::der_parser::ber::BerObjectContent;
use x509_parser::der_parser::oid::Oid;
use x509_parser::traits::FromDer;
use crate::authz::UserId;

verus! {

/// The identity of the user on whose behalf a request is made.
#[derive(Debug)]
pub struct UserExtension {
    pub user_id: UserId,
}

/// Why a request cannot be tied to a user.
#[derive(Clone, Copy, Debug, PartialEq, Eq, Structural)]
pub enum CertError {
    /// The client showed no certificate.
    MissingCert,
    /// The certificate cannot be read.
    BadCert,
    /// The subject of the certificate has no UID attribute.
    MissingUid,
    /// The UID attribute is not a UTF-8 string.
    UidNotUtf8,
}

/// The UID attribute of a certificate's subject, as far as the identity depends on
/// it.
#[derive(Debug)]
pub enum SubjectAttribute {
    /// The subject has no such attribute.
    Absent,
    /// The first such attribute holds something else than a UTF-8 string.
    NotUtf8,
    /// The first such attribute holds this text.
    Utf8(String),
}

/// What was read from a certificate.
#[derive(Debug)]
pub struct ParsedSubject {
    /// The number of bytes that follow the certificate in the input.
    pub trailing: usize,
    /// The attribute that was looked for.
    pub attribute: SubjectAttribute,
}

/// A subject attribute as the contracts see it.
pub ghost enum AttributeView {
    Absent,
    NotUtf8,
    Utf8(Seq<char>),
}

/// A parsed subject as the contracts see it.
pub ghost struct SubjectView {
    pub trailing: nat,
    pub attribute: AttributeView,
}

impl View for SubjectAttribute {
    type V = AttributeView;

    open spec fn view(&self) -> AttributeView {
        match *self {
            SubjectAttribute::Absent => AttributeView::Absent,
            SubjectAttribute::NotUtf8 => AttributeView::NotUtf8,
            SubjectAttribute::Utf8(text) => AttributeView::Utf8(text@),
        }
    }
}

impl View for ParsedSubject {
    type V = SubjectView;

    open spec fn view(&self) -> SubjectView {
        SubjectView { trailing: self.trailing as nat, attribute: self.attribute@ }
    }
}

/// What reading `der` as an X.509 certificate and looking in its subject for the
/// first attribute of type `oid` yields, or `None` where `der` does not begin with
/// a certificate.
pub uninterp spec fn x509_subject_attribute(der: Seq<u8>, oid: Seq<u64>) -> Option<SubjectView>;

/// Whether the numbers are the arcs of an object identifier that can be written
/// down: at least two, the first below 7 and the second below 40.
pub open spec fn is_oid(arcs: Seq<u64>) -> bool {
    arcs.len() >= 2 && arcs[0] < 7 && arcs[1] < 40
}

/// `X509Certificate::from_der`, and on the certificate it yields `X509Name::iter_by_oid`
/// with the identifier that `Oid::from` makes of `oid`: the input is parsed, not
/// validated, and the first attribute of that type in the subject is handed out with
/// the kind of its content. What comes back depends on the bytes and the arcs alone.
#[verifier::external_body]
fn parse_subject_attribute(der: &[u8], oid: &[u64]) -> (parsed: Option<ParsedSubject>)
    requires
        is_oid(oid@),
    ensures
        match parsed {
            Some(subject) => x509_subject_attribute(der@, oid@) == Some(subject@),
            None => x509_subject_attribute(der@, oid@) is None,
        },
{
    let (rest, cert) = X509Certificate::from_der(der).ok()?;
    let wanted = Oid::from(oid).ok()?;
    let attribute = match cert.subject().iter_by_oid(&wanted).next() {
        None => SubjectAttribute::Absent,
        Some(found) => match &found.attr_value().content {
            BerObjectContent::UTF8String(text) => SubjectAttribute::Utf8(text.to_string()),
            _ => SubjectAttribute::NotUtf8,
        },
    };
    Some(ParsedSubject { trailing: rest.len(), attribute })
}

/// The arcs of the attribute type that names the user: 0.9.2342.19200300.100.1.1.
pub open spec fn uid_oid() -> Seq<u64> {
    seq![0u64, 9u64, 2342u64, 19200300u64, 100u64, 1u64, 1u64]
}

impl CertError {
    /// The text that describes the failure.
    pub open spec fn text(self) -> Seq<char> {
        match self {
            CertError::MissingCert => "Request missing client cert"@,
            CertError::BadCert => "Bad client cert"@,
            CertError::MissingUid => "Client cert missing subject uid"@,
            CertError::UidNotUtf8 => "Client cert uid must be UTF8"@,
        }
    }

    /// Renders the failure for the client.
    pub fn message(&self) -> (text: String)
        ensures
            text@ == self.text(),
    {
        match self {
            CertError::MissingCert => "Request missing client cert".to_owned(),
            CertError::BadCert => "Bad client cert".to_owned(),
            CertError::MissingUid => "Client cert missing subject uid".to_owned(),
            CertError::UidNotUtf8 => "Client cert uid must be UTF8".to_owned(),
        }
    }
}

/// The user that a parsed certificate names. A certificate that cannot be read is
/// refused, and so is one without a UID, or with a UID that is no UTF-8 string. A
/// certificate that is followed by further bytes names nobody, and is not refused.
pub open spec fn identity(parsed: Option<SubjectView>) -> Result<Option<Seq<char>>, CertError> {
    match parsed {
        None => Err(CertError::BadCert),
        Some(subject) => if subject.trailing != 0 {
            Ok(None)
        } else {
            match subject.attribute {
                AttributeView::Absent => Err(CertError::MissingUid),
                AttributeView::NotUtf8 => Err(CertError::UidNotUtf8),
                AttributeView::Utf8(text) => Ok(Some(text)),
            }
        },
    }
}

/// The user that the client's certificates name: the one that the first of them
/// names. A client without certificates is refused.
pub open spec fn peer_identity(peer_certs: Option<Seq<Seq<u8>>>) -> Result<
    Option<Seq<char>>,
    CertError,
> {
    match peer_certs {
        None => Err(CertError::MissingCert),
        Some(certs) => if certs.len() == 0 {
            Err(CertError::MissingCert)
        } else {
            identity(x509_subject_attribute(certs[0], uid_oid()))
        },
    }
}

/// What an outcome of the identification says, with the user's name as text.
pub open spec fn outcome_view(outcome: Result<Option<UserExtension>, CertError>) -> Result<
    Option<Seq<char>>,
    CertError,
> {
    match outcome {
        Ok(Some(extension)) => Ok(Some(extension.user_id@)),
        Ok(None) => Ok(None),
        Err(e) => Err(e),
    }
}

/// Decides which user a parsed certificate names.
pub fn identify(parsed: Option<ParsedSubject>) -> (outcome: Result<Option<UserExtension>, CertError>)
    ensures
        outcome_view(outcome) == identity(
            match parsed {
                Some(subject) => Some(subject@),
                None => None,
            },
        ),
{
    match parsed {
        None => Err(CertError::BadCert),
        Some(subject) => {
            if subject.trailing != 0 {
                Ok(None)
            } else {
                match subject.attribute {
                    SubjectAttribute::Absent => Err(CertError::MissingUid),
                    SubjectAttribute::NotUtf8 => Err(CertError::UidNotUtf8),
                    SubjectAttribute::Utf8(user_id) => Ok(Some(UserExtension { user_id })),
                }
            }
        },
    }
}

/// Reads the subject of a certificate in DER and looks for its UID attribute.
pub fn parse_subject_uid(der: &[u8]) -> (parsed: Option<ParsedSubject>)
    ensures
        match parsed {
            Some(subject) => x509_subject_attribute(der@, uid_oid()) == Some(subject@),
            None => x509_subject_attribute(der@, uid_oid()) is None,
        },
{
    let mut oid: Vec<u64> = Vec::new();
    oid.push(0);
    oid.push(9);
    oid.push(2342);
    oid.push(19200300);
    oid.push(100);
    oid.push(1);
    oid.push(1);
    assert(oid@ =~= uid_oid());
    parse_subject_attribute(der, oid.as_slice())
}

/// Finds out on whose behalf a request is made, from the certificates that the
/// client showed, each in DER.
pub fn extract_subj_uid(peer_certs: Option<&Vec<Vec<u8>>>) -> (outcome: Result<
    Option<UserExtension>,
    CertError,
>)
    ensures
        outcome_view(outcome) == peer_identity(
            match peer_certs {
                Some(certs) => Some(Seq::new(certs@.len(), |i: int| certs@[i]@)),
                None => None,
            },
        ),
{
    match peer_certs {
        None => Err(CertError::MissingCert),
        Some(client_certs) => {
            if client_certs.len() == 0 {
                Err(CertError::MissingCert)
            } else {
                identify(parse_subject_uid(client_certs[0].as_slice()))
            }
        },
    }
}

} // verus!
