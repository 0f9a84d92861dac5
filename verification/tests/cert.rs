use joblib::cert::{
    extract_subj_uid, identify, parse_subject_uid, CertError, ParsedSubject, SubjectAttribute,
};
use x509_parser::der_parser::oid::Oid;

const UTF8_STRING: u8 = 0x0c;
const PRINTABLE_STRING: u8 = 0x13;
const COMMON_NAME: &[u8] = &[0x55, 0x04, 0x03];

fn uid_type() -> Vec<u8> {
    Oid::from(&[0, 9, 2342, 19200300, 100, 1, 1]).unwrap().bytes().to_vec()
}

fn tlv(tag: u8, content: &[u8]) -> Vec<u8> {
    let mut out = vec![tag];
    let len = content.len();
    if len < 0x80 {
        out.push(len as u8);
    } else if len < 0x100 {
        out.extend_from_slice(&[0x81, len as u8]);
    } else {
        out.extend_from_slice(&[0x82, (len >> 8) as u8, len as u8]);
    }
    out.extend_from_slice(content);
    out
}

fn sequence(parts: &[Vec<u8>]) -> Vec<u8> {
    tlv(0x30, &parts.concat())
}

fn attribute(kind: &[u8], tag: u8, value: &str) -> Vec<u8> {
    tlv(0x31, &sequence(&[tlv(0x06, kind), tlv(tag, value.as_bytes())]))
}

fn algorithm(last: u8) -> Vec<u8> {
    let oid = [0x2a, 0x86, 0x48, 0x86, 0xf7, 0x0d, 0x01, 0x01, last];
    sequence(&[tlv(0x06, &oid), tlv(0x05, &[])])
}

/// A certificate with the given attributes as its subject. It is well formed, and
/// its signature is not a signature of anything.
fn certificate(subject: &[Vec<u8>]) -> Vec<u8> {
    let issuer = sequence(&[attribute(COMMON_NAME, UTF8_STRING, "test ca")]);
    let validity =
        sequence(&[tlv(0x17, b"200101000000Z"), tlv(0x17, b"300101000000Z")]);
    let key = sequence(&[algorithm(0x01), tlv(0x03, &[0, 1, 2, 3, 4])]);
    let tbs = sequence(&[
        tlv(0xa0, &tlv(0x02, &[2])),
        tlv(0x02, &[1]),
        algorithm(0x0b),
        issuer,
        validity,
        sequence(subject),
        key,
    ]);
    sequence(&[tbs, algorithm(0x0b), tlv(0x03, &[0, 9, 9, 9, 9])])
}

fn user_of(certs: &Vec<Vec<u8>>) -> Result<Option<String>, CertError> {
    extract_subj_uid(Some(certs)).map(|found| found.map(|extension| extension.user_id))
}

#[test]
fn uid_type_is_written_as_ten_bytes() {
    assert_eq!(uid_type(), vec![0x09, 0x92, 0x26, 0x89, 0x93, 0xf2, 0x2c, 0x64, 0x01, 0x01]);
}

#[test]
fn user_authenticates() {
    let cert = certificate(&[attribute(&uid_type(), UTF8_STRING, "alice")]);
    assert_eq!(user_of(&vec![cert]), Ok(Some("alice".to_string())));
}

#[test]
fn uid_is_found_among_other_attributes() {
    let cert = certificate(&[
        attribute(COMMON_NAME, UTF8_STRING, "Bob B."),
        attribute(&uid_type(), UTF8_STRING, "bob"),
        attribute(COMMON_NAME, PRINTABLE_STRING, "localhost"),
    ]);
    assert_eq!(user_of(&vec![cert]), Ok(Some("bob".to_string())));
}

#[test]
fn first_uid_counts() {
    let cert = certificate(&[
        attribute(&uid_type(), UTF8_STRING, "charlie"),
        attribute(&uid_type(), UTF8_STRING, "alice"),
    ]);
    assert_eq!(user_of(&vec![cert]), Ok(Some("charlie".to_string())));
    let cert = certificate(&[
        attribute(&uid_type(), PRINTABLE_STRING, "charlie"),
        attribute(&uid_type(), UTF8_STRING, "alice"),
    ]);
    assert_eq!(user_of(&vec![cert]), Err(CertError::UidNotUtf8));
}

#[test]
fn first_certificate_counts() {
    let first = certificate(&[attribute(&uid_type(), UTF8_STRING, "alice")]);
    let second = certificate(&[attribute(&uid_type(), UTF8_STRING, "bob")]);
    assert_eq!(user_of(&vec![first.clone(), second.clone()]), Ok(Some("alice".to_string())));
    assert_eq!(user_of(&vec![second, first]), Ok(Some("bob".to_string())));
    assert_eq!(user_of(&vec![vec![1, 2, 3], certificate(&[])]), Err(CertError::BadCert));
}

#[test]
fn uid_may_be_any_utf8_text() {
    let cert = certificate(&[attribute(&uid_type(), UTF8_STRING, "zoë@example")]);
    assert_eq!(user_of(&vec![cert]), Ok(Some("zoë@example".to_string())));
    let cert = certificate(&[attribute(&uid_type(), UTF8_STRING, "")]);
    assert_eq!(user_of(&vec![cert]), Ok(Some(String::new())));
}

#[test]
fn missing_certificate_is_refused() {
    assert!(matches!(extract_subj_uid(None), Err(CertError::MissingCert)));
    assert_eq!(user_of(&vec![]), Err(CertError::MissingCert));
}

#[test]
fn unreadable_certificate_is_refused() {
    assert_eq!(user_of(&vec![vec![]]), Err(CertError::BadCert));
    assert_eq!(user_of(&vec![b"not a certificate".to_vec()]), Err(CertError::BadCert));
    let mut cut = certificate(&[attribute(&uid_type(), UTF8_STRING, "alice")]);
    cut.pop();
    assert_eq!(user_of(&vec![cut]), Err(CertError::BadCert));
}

#[test]
fn certificate_without_uid_is_refused() {
    let cert = certificate(&[attribute(COMMON_NAME, UTF8_STRING, "alice")]);
    assert_eq!(user_of(&vec![cert]), Err(CertError::MissingUid));
    assert_eq!(user_of(&vec![certificate(&[])]), Err(CertError::MissingUid));
}

#[test]
fn uid_that_is_no_utf8_string_is_refused() {
    let cert = certificate(&[attribute(&uid_type(), PRINTABLE_STRING, "alice")]);
    assert_eq!(user_of(&vec![cert]), Err(CertError::UidNotUtf8));
}

#[test]
fn certificate_with_bytes_behind_it_names_nobody() {
    let mut cert = certificate(&[attribute(&uid_type(), UTF8_STRING, "alice")]);
    cert.push(0);
    assert_eq!(user_of(&vec![cert.clone()]), Ok(None));
    let parsed = parse_subject_uid(&cert).unwrap();
    assert_eq!(parsed.trailing, 1);
    assert!(matches!(parsed.attribute, SubjectAttribute::Utf8(ref user) if user == "alice"));
    let mut cert = certificate(&[]);
    cert.extend_from_slice(&[1, 2, 3]);
    assert_eq!(user_of(&vec![cert]), Ok(None));
}

#[test]
fn parsed_subject_tells_what_was_found() {
    let cert = certificate(&[attribute(&uid_type(), UTF8_STRING, "alice")]);
    let parsed = parse_subject_uid(&cert).unwrap();
    assert_eq!(parsed.trailing, 0);
    assert!(matches!(parsed.attribute, SubjectAttribute::Utf8(ref user) if user == "alice"));
    let parsed = parse_subject_uid(&certificate(&[])).unwrap();
    assert!(matches!(parsed.attribute, SubjectAttribute::Absent));
    let cert = certificate(&[attribute(&uid_type(), PRINTABLE_STRING, "alice")]);
    assert!(matches!(parse_subject_uid(&cert).unwrap().attribute, SubjectAttribute::NotUtf8));
    assert!(parse_subject_uid(&[0x30, 0x00]).is_none());
}

#[test]
fn identity_is_decided_from_what_was_parsed() {
    let subject = |trailing, attribute| Some(ParsedSubject { trailing, attribute });
    let name = |outcome: Result<Option<joblib::cert::UserExtension>, CertError>| {
        outcome.map(|found| found.map(|extension| extension.user_id))
    };
    assert_eq!(name(identify(None)), Err(CertError::BadCert));
    assert_eq!(
        name(identify(subject(0, SubjectAttribute::Utf8("dora".to_string())))),
        Ok(Some("dora".to_string()))
    );
    assert_eq!(name(identify(subject(0, SubjectAttribute::Absent))), Err(CertError::MissingUid));
    assert_eq!(name(identify(subject(0, SubjectAttribute::NotUtf8))), Err(CertError::UidNotUtf8));
    assert_eq!(name(identify(subject(1, SubjectAttribute::Utf8("dora".to_string())))), Ok(None));
    assert_eq!(name(identify(subject(5, SubjectAttribute::Absent))), Ok(None));
    assert_eq!(name(identify(subject(usize::MAX, SubjectAttribute::NotUtf8))), Ok(None));
}

#[test]
fn failures_have_their_texts() {
    assert_eq!(CertError::MissingCert.message(), "Request missing client cert");
    assert_eq!(CertError::BadCert.message(), "Bad client cert");
    assert_eq!(CertError::MissingUid.message(), "Client cert missing subject uid");
    assert_eq!(CertError::UidNotUtf8.message(), "Client cert uid must be UTF8");
}
