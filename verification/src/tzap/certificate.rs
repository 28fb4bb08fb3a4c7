//! The certificate that stands for a recipient who is known by a public key
//! alone.
//!
//! Key wrapping addresses its recipients by certificate. A bare public key is
//! therefore put into a certificate that nobody keeps the signing key of.
use crate::text::concat2;
use crate::tzap::error::TzapError;
#[allow(unused_imports)]
use crate::tzap::error::TzapFault;
use vstd::prelude::*;

verus! {

/// What the certificate says, apart from the public key.
pub struct CertificateTemplate {
    /// The version number as it is encoded: two stands for the third version.
    pub version: i32,
    /// The serial number.
    pub serial: u32,
    /// The attribute that the holder, who is also the issuer, is named by.
    pub name_field: &'static str,
    /// The name of the holder.
    pub name: &'static str,
    /// From how many days ahead it is valid.
    pub valid_from_days: u32,
    /// Until how many days ahead it is valid.
    pub valid_until_days: u32,
}

/// The certificate of a recipient who is known by a public key.
pub fn recipient_certificate_template() -> (template: CertificateTemplate)
    ensures
        template.version == 2,
        template.serial == 1,
        template.name_field@ == "CN"@,
        template.name@ == "ZManager Contact Recipient"@,
        template.valid_from_days == 0,
        template.valid_until_days == 365,
{
    CertificateTemplate {
        version: 2,
        serial: 1,
        name_field: "CN",
        name: "ZManager Contact Recipient",
        valid_from_days: 0,
        valid_until_days: 365,
    }
}

/// A step of making the certificate.
#[derive(Clone, Copy, Debug, PartialEq, Eq, Structural)]
pub enum CertificateStep {
    /// Reading the recipient's public key.
    PublicKey,
    /// Making the key that signs the certificate.
    IssuerKey,
    /// Making the holder's name.
    Name,
    /// Starting the certificate.
    Builder,
    /// Making the serial number.
    Serial,
    /// Putting a field into the certificate.
    Field,
    /// Signing the certificate.
    Signing,
    /// Writing the certificate.
    Der,
}

/// What the error of a step begins with.
pub open spec fn step_prefix(step: CertificateStep) -> Seq<char> {
    match step {
        CertificateStep::PublicKey => "recipient public key is invalid: "@,
        CertificateStep::IssuerKey => "recipient certificate key failed: "@,
        CertificateStep::Name => "recipient certificate name failed: "@,
        CertificateStep::Builder => "recipient certificate failed: "@,
        CertificateStep::Serial => "recipient certificate serial failed: "@,
        CertificateStep::Field => ""@,
        CertificateStep::Signing => "recipient certificate signing failed: "@,
        CertificateStep::Der => "recipient certificate DER failed: "@,
    }
}

/// The error of a step that failed.
pub open spec fn step_fault(step: CertificateStep, message: Seq<char>) -> TzapFault {
    TzapFault::KeyWrap(step_prefix(step) + message)
}

/// The error of a step that failed.
pub fn certificate_step_error(step: CertificateStep, message: &str) -> (error: TzapError)
    ensures
        error@ == step_fault(step, message@),
{
    let prefix: &str = match step {
        CertificateStep::PublicKey => "recipient public key is invalid: ",
        CertificateStep::IssuerKey => "recipient certificate key failed: ",
        CertificateStep::Name => "recipient certificate name failed: ",
        CertificateStep::Builder => "recipient certificate failed: ",
        CertificateStep::Serial => "recipient certificate serial failed: ",
        CertificateStep::Field => "",
        CertificateStep::Signing => "recipient certificate signing failed: ",
        CertificateStep::Der => "recipient certificate DER failed: ",
    };
    TzapError::KeyWrap(concat2(prefix, message))
}

/// OpenSSL's keys, public and private.
#[verifier::external_type_specification]
#[verifier::external_body]
#[verifier::reject_recursive_types(T)]
pub struct ExPKey<T>(openssl::pkey::PKey<T>);

/// The mark of a public key.
#[verifier::external_type_specification]
#[verifier::external_body]
pub struct ExPublic(openssl::pkey::Public);

/// The mark of a private key.
#[verifier::external_type_specification]
#[verifier::external_body]
pub struct ExPrivate(openssl::pkey::Private);

/// A certificate that is being made.
#[verifier::external_type_specification]
#[verifier::external_body]
pub struct ExX509Builder(openssl::x509::X509Builder);

/// A certificate.
#[verifier::external_type_specification]
#[verifier::external_body]
pub struct ExX509(openssl::x509::X509);

/// A name that is being made.
#[verifier::external_type_specification]
#[verifier::external_body]
pub struct ExX509NameBuilder(openssl::x509::X509NameBuilder);

/// A name in a certificate.
#[verifier::external_type_specification]
#[verifier::external_body]
pub struct ExX509Name(openssl::x509::X509Name);

/// A curve.
#[verifier::external_type_specification]
#[verifier::external_body]
pub struct ExEcGroup(openssl::ec::EcGroup);

/// A key on a curve.
#[verifier::external_type_specification]
#[verifier::external_body]
#[verifier::reject_recursive_types(T)]
pub struct ExEcKey<T>(openssl::ec::EcKey<T>);

/// One thing that is put into a certificate.
pub enum CertificatePart {
    /// The version number as it is encoded.
    Version(i32),
    /// The serial number.
    Serial(u32),
    /// The name of the holder: its attributes with their values.
    Subject(Seq<(Seq<char>, Seq<char>)>),
    /// The name of the issuer: its attributes with their values.
    Issuer(Seq<(Seq<char>, Seq<char>)>),
    /// The name of the holder of another certificate, who is the issuer.
    IssuedBy(openssl::x509::X509),
    /// The holder's public key, as DER.
    PublicKey(Seq<u8>),
    /// The public half of the holder's key.
    KeyOf(openssl::pkey::PKey<openssl::pkey::Private>),
    /// It is valid from so many days ahead.
    NotBefore(u32),
    /// It is valid until so many days ahead.
    NotAfter(u32),
    /// It is an authority, with so many authorities below it at most.
    Authority(u32),
    /// It is no authority.
    NoAuthority,
    /// Its key agrees on keys.
    KeyAgreement,
    /// Its key signs certificates and revocation lists.
    CertificateSigning,
    /// Its key signs documents.
    DigitalSignature,
    /// Which key it is about.
    SubjectKeyIdentifier,
    /// Which key has signed it: that of another certificate.
    AuthorityKeyIdentifier(openssl::x509::X509),
    /// What it is used for.
    ExtendedUsage(Seq<char>),
    /// An extension that is given as DER.
    Der {
        /// Which extension it is.
        oid: Seq<char>,
        /// Whether a reader that does not know it has to reject the certificate.
        critical: bool,
        /// Its contents.
        contents: Seq<u8>,
    },
    /// The signature over all this, with SHA-256.
    SignedWith(openssl::pkey::PKey<openssl::pkey::Private>),
}

/// What was put into a certificate that is being made, in order.
pub uninterp spec fn certificate_draft(builder: openssl::x509::X509Builder) -> Seq<CertificatePart>;

/// What was put into a certificate, in order.
pub uninterp spec fn certificate_parts(certificate: openssl::x509::X509) -> Seq<CertificatePart>;

/// The attributes of a name that is being made, with their values, in order.
pub uninterp spec fn name_draft(name: openssl::x509::X509NameBuilder) -> Seq<
    (Seq<char>, Seq<char>),
>;

/// The attributes of a name, with their values, in order.
pub uninterp spec fn name_entries(name: openssl::x509::X509Name) -> Seq<(Seq<char>, Seq<char>)>;

/// The DER that a public key was read from.
pub uninterp spec fn public_key_bytes(
    key: openssl::pkey::PKey<openssl::pkey::Public>,
) -> Seq<u8>;

/// Whether a certificate with these parts can be written as these bytes.
pub uninterp spec fn certificate_bytes_answer(parts: Seq<CertificatePart>, der: Seq<u8>) -> bool;

/// The curve of a group.
pub uninterp spec fn group_curve(group: openssl::ec::EcGroup) -> Seq<char>;

/// The curve that a key is on.
pub uninterp spec fn ec_key_curve(key: openssl::ec::EcKey<openssl::pkey::Private>) -> Seq<char>;

/// The curve that a key for any use is on.
pub uninterp spec fn key_curve(key: openssl::pkey::PKey<openssl::pkey::Private>) -> Seq<char>;

/// Whether OpenSSL can refuse, with this message, to read a public key.
pub uninterp spec fn public_key_refusal(der: Seq<u8>, message: Seq<char>) -> bool;

/// Whether OpenSSL can refuse, with this message, to make a group of a curve.
pub uninterp spec fn group_refusal(message: Seq<char>) -> bool;

/// Whether OpenSSL can refuse, with this message, to generate a key.
pub uninterp spec fn generation_refusal(message: Seq<char>) -> bool;

/// Whether OpenSSL can refuse, with this message, to make a key ready for any use.
pub uninterp spec fn key_refusal(message: Seq<char>) -> bool;

/// Whether OpenSSL can refuse, with this message, to begin a name.
pub uninterp spec fn new_name_refusal(message: Seq<char>) -> bool;

/// Whether OpenSSL can refuse, with this message, to append an attribute with a value
/// to a name.
pub uninterp spec fn entry_refusal(
    name: Seq<(Seq<char>, Seq<char>)>,
    field: Seq<char>,
    value: Seq<char>,
    message: Seq<char>,
) -> bool;

/// Whether OpenSSL can refuse, with this message, to begin a certificate.
pub uninterp spec fn new_certificate_refusal(message: Seq<char>) -> bool;

/// Whether OpenSSL can refuse, with this message, to put a part into a certificate
/// that has some parts already.
pub uninterp spec fn part_refusal(
    draft: Seq<CertificatePart>,
    part: CertificatePart,
    message: Seq<char>,
) -> bool;

/// Whether OpenSSL can refuse, with this message, to write a certificate with these
/// parts.
pub uninterp spec fn bytes_refusal(parts: Seq<CertificatePart>, message: Seq<char>) -> bool;

/// Whether one part was put into a certificate, or why it was not.
pub open spec fn puts(
    before: openssl::x509::X509Builder,
    after: openssl::x509::X509Builder,
    part: CertificatePart,
    outcome: Result<(), String>,
) -> bool {
    match outcome {
        Ok(_) => certificate_draft(after) == certificate_draft(before).push(part),
        Err(message) => part_refusal(certificate_draft(before), part, message@),
    }
}

/// Calls `openssl::pkey::PKey::public_key_from_der`. Claimed: a key that is read is
/// the one in these bytes, and a refusal answers for these bytes. What is accepted
/// rests on the installed OpenSSL and is not stated.
#[verifier::external_body]
fn public_key_from_der(der: &[u8]) -> (key: Result<
    openssl::pkey::PKey<openssl::pkey::Public>,
    String,
>)
    ensures
        match key {
            Ok(key) => public_key_bytes(key) == der@,
            Err(message) => public_key_refusal(der@, message@),
        },
{
    openssl::pkey::PKey::public_key_from_der(der).map_err(|e| e.to_string())
}

/// Calls `openssl::ec::EcGroup::from_curve_name` for the NIST P-256 curve. Claimed:
/// the group is of that curve, or the message is that of a refusal.
#[verifier::external_body]
pub(crate) fn p256_group() -> (group: Result<openssl::ec::EcGroup, String>)
    ensures
        match group {
            Ok(group) => group_curve(group) == "P-256"@,
            Err(message) => group_refusal(message@),
        },
{
    let curve = openssl::nid::Nid::X9_62_PRIME256V1;
    openssl::ec::EcGroup::from_curve_name(curve).map_err(|e| e.to_string())
}

/// Calls `openssl::ec::EcKey::generate`. Claimed: the key is on the curve of the
/// group, or the message is that of a refusal. The key is random, so nothing more is
/// stated.
#[verifier::external_body]
pub(crate) fn generate_ec_key(group: &openssl::ec::EcGroup) -> (key: Result<
    openssl::ec::EcKey<openssl::pkey::Private>,
    String,
>)
    ensures
        match key {
            Ok(key) => ec_key_curve(key) == group_curve(*group),
            Err(message) => generation_refusal(message@),
        },
{
    openssl::ec::EcKey::generate(group).map_err(|e| e.to_string())
}

/// Calls `openssl::pkey::PKey::from_ec_key`. Claimed: the key stays on its curve, or
/// the message is that of a refusal.
#[verifier::external_body]
pub(crate) fn key_from_ec_key(key: openssl::ec::EcKey<openssl::pkey::Private>) -> (wrapped: Result<
    openssl::pkey::PKey<openssl::pkey::Private>,
    String,
>)
    ensures
        match wrapped {
            Ok(wrapped) => key_curve(wrapped) == ec_key_curve(key),
            Err(message) => key_refusal(message@),
        },
{
    openssl::pkey::PKey::from_ec_key(key).map_err(|e| e.to_string())
}

/// Calls `openssl::x509::X509NameBuilder::new`. Claimed: the name is empty, or the
/// message is that of a refusal.
#[verifier::external_body]
pub(crate) fn new_name() -> (name: Result<openssl::x509::X509NameBuilder, String>)
    ensures
        match name {
            Ok(name) => name_draft(name) == Seq::<(Seq<char>, Seq<char>)>::empty(),
            Err(message) => new_name_refusal(message@),
        },
{
    openssl::x509::X509NameBuilder::new().map_err(|e| e.to_string())
}

/// Calls `openssl::x509::X509NameBuilder::append_entry_by_text`, which takes no
/// field with a zero in it and no value that is longer than C can count. Claimed:
/// the entry is appended, or the message is that of a refusal of it.
#[verifier::external_body]
pub(crate) fn append_name_entry(
    name: &mut openssl::x509::X509NameBuilder,
    field: &str,
    value: &str,
) -> (r: Result<(), String>)
    requires
        !field@.contains('\0'),
        value@.len() <= 0x0fff_ffff,
    ensures
        match r {
            Ok(_) => name_draft(*final(name)) == name_draft(*old(name)).push((field@, value@)),
            Err(message) => entry_refusal(name_draft(*old(name)), field@, value@, message@),
        },
{
    name.append_entry_by_text(field, value).map_err(|e| e.to_string())
}

/// Calls `openssl::x509::X509NameBuilder::build`. Claimed: the name has the entries
/// that were appended.
#[verifier::external_body]
pub(crate) fn finish_name(name: openssl::x509::X509NameBuilder) -> (built: openssl::x509::X509Name)
    ensures
        name_entries(built) == name_draft(name),
{
    name.build()
}

/// Calls `openssl::x509::X509::builder`. Claimed: nothing was put into the
/// certificate yet, or the message is that of a refusal.
#[verifier::external_body]
pub(crate) fn new_certificate() -> (builder: Result<openssl::x509::X509Builder, String>)
    ensures
        match builder {
            Ok(b) => certificate_draft(b) == Seq::<CertificatePart>::empty(),
            Err(message) => new_certificate_refusal(message@),
        },
{
    openssl::x509::X509::builder().map_err(|e| e.to_string())
}

/// Calls `openssl::x509::X509Builder::set_version`. Claimed: the version is
/// put into the certificate, or the message is that of a refusal of it.
#[verifier::external_body]
pub(crate) fn set_version(builder: &mut openssl::x509::X509Builder, version: i32) -> (r: Result<
    (),
    String,
>)
    ensures
        puts(*old(builder), *final(builder), CertificatePart::Version(version), r),
{
    builder.set_version(version).map_err(|e| e.to_string())
}

/// Why a serial number could not be put into a certificate: it could not be made,
/// or it was not taken.
pub enum SerialFault {
    Made(String),
    Taken(String),
}

impl SerialFault {
    /// The message of the fault.
    pub open spec fn text(self) -> Seq<char> {
        match self {
            SerialFault::Made(message) => message@,
            SerialFault::Taken(message) => message@,
        }
    }
}

/// Calls `openssl::x509::X509Builder::set_serial_number` on a small number. Claimed:
/// the number is put into the certificate, or the message is that of a refusal of it.
#[verifier::external_body]
pub(crate) fn set_serial_number(
    builder: &mut openssl::x509::X509Builder,
    serial: u32,
) -> (r: Result<(), SerialFault>)
    ensures
        match r {
            Ok(_) => certificate_draft(*final(builder)) == certificate_draft(*old(builder)).push(
                CertificatePart::Serial(serial),
            ),
            Err(fault) => part_refusal(
                certificate_draft(*old(builder)),
                CertificatePart::Serial(serial),
                fault.text(),
            ),
        },
{
    let number = openssl::bn::BigNum::from_u32(serial).and_then(|number| number.to_asn1_integer());
    let number = number.map_err(|e| SerialFault::Made(e.to_string()))?;
    builder.set_serial_number(&number).map_err(|e| SerialFault::Taken(e.to_string()))
}

/// Calls `openssl::x509::X509Builder::set_subject_name`. Claimed: the name is put
/// into the certificate as the holder's, or the message is that of a refusal of it.
#[verifier::external_body]
pub(crate) fn set_subject_name(
    builder: &mut openssl::x509::X509Builder,
    name: &openssl::x509::X509Name,
) -> (r: Result<(), String>)
    ensures
        puts(*old(builder), *final(builder), CertificatePart::Subject(name_entries(*name)), r),
{
    builder.set_subject_name(name).map_err(|e| e.to_string())
}

/// Calls `openssl::x509::X509Builder::set_issuer_name`. Claimed: the name is put
/// into the certificate as the issuer's, or the message is that of a refusal of it.
#[verifier::external_body]
pub(crate) fn set_issuer_name(
    builder: &mut openssl::x509::X509Builder,
    name: &openssl::x509::X509Name,
) -> (r: Result<(), String>)
    ensures
        puts(*old(builder), *final(builder), CertificatePart::Issuer(name_entries(*name)), r),
{
    builder.set_issuer_name(name).map_err(|e| e.to_string())
}

/// Calls `openssl::x509::X509Builder::set_pubkey`. Claimed: the key is put into
/// the certificate, or the message is that of a refusal of it.
#[verifier::external_body]
fn set_public_key(
    builder: &mut openssl::x509::X509Builder,
    key: &openssl::pkey::PKey<openssl::pkey::Public>,
) -> (r: Result<(), String>)
    ensures
        puts(*old(builder), *final(builder), CertificatePart::PublicKey(public_key_bytes(*key)), r),
{
    builder.set_pubkey(key).map_err(|e| e.to_string())
}

/// Calls `openssl::x509::X509Builder::set_not_before` with a time that
/// `openssl::asn1::Asn1Time::days_from_now` counts, in seconds, in a C `long`.
/// Claimed: the days are put into the certificate as the start of its validity, or
/// the message is that of a refusal of them.
#[verifier::external_body]
pub(crate) fn set_not_before(builder: &mut openssl::x509::X509Builder, days: u32) -> (r: Result<
    (),
    String,
>)
    requires
        days <= 24_855,
    ensures
        puts(*old(builder), *final(builder), CertificatePart::NotBefore(days), r),
{
    let time = openssl::asn1::Asn1Time::days_from_now(days).map_err(|e| e.to_string())?;
    builder.set_not_before(&time).map_err(|e| e.to_string())
}

/// Calls `openssl::x509::X509Builder::set_not_after` with a time that
/// `openssl::asn1::Asn1Time::days_from_now` counts, in seconds, in a C `long`.
/// Claimed: the days are put into the certificate as the end of its validity, or the
/// message is that of a refusal of them.
#[verifier::external_body]
pub(crate) fn set_not_after(builder: &mut openssl::x509::X509Builder, days: u32) -> (r: Result<
    (),
    String,
>)
    requires
        days <= 24_855,
    ensures
        puts(*old(builder), *final(builder), CertificatePart::NotAfter(days), r),
{
    let time = openssl::asn1::Asn1Time::days_from_now(days).map_err(|e| e.to_string())?;
    builder.set_not_after(&time).map_err(|e| e.to_string())
}

/// Appends a critical extension that `openssl::x509::extension::BasicConstraints`
/// builds for a certificate that is no authority. Claimed: it is put into the
/// certificate, or the message is that of a refusal of it.
#[verifier::external_body]
pub(crate) fn append_no_authority(builder: &mut openssl::x509::X509Builder) -> (r: Result<
    (),
    String,
>)
    ensures
        puts(*old(builder), *final(builder), CertificatePart::NoAuthority, r),
{
    let extension = openssl::x509::extension::BasicConstraints::new().critical().build();
    let extension = extension.map_err(|e| e.to_string())?;
    builder.append_extension(extension).map_err(|e| e.to_string())
}

/// Appends a critical extension that `openssl::x509::extension::KeyUsage` builds for
/// a key that agrees on keys. Claimed: it is put into the certificate, or the message
/// is that of a refusal of it.
#[verifier::external_body]
fn append_key_agreement(builder: &mut openssl::x509::X509Builder) -> (r: Result<(), String>)
    ensures
        puts(*old(builder), *final(builder), CertificatePart::KeyAgreement, r),
{
    let extension = openssl::x509::extension::KeyUsage::new().critical().key_agreement().build();
    let extension = extension.map_err(|e| e.to_string())?;
    builder.append_extension(extension).map_err(|e| e.to_string())
}

/// Appends an extension that `openssl::x509::extension::SubjectKeyIdentifier` builds
/// for the key of the certificate that is being made. Claimed: it is put into the
/// certificate, or the message is that of a refusal of it.
#[verifier::external_body]
pub(crate) fn append_key_identifier(builder: &mut openssl::x509::X509Builder) -> (r: Result<
    (),
    String,
>)
    ensures
        puts(*old(builder), *final(builder), CertificatePart::SubjectKeyIdentifier, r),
{
    let context = builder.x509v3_context(None, None);
    let extension = openssl::x509::extension::SubjectKeyIdentifier::new().build(&context);
    let extension = extension.map_err(|e| e.to_string())?;
    builder.append_extension(extension).map_err(|e| e.to_string())
}

/// Calls `openssl::x509::X509Builder::sign` with SHA-256. Claimed: the signature is
/// put into the certificate, or the message is that of a refusal of it.
#[verifier::external_body]
pub(crate) fn sign_certificate(
    builder: &mut openssl::x509::X509Builder,
    key: &openssl::pkey::PKey<openssl::pkey::Private>,
) -> (r: Result<(), String>)
    ensures
        puts(*old(builder), *final(builder), CertificatePart::SignedWith(*key), r),
{
    builder.sign(key, openssl::hash::MessageDigest::sha256()).map_err(|e| e.to_string())
}

/// Calls `openssl::x509::X509Builder::build`. Claimed: the certificate has the parts
/// that were put into it.
#[verifier::external_body]
pub(crate) fn finish_certificate(builder: openssl::x509::X509Builder) -> (certificate:
    openssl::x509::X509)
    ensures
        certificate_parts(certificate) == certificate_draft(builder),
{
    builder.build()
}

/// Calls `openssl::x509::X509Ref::to_der`. Claimed: the bytes, or the message of a
/// refusal, answer for the parts of the certificate. Its signature is random and its
/// validity counts from now, so the bytes are not stated.
#[verifier::external_body]
pub(crate) fn certificate_bytes(certificate: &openssl::x509::X509) -> (der: Result<Vec<u8>, String>)
    ensures
        match der {
            Ok(der) => certificate_bytes_answer(certificate_parts(*certificate), der@),
            Err(message) => bytes_refusal(certificate_parts(*certificate), message@),
        },
{
    certificate.to_der().map_err(|e| e.to_string())
}

/// Whether OpenSSL can refuse, with this message, to make a key on the P-256 curve.
pub open spec fn p256_refusal(message: Seq<char>) -> bool {
    group_refusal(message) || generation_refusal(message) || key_refusal(message)
}

/// Whether OpenSSL can refuse, with this message, to make a name of one attribute.
pub open spec fn name_refusal(field: Seq<char>, value: Seq<char>, message: Seq<char>) -> bool {
    new_name_refusal(message) || entry_refusal(Seq::empty(), field, value, message)
}

/// Whether OpenSSL can refuse, with this message, the part number `k` of a
/// certificate that is made of these parts in order.
pub open spec fn refused_at(parts: Seq<CertificatePart>, k: int, message: Seq<char>) -> bool {
    0 <= k < parts.len() && part_refusal(parts.take(k), parts[k], message)
}

fn settle<T>(step: CertificateStep, outcome: Result<T, String>) -> (r: Result<T, TzapError>)
    ensures
        match outcome {
            Ok(value) => r == Ok::<T, TzapError>(value),
            Err(message) => r matches Err(e) && e@ == step_fault(step, message@),
        },
{
    match outcome {
        Ok(value) => Ok(value),
        Err(message) => Err(certificate_step_error(step, message.as_str())),
    }
}

/// Whether an error is that of a key on the P-256 curve that could not be made.
pub open spec fn is_key_fault(fault: TzapFault) -> bool {
    exists|message: Seq<char>|
        p256_refusal(message) && fault == #[trigger] step_fault(
            CertificateStep::IssuerKey,
            message,
        )
}

fn issuer_key() -> (key: Result<openssl::pkey::PKey<openssl::pkey::Private>, TzapError>)
    ensures
        match key {
            Ok(key) => key_curve(key) == "P-256"@,
            Err(e) => is_key_fault(e@),
        },
{
    let group: openssl::ec::EcGroup = match settle(CertificateStep::IssuerKey, p256_group()) {
        Ok(group) => group,
        Err(e) => {
            return Err(e);
        },
    };
    let key: openssl::ec::EcKey<openssl::pkey::Private> = match settle(
        CertificateStep::IssuerKey,
        generate_ec_key(&group),
    ) {
        Ok(key) => key,
        Err(e) => {
            return Err(e);
        },
    };
    settle(CertificateStep::IssuerKey, key_from_ec_key(key))
}

/// The one attribute of a holder's name, with its value.
pub open spec fn one_entry(field: Seq<char>, value: Seq<char>) -> Seq<(Seq<char>, Seq<char>)> {
    seq![(field, value)]
}

/// Whether an error is that of a name that could not be made.
pub open spec fn is_name_fault(field: Seq<char>, value: Seq<char>, fault: TzapFault) -> bool {
    exists|message: Seq<char>|
        name_refusal(field, value, message) && fault == #[trigger] step_fault(
            CertificateStep::Name,
            message,
        )
}

fn holder_name(template: &CertificateTemplate) -> (name: Result<openssl::x509::X509Name, TzapError>)
    requires
        !template.name_field@.contains('\0'),
        template.name@.len() <= 0x0fff_ffff,
    ensures
        match name {
            Ok(name) => name_entries(name) == one_entry(template.name_field@, template.name@),
            Err(e) => is_name_fault(template.name_field@, template.name@, e@),
        },
{
    let mut name: openssl::x509::X509NameBuilder = match settle(CertificateStep::Name, new_name()) {
        Ok(name) => name,
        Err(e) => {
            return Err(e);
        },
    };
    match settle(
        CertificateStep::Name,
        append_name_entry(&mut name, template.name_field, template.name),
    ) {
        Ok(_) => {},
        Err(e) => {
            return Err(e);
        },
    }
    assert(name_draft(name) =~= one_entry(template.name_field@, template.name@));
    Ok(finish_name(name))
}

/// The parts of the certificate that a template describes: the version, the serial
/// number, the holder, who is also the issuer, the holder's key, how long it is
/// valid, that it is no authority, that its key agrees on keys, which key that is,
/// and the signature.
pub open spec fn template_parts(
    template: CertificateTemplate,
    public_key: Seq<u8>,
    issuer: openssl::pkey::PKey<openssl::pkey::Private>,
) -> Seq<CertificatePart> {
    let name = one_entry(template.name_field@, template.name@);
    seq![
        CertificatePart::Version(template.version),
        CertificatePart::Serial(template.serial),
        CertificatePart::Subject(name),
        CertificatePart::Issuer(name),
        CertificatePart::PublicKey(public_key),
        CertificatePart::NotBefore(template.valid_from_days),
        CertificatePart::NotAfter(template.valid_until_days),
        CertificatePart::NoAuthority,
        CertificatePart::KeyAgreement,
        CertificatePart::SubjectKeyIdentifier,
        CertificatePart::SignedWith(issuer),
    ]
}

/// Whether a step is the one at which a part is put into the certificate. A serial
/// number may fail when it is made or when it is put in.
pub open spec fn is_step_of(step: CertificateStep, part: CertificatePart) -> bool {
    match part {
        CertificatePart::SignedWith(_) => step == CertificateStep::Signing,
        CertificatePart::Serial(_) => step == CertificateStep::Serial || step
            == CertificateStep::Field,
        _ => step == CertificateStep::Field,
    }
}

/// Whether an error is that of one of the parts of a certificate, which was refused.
pub open spec fn is_part_fault(parts: Seq<CertificatePart>, fault: TzapFault) -> bool {
    exists|k: int, step: CertificateStep, message: Seq<char>|
        refused_at(parts, k, message) && is_step_of(step, parts[k]) && fault
            == #[trigger] fault_at(k, step, message)
}

/// The error of the step at which the part number `k` was refused.
pub open spec fn fault_at(k: int, step: CertificateStep, message: Seq<char>) -> TzapFault {
    step_fault(step, message)
}

proof fn lemma_part_fault(
    parts: Seq<CertificatePart>,
    k: int,
    step: CertificateStep,
    message: Seq<char>,
)
    requires
        refused_at(parts, k, message),
        is_step_of(step, parts[k]),
    ensures
        is_part_fault(parts, step_fault(step, message)),
{
    assert(fault_at(k, step, message) == step_fault(step, message));
}

fn put_parts(
    builder: &mut openssl::x509::X509Builder,
    template: &CertificateTemplate,
    name: &openssl::x509::X509Name,
    public_key: &openssl::pkey::PKey<openssl::pkey::Public>,
    issuer: &openssl::pkey::PKey<openssl::pkey::Private>,
) -> (r: Result<(), TzapError>)
    requires
        certificate_draft(*old(builder)) == Seq::<CertificatePart>::empty(),
        name_entries(*name) == one_entry(template.name_field@, template.name@),
        template.valid_from_days <= 24_855,
        template.valid_until_days <= 24_855,
    ensures
        match r {
            Ok(_) => certificate_draft(*final(builder)) == template_parts(
                *template,
                public_key_bytes(*public_key),
                *issuer,
            ),
            Err(e) => is_part_fault(
                template_parts(*template, public_key_bytes(*public_key), *issuer),
                e@,
            ),
        },
{
    let ghost parts = template_parts(*template, public_key_bytes(*public_key), *issuer);
    assert(certificate_draft(*builder) =~= parts.take(0));
    match set_version(builder, template.version) {
        Ok(_) => {},
        Err(message) => {
            proof {
                lemma_part_fault(parts, 0, CertificateStep::Field, message@);
            }
            return Err(certificate_step_error(CertificateStep::Field, message.as_str()));
        },
    }
    assert(certificate_draft(*builder) =~= parts.take(1));
    match set_serial_number(builder, template.serial) {
        Ok(_) => {},
        Err(fault) => {
            let ghost why = fault.text();
            let (step, message) = match fault {
                SerialFault::Made(message) => (CertificateStep::Serial, message),
                SerialFault::Taken(message) => (CertificateStep::Field, message),
            };
            proof {
                lemma_part_fault(parts, 1, step, why);
            }
            return Err(certificate_step_error(step, message.as_str()));
        },
    }
    assert(certificate_draft(*builder) =~= parts.take(2));
    match set_subject_name(builder, name) {
        Ok(_) => {},
        Err(message) => {
            proof {
                lemma_part_fault(parts, 2, CertificateStep::Field, message@);
            }
            return Err(certificate_step_error(CertificateStep::Field, message.as_str()));
        },
    }
    assert(certificate_draft(*builder) =~= parts.take(3));
    match set_issuer_name(builder, name) {
        Ok(_) => {},
        Err(message) => {
            proof {
                lemma_part_fault(parts, 3, CertificateStep::Field, message@);
            }
            return Err(certificate_step_error(CertificateStep::Field, message.as_str()));
        },
    }
    assert(certificate_draft(*builder) =~= parts.take(4));
    match set_public_key(builder, public_key) {
        Ok(_) => {},
        Err(message) => {
            proof {
                lemma_part_fault(parts, 4, CertificateStep::Field, message@);
            }
            return Err(certificate_step_error(CertificateStep::Field, message.as_str()));
        },
    }
    assert(certificate_draft(*builder) =~= parts.take(5));
    match set_not_before(builder, template.valid_from_days) {
        Ok(_) => {},
        Err(message) => {
            proof {
                lemma_part_fault(parts, 5, CertificateStep::Field, message@);
            }
            return Err(certificate_step_error(CertificateStep::Field, message.as_str()));
        },
    }
    assert(certificate_draft(*builder) =~= parts.take(6));
    match set_not_after(builder, template.valid_until_days) {
        Ok(_) => {},
        Err(message) => {
            proof {
                lemma_part_fault(parts, 6, CertificateStep::Field, message@);
            }
            return Err(certificate_step_error(CertificateStep::Field, message.as_str()));
        },
    }
    assert(certificate_draft(*builder) =~= parts.take(7));
    match append_no_authority(builder) {
        Ok(_) => {},
        Err(message) => {
            proof {
                lemma_part_fault(parts, 7, CertificateStep::Field, message@);
            }
            return Err(certificate_step_error(CertificateStep::Field, message.as_str()));
        },
    }
    assert(certificate_draft(*builder) =~= parts.take(8));
    match append_key_agreement(builder) {
        Ok(_) => {},
        Err(message) => {
            proof {
                lemma_part_fault(parts, 8, CertificateStep::Field, message@);
            }
            return Err(certificate_step_error(CertificateStep::Field, message.as_str()));
        },
    }
    assert(certificate_draft(*builder) =~= parts.take(9));
    match append_key_identifier(builder) {
        Ok(_) => {},
        Err(message) => {
            proof {
                lemma_part_fault(parts, 9, CertificateStep::Field, message@);
            }
            return Err(certificate_step_error(CertificateStep::Field, message.as_str()));
        },
    }
    assert(certificate_draft(*builder) =~= parts.take(10));
    match sign_certificate(builder, issuer) {
        Ok(_) => {},
        Err(message) => {
            proof {
                lemma_part_fault(parts, 10, CertificateStep::Signing, message@);
            }
            return Err(certificate_step_error(CertificateStep::Signing, message.as_str()));
        },
    }
    assert(certificate_draft(*builder) =~= parts);
    Ok(())
}

/// Whether an error is that of a certificate for a public key that could not be made:
/// the first step that OpenSSL refused tells why.
pub open spec fn is_certificate_fault(public_key: Seq<u8>, fault: TzapFault) -> bool {
    ||| exists|message: Seq<char>|
        public_key_refusal(public_key, message) && fault == #[trigger] step_fault(
            CertificateStep::PublicKey,
            message,
        )
    ||| is_accepted_key(public_key) && is_later_fault(public_key, fault)
}

/// Whether OpenSSL takes some bytes for a public key.
pub open spec fn is_accepted_key(public_key: Seq<u8>) -> bool {
    exists|key: openssl::pkey::PKey<openssl::pkey::Public>| #[trigger]
        public_key_bytes(key) == public_key
}

/// Whether an error is that of a step after the public key was accepted.
pub open spec fn is_later_fault(public_key: Seq<u8>, fault: TzapFault) -> bool {
    ||| is_key_fault(fault)
    ||| is_name_fault("CN"@, "ZManager Contact Recipient"@, fault)
    ||| exists|message: Seq<char>|
        new_certificate_refusal(message) && fault == #[trigger] step_fault(
            CertificateStep::Builder,
            message,
        )
    ||| exists|issuer: openssl::pkey::PKey<openssl::pkey::Private>|
        key_curve(issuer) == "P-256"@ && is_part_fault(
            #[trigger] recipient_parts(public_key, issuer),
            fault,
        )
    ||| exists|issuer: openssl::pkey::PKey<openssl::pkey::Private>, message: Seq<char>|
        key_curve(issuer) == "P-256"@ && bytes_refusal(
            #[trigger] recipient_parts(public_key, issuer),
            message,
        ) && fault == #[trigger] step_fault(CertificateStep::Der, message)
}

/// Whether `der` can be the certificate that stands for a recipient with a public
/// key: it is signed with a key on the P-256 curve that nobody keeps.
pub open spec fn stands_for(der: Seq<u8>, public_key: Seq<u8>) -> bool {
    is_accepted_key(public_key) && exists|issuer: openssl::pkey::PKey<openssl::pkey::Private>|
        key_curve(issuer) == "P-256"@ && certificate_bytes_answer(
            #[trigger] recipient_parts(public_key, issuer),
            der,
        )
}

/// The parts of the certificate that stands for a recipient with a public key.
pub open spec fn recipient_parts(
    public_key: Seq<u8>,
    issuer: openssl::pkey::PKey<openssl::pkey::Private>,
) -> Seq<CertificatePart> {
    seq![
        CertificatePart::Version(2),
        CertificatePart::Serial(1),
        CertificatePart::Subject(one_entry("CN"@, "ZManager Contact Recipient"@)),
        CertificatePart::Issuer(one_entry("CN"@, "ZManager Contact Recipient"@)),
        CertificatePart::PublicKey(public_key),
        CertificatePart::NotBefore(0),
        CertificatePart::NotAfter(365),
        CertificatePart::NoAuthority,
        CertificatePart::KeyAgreement,
        CertificatePart::SubjectKeyIdentifier,
        CertificatePart::SignedWith(issuer),
    ]
}

/// Puts a recipient's public key into a certificate of its own, so that key
/// wrapping can address it. The certificate follows
/// `recipient_certificate_template` and is signed with a key that is forgotten.
pub fn synthetic_recipient_certificate_der(public_key_spki_der: &[u8]) -> (der: Result<
    Vec<u8>,
    TzapError,
>)
    ensures
        match der {
            Ok(der) => stands_for(der@, public_key_spki_der@),
            Err(e) => is_certificate_fault(public_key_spki_der@, e@),
        },
{
    let template: CertificateTemplate = recipient_certificate_template();
    proof {
        reveal_strlit("CN");
        reveal_strlit("ZManager Contact Recipient");
    }
    let public_key: openssl::pkey::PKey<openssl::pkey::Public> = match settle(
        CertificateStep::PublicKey,
        public_key_from_der(public_key_spki_der),
    ) {
        Ok(key) => key,
        Err(e) => {
            return Err(e);
        },
    };
    assert(public_key_bytes(public_key) == public_key_spki_der@);
    let issuer: openssl::pkey::PKey<openssl::pkey::Private> = match issuer_key() {
        Ok(key) => key,
        Err(e) => {
            return Err(e);
        },
    };
    let name: openssl::x509::X509Name = match holder_name(&template) {
        Ok(name) => name,
        Err(e) => {
            return Err(e);
        },
    };
    let mut builder: openssl::x509::X509Builder = match settle(
        CertificateStep::Builder,
        new_certificate(),
    ) {
        Ok(builder) => builder,
        Err(e) => {
            return Err(e);
        },
    };
    let ghost parts = recipient_parts(public_key_spki_der@, issuer);
    assert(template_parts(template, public_key_spki_der@, issuer) =~= parts);
    match put_parts(&mut builder, &template, &name, &public_key, &issuer) {
        Ok(_) => {},
        Err(e) => {
            return Err(e);
        },
    }
    let certificate: openssl::x509::X509 = finish_certificate(builder);
    assert(certificate_parts(certificate) == recipient_parts(public_key_spki_der@, issuer));
    settle(CertificateStep::Der, certificate_bytes(&certificate))
}

/// The certificate that stands for the key of a recipient holds that key, a fixed name on
/// both sides, a year of validity and the right to agree on keys, and is signed last by a
/// key on the curve P-256.
pub proof fn law_certificates_stand_for_the_key_of_the_recipient(
    der: Seq<u8>,
    public_key: Seq<u8>,
)
    requires
        stands_for(der, public_key),
    ensures
        exists|parts: Seq<CertificatePart>| #[trigger]
            certificate_bytes_answer(parts, der) && {
                let name = seq![("CN"@, "ZManager Contact Recipient"@)];
                &&& parts.len() == 11
                &&& parts[0] == CertificatePart::Version(2)
                &&& parts[1] == CertificatePart::Serial(1)
                &&& parts[2] == CertificatePart::Subject(name)
                &&& parts[3] == CertificatePart::Issuer(name)
                &&& parts[4] == CertificatePart::PublicKey(public_key)
                &&& parts[5] == CertificatePart::NotBefore(0)
                &&& parts[6] == CertificatePart::NotAfter(365)
                &&& parts[7] is NoAuthority
                &&& parts[8] is KeyAgreement
                &&& parts[9] is SubjectKeyIdentifier
                &&& parts[10] matches CertificatePart::SignedWith(issuer) && key_curve(issuer)
                    == "P-256"@
            },
{
    let issuer = choose|issuer: openssl::pkey::PKey<openssl::pkey::Private>|
        key_curve(issuer) == "P-256"@ && certificate_bytes_answer(
            #[trigger] recipient_parts(public_key, issuer),
            der,
        );
    let parts = recipient_parts(public_key, issuer);
    assert(certificate_bytes_answer(parts, der));
    assert(parts.len() == 11);
}

/// A failure tells which step of making the certificate it came from.
pub proof fn law_failures_tell_their_step(step: CertificateStep, message: Seq<char>)
    ensures
        step is PublicKey ==> step_fault(step, message) == TzapFault::KeyWrap(
            "recipient public key is invalid: "@ + message,
        ),
        step is IssuerKey ==> step_fault(step, message) == TzapFault::KeyWrap(
            "recipient certificate key failed: "@ + message,
        ),
        step is Name ==> step_fault(step, message) == TzapFault::KeyWrap(
            "recipient certificate name failed: "@ + message,
        ),
        step is Builder ==> step_fault(step, message) == TzapFault::KeyWrap(
            "recipient certificate failed: "@ + message,
        ),
        step is Serial ==> step_fault(step, message) == TzapFault::KeyWrap(
            "recipient certificate serial failed: "@ + message,
        ),
        step is Field ==> step_fault(step, message) == TzapFault::KeyWrap(message),
        step is Signing ==> step_fault(step, message) == TzapFault::KeyWrap(
            "recipient certificate signing failed: "@ + message,
        ),
        step is Der ==> step_fault(step, message) == TzapFault::KeyWrap(
            "recipient certificate DER failed: "@ + message,
        ),
{
    if step is Field {
        reveal_strlit("");
        assert(""@ + message =~= message);
    }
}

} // verus!
