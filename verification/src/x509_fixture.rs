//! A factory for certificate chains to test with: a root, an intermediate
//! authority below it, and a signer below that.
//!
//! Which extensions a certificate carries is decided as a list of values, and what
//! is put into a certificate is told part by part. Keys are random and validity
//! counts from now, so the bytes of a certificate are left to OpenSSL.
use crate::bytes::copy_range;
use crate::der::{der_object, der_sequence};
#[allow(unused_imports)]
use crate::der::{OBJECT_IDENTIFIER, SEQUENCE, wrapped};
use crate::text::{concat2, hex_text};
#[allow(unused_imports)]
use crate::text::hex;
use crate::tzap::certificate::{
    SerialFault, append_key_identifier, append_name_entry, append_no_authority, certificate_bytes,
    finish_certificate, finish_name, generate_ec_key, key_from_ec_key, new_certificate, new_name,
    p256_group, set_issuer_name, set_not_after, set_not_before, set_serial_number,
    set_subject_name, set_version, sign_certificate,
};
#[allow(unused_imports)]
use crate::tzap::certificate::{
    CertificatePart, bytes_refusal, certificate_bytes_answer, certificate_draft, certificate_parts,
    key_curve, name_draft, name_entries, name_refusal, new_certificate_refusal, one_entry,
    p256_refusal, part_refusal, puts, refused_at,
};
use vstd::prelude::*;

verus! {

/// How a chain departs from the usual one.
#[derive(Debug, Clone, Copy, PartialEq, Eq, Structural)]
pub struct ChainConfig {
    /// Whether the signer's certificate carries no policy.
    pub omit_leaf_policy: bool,
}

impl Default for ChainConfig {
    fn default() -> (config: Self)
        ensures
            !config.omit_leaf_policy,
    {
        ChainConfig { omit_leaf_policy: false }
    }
}

/// The object identifiers that mark the certificates of a chain.
#[derive(Debug, PartialEq, Eq)]
pub struct ChainIdentifiers {
    /// The policy of an authority.
    pub ca_policy: String,
    /// The policy of a signer.
    pub leaf_policy: String,
    /// What a signer's certificate is used for.
    pub document_signing: String,
    /// The extension that tells about a signer.
    pub metadata_extension: String,
}

/// Whether a text can be handed to C.
pub open spec fn is_c_text(text: Seq<char>) -> bool {
    !text.contains('\0')
}

impl ChainIdentifiers {
    /// Whether all the identifiers can be handed to C.
    pub open spec fn wf(self) -> bool {
        &&& is_c_text(self.ca_policy@)
        &&& is_c_text(self.leaf_policy@)
        &&& is_c_text(self.document_signing@)
        &&& is_c_text(self.metadata_extension@)
    }
}

/// Whether a text is an object identifier in digits and dots.
pub open spec fn is_dotted(text: Seq<char>) -> bool {
    text.len() > 0 && forall|i: int|
        0 <= i < text.len() ==> #[trigger] text[i] == '.' || crate::text::is_digit(text[i])
}

/// Bytes that may be missing, taken as a sequence.
pub open spec fn bytes_view(bytes: Option<Vec<u8>>) -> Option<Seq<u8>> {
    match bytes {
        Some(bytes) => Some(bytes@),
        None => None,
    }
}

/// The bytes of an object identifier that is given in digits and dots; `None`
/// where there is no such identifier.
pub uninterp spec fn object_value(oid: Seq<char>) -> Option<Seq<u8>>;

/// Calls `openssl::asn1::Asn1Object::from_str`, which takes no text with a zero in
/// it, and `openssl::asn1::Asn1Object::as_slice` on its result. Claimed: for
/// digits and dots the bytes depend on the text alone. A name is looked up in a
/// table that programs can add to, so nothing is claimed of it.
#[verifier::external_body]
fn object_bytes(oid: &str) -> (value: Option<Vec<u8>>)
    requires
        is_c_text(oid@),
    ensures
        is_dotted(oid@) ==> bytes_view(value) == object_value(oid@),
{
    openssl::asn1::Asn1Object::from_str(oid).ok().map(|object| object.as_slice().to_vec())
}

/// Whether a value can be that of an object identifier.
pub open spec fn may_be_object(oid: Seq<char>, value: Option<Seq<u8>>) -> bool {
    is_dotted(oid) ==> value == object_value(oid)
}

/// An object identifier around its value.
pub open spec fn object_element(value: Option<Seq<u8>>) -> Option<Seq<u8>> {
    match value {
        Some(value) => Some(wrapped(OBJECT_IDENTIFIER, value)),
        None => None,
    }
}

/// An object identifier as DER; `None` where OpenSSL knows no such identifier.
pub fn der_oid(oid: &str) -> (out: Option<Vec<u8>>)
    requires
        is_c_text(oid@),
    ensures
        exists|value: Option<Seq<u8>>| #[trigger]
            may_be_object(oid@, value) && bytes_view(out) == object_element(value),
{
    let found: Option<Vec<u8>> = object_bytes(oid);
    assert(may_be_object(oid@, bytes_view(found)));
    match found {
        Some(value) => Some(der_object(value.as_slice())),
        None => None,
    }
}

/// The policies of a certificate, each in a sequence of its own; `None` where
/// one is not known.
pub open spec fn policy_infos(objects: Seq<Option<Seq<u8>>>) -> Option<Seq<u8>>
    decreases objects.len(),
{
    if objects.len() == 0 {
        Some(Seq::empty())
    } else {
        match (policy_infos(objects.drop_last()), object_element(objects.last())) {
            (Some(infos), Some(element)) => Some(infos + wrapped(SEQUENCE, element)),
            _ => None,
        }
    }
}

/// The certificate policies extension.
pub open spec fn policies_element(objects: Seq<Option<Seq<u8>>>) -> Option<Seq<u8>> {
    match policy_infos(objects) {
        Some(infos) => Some(wrapped(SEQUENCE, infos)),
        None => None,
    }
}

/// Whether values can be those of a list of object identifiers.
pub open spec fn may_be_objects(oids: Seq<&str>, objects: Seq<Option<Seq<u8>>>) -> bool {
    &&& objects.len() == oids.len()
    &&& forall|i: int|
        #![trigger objects[i]]
        0 <= i < oids.len() ==> may_be_object(oids[i]@, objects[i])
}

proof fn lemma_unknown_policy(objects: Seq<Option<Seq<u8>>>, k: int)
    requires
        0 <= k < objects.len(),
        objects[k] is None,
    ensures
        policy_infos(objects) is None,
    decreases objects.len(),
{
    if k < objects.len() - 1 {
        lemma_unknown_policy(objects.drop_last(), k);
    }
}

/// The certificate policies extension for a list of policies; `None` where
/// OpenSSL does not know one of them.
pub fn certificate_policies_der(policies: &[&str]) -> (out: Option<Vec<u8>>)
    requires
        forall|i: int| 0 <= i < policies@.len() ==> is_c_text((#[trigger] policies@[i])@),
    ensures
        exists|objects: Seq<Option<Seq<u8>>>| #[trigger]
            may_be_objects(policies@, objects) && bytes_view(out) == policies_element(objects),
{
    let mut infos: Vec<u8> = Vec::new();
    let mut known: bool = true;
    let ghost mut objects: Seq<Option<Seq<u8>>> = Seq::empty();
    let mut i: usize = 0;
    while i < policies.len()
        invariant
            i <= policies@.len(),
            forall|k: int| 0 <= k < policies@.len() ==> is_c_text((#[trigger] policies@[k])@),
            objects.len() == i,
            forall|k: int|
                #![trigger objects[k]]
                0 <= k < i ==> may_be_object(policies@[k]@, objects[k]),
            policy_infos(objects) == (if known {
                Some(infos@)
            } else {
                None
            }),
        decreases policies@.len() - i,
    {
        assert(is_c_text(policies@[i as int]@));
        let found: Option<Vec<u8>> = object_bytes(policies[i]);
        proof {
            let before = objects;
            objects = objects.push(bytes_view(found));
            assert(objects.drop_last() =~= before);
        }
        match found {
            Some(value) => {
                let element: Vec<u8> = der_object(value.as_slice());
                let info: Vec<u8> = der_sequence(element.as_slice());
                let ghost head = infos@;
                crate::bytes::push_range(&mut infos, info.as_slice(), 0, info.len());
                assert(infos@ =~= head + info@);
            },
            None => {
                known = false;
            },
        }
        i = i + 1;
    }
    assert(may_be_objects(policies@, objects));
    if known {
        Some(der_sequence(infos.as_slice()))
    } else {
        None
    }
}

/// The value of a field.
#[derive(Debug, PartialEq, Eq)]
pub enum JsonValue {
    Number(u64),
    Text(String),
}

/// A field of an object.
#[derive(Debug, PartialEq, Eq)]
pub struct JsonField {
    pub name: String,
    pub value: JsonValue,
}

/// The value of a field with its text taken as a sequence.
pub enum JsonValueView {
    Number(u64),
    Text(Seq<char>),
}

/// A field with its texts taken as sequences.
pub struct JsonFieldView {
    pub name: Seq<char>,
    pub value: JsonValueView,
}

impl View for JsonField {
    type V = JsonFieldView;

    open spec fn view(&self) -> JsonFieldView {
        JsonFieldView {
            name: self.name@,
            value: match self.value {
                JsonValue::Number(n) => JsonValueView::Number(n),
                JsonValue::Text(text) => JsonValueView::Text(text@),
            },
        }
    }
}

/// Fields with their texts taken as sequences.
pub open spec fn field_views(fields: Seq<JsonField>) -> Seq<JsonFieldView> {
    fields.map_values(|f: JsonField| f@)
}

/// An object with the given fields as canonical JSON; `None` where it cannot be
/// written.
pub uninterp spec fn canonical_json(fields: Seq<JsonFieldView>) -> Option<Seq<u8>>;

/// Calls `serde_json_canonicalizer::to_vec` on an object with the given fields.
/// Claimed: the bytes depend on the fields alone.
#[verifier::external_body]
fn write_canonical_json(fields: &Vec<JsonField>) -> (json: Option<Vec<u8>>)
    ensures
        bytes_view(json) == canonical_json(field_views(fields@)),
{
    let object: serde_json::Map<String, serde_json::Value> = fields.iter().map(|f| {
        let value = match &f.value {
            JsonValue::Number(n) => serde_json::Value::from(*n),
            JsonValue::Text(text) => serde_json::Value::from(text.as_str()),
        };
        (f.name.clone(), value)
    }).collect();
    serde_json_canonicalizer::to_vec(&serde_json::Value::Object(object)).ok()
}

fn text_field(name: &str, text: &str) -> (field: JsonField)
    ensures
        field@ == (JsonFieldView { name: name@, value: JsonValueView::Text(text@) }),
{
    JsonField { name: name.to_owned(), value: JsonValue::Text(text.to_owned()) }
}

/// A field with a text.
pub open spec fn text_field_view(name: Seq<char>, text: Seq<char>) -> JsonFieldView {
    JsonFieldView { name, value: JsonValueView::Text(text) }
}

/// What the metadata extension tells about a signer.
pub open spec fn metadata_fields_view(policy_oid: Seq<char>) -> Seq<JsonFieldView> {
    seq![
        JsonFieldView { name: "version"@, value: JsonValueView::Number(1) },
        text_field_view("public_signer_id"@, "psign_0123456789ABCDEFGH"@),
        text_field_view("public_org_id"@, "porg_0123456789ABCDEFGH"@),
        text_field_view("public_device_id"@, "pdev_0123456789ABCDEFGH"@),
        text_field_view("assurance_level"@, "oauth_verified_email"@),
        text_field_view("policy_oid"@, policy_oid),
    ]
}

/// What the metadata extension tells about a signer.
pub fn metadata_fields(policy_oid: &str) -> (fields: Vec<JsonField>)
    ensures
        field_views(fields@) == metadata_fields_view(policy_oid@),
{
    let mut fields: Vec<JsonField> = Vec::new();
    fields.push(JsonField { name: "version".to_owned(), value: JsonValue::Number(1) });
    fields.push(text_field("public_signer_id", "psign_0123456789ABCDEFGH"));
    fields.push(text_field("public_org_id", "porg_0123456789ABCDEFGH"));
    fields.push(text_field("public_device_id", "pdev_0123456789ABCDEFGH"));
    fields.push(text_field("assurance_level", "oauth_verified_email"));
    fields.push(text_field("policy_oid", policy_oid));
    assert(field_views(fields@) =~= metadata_fields_view(policy_oid@));
    fields
}

/// The contents of the metadata extension; `None` where they cannot be written.
pub fn metadata_extension_bytes(policy_oid: &str) -> (bytes: Option<Vec<u8>>)
    ensures
        bytes_view(bytes) == canonical_json(metadata_fields_view(policy_oid@)),
{
    write_canonical_json(&metadata_fields(policy_oid))
}

/// An extension that a certificate is to carry.
#[derive(Debug, PartialEq, Eq)]
pub enum ExtensionPlan {
    /// It is an authority, with so many authorities below it at most.
    Authority(u32),
    /// It is no authority.
    NoAuthority,
    /// Its key signs certificates and revocation lists.
    CertificateSigning,
    /// Its key signs documents.
    DigitalSignature,
    /// Which key it is about.
    SubjectKeyIdentifier,
    /// Which key has signed it.
    AuthorityKeyIdentifier,
    /// What it is used for.
    ExtendedUsage(String),
    /// An extension that is given as DER.
    Der {
        /// Which extension it is.
        oid: String,
        /// Whether a reader that does not know it has to reject the certificate.
        critical: bool,
        /// Its contents.
        contents: Vec<u8>,
    },
}

/// An extension with its texts and bytes taken as sequences.
pub enum ExtensionView {
    Authority(u32),
    NoAuthority,
    CertificateSigning,
    DigitalSignature,
    SubjectKeyIdentifier,
    AuthorityKeyIdentifier,
    ExtendedUsage(Seq<char>),
    Der { oid: Seq<char>, critical: bool, contents: Seq<u8> },
}

impl View for ExtensionPlan {
    type V = ExtensionView;

    open spec fn view(&self) -> ExtensionView {
        match self {
            ExtensionPlan::Authority(n) => ExtensionView::Authority(*n),
            ExtensionPlan::NoAuthority => ExtensionView::NoAuthority,
            ExtensionPlan::CertificateSigning => ExtensionView::CertificateSigning,
            ExtensionPlan::DigitalSignature => ExtensionView::DigitalSignature,
            ExtensionPlan::SubjectKeyIdentifier => ExtensionView::SubjectKeyIdentifier,
            ExtensionPlan::AuthorityKeyIdentifier => ExtensionView::AuthorityKeyIdentifier,
            ExtensionPlan::ExtendedUsage(oid) => ExtensionView::ExtendedUsage(oid@),
            ExtensionPlan::Der { oid, critical, contents } => ExtensionView::Der {
                oid: oid@,
                critical: *critical,
                contents: contents@,
            },
        }
    }
}

/// Extensions with their texts and bytes taken as sequences.
pub open spec fn extension_views(plans: Seq<ExtensionPlan>) -> Seq<ExtensionView> {
    plans.map_values(|p: ExtensionPlan| p@)
}

/// Whether an extension can be handed to C.
pub open spec fn can_be_appended(plan: ExtensionView) -> bool {
    match plan {
        ExtensionView::ExtendedUsage(oid) => is_c_text(oid),
        ExtensionView::Der { oid, critical, contents } => is_c_text(oid) && contents.len()
            <= i32::MAX,
        _ => true,
    }
}

/// Whether extensions can be handed to C.
pub open spec fn all_can_be_appended(plans: Seq<ExtensionView>) -> bool {
    forall|i: int| 0 <= i < plans.len() ==> can_be_appended(#[trigger] plans[i])
}

/// The extensions of the root.
pub open spec fn root_plan() -> Seq<ExtensionView> {
    seq![
        ExtensionView::Authority(2),
        ExtensionView::CertificateSigning,
        ExtensionView::SubjectKeyIdentifier,
    ]
}

/// The extensions of the root.
pub fn root_extensions() -> (plans: Vec<ExtensionPlan>)
    ensures
        extension_views(plans@) == root_plan(),
{
    let mut plans: Vec<ExtensionPlan> = Vec::new();
    plans.push(ExtensionPlan::Authority(2));
    plans.push(ExtensionPlan::CertificateSigning);
    plans.push(ExtensionPlan::SubjectKeyIdentifier);
    assert(extension_views(plans@) =~= root_plan());
    plans
}

/// An extension that readers may ignore.
pub open spec fn plain_extension(oid: Seq<char>, contents: Seq<u8>) -> ExtensionView {
    ExtensionView::Der { oid, critical: false, contents }
}

fn plain_der(oid: &str, contents: Vec<u8>) -> (plan: ExtensionPlan)
    ensures
        plan@ == plain_extension(oid@, contents@),
{
    ExtensionPlan::Der { oid: oid.to_owned(), critical: false, contents }
}

/// The extensions of the intermediate authority, given its certificate policies.
/// There are no places where revocation lists are published.
pub open spec fn intermediate_plan(policies: Seq<u8>) -> Seq<ExtensionView> {
    seq![
        ExtensionView::Authority(0),
        ExtensionView::CertificateSigning,
        ExtensionView::SubjectKeyIdentifier,
        ExtensionView::AuthorityKeyIdentifier,
        plain_extension("2.5.29.32"@, policies),
        plain_extension("2.5.29.31"@, wrapped(SEQUENCE, Seq::empty())),
    ]
}

/// The extensions of the intermediate authority, given its certificate policies.
pub fn intermediate_extensions(policies: Vec<u8>) -> (plans: Vec<ExtensionPlan>)
    ensures
        extension_views(plans@) == intermediate_plan(policies@),
{
    let nothing: Vec<u8> = Vec::new();
    assert(nothing@ =~= Seq::<u8>::empty());
    let mut plans: Vec<ExtensionPlan> = Vec::new();
    plans.push(ExtensionPlan::Authority(0));
    plans.push(ExtensionPlan::CertificateSigning);
    plans.push(ExtensionPlan::SubjectKeyIdentifier);
    plans.push(ExtensionPlan::AuthorityKeyIdentifier);
    let policy: ExtensionPlan = plain_der("2.5.29.32", policies);
    let points: ExtensionPlan = plain_der("2.5.29.31", der_sequence(nothing.as_slice()));
    plans.push(policy);
    plans.push(points);
    assert(extension_views(plans@) =~= intermediate_plan(policies@));
    plans
}

/// The extensions of the signer, given its certificate policies, if it has any,
/// and what the metadata extension holds.
pub open spec fn leaf_plan(
    usage: Seq<char>,
    policies: Option<Seq<u8>>,
    metadata_oid: Seq<char>,
    metadata: Seq<u8>,
) -> Seq<ExtensionView> {
    seq![
        ExtensionView::NoAuthority,
        ExtensionView::DigitalSignature,
        ExtensionView::ExtendedUsage(usage),
        ExtensionView::AuthorityKeyIdentifier,
    ] + (match policies {
        Some(policies) => seq![plain_extension("2.5.29.32"@, policies)],
        None => Seq::empty(),
    }) + seq![plain_extension(metadata_oid, metadata)]
}

/// The extensions of the signer.
pub fn leaf_extensions(
    usage: &str,
    policies: Option<Vec<u8>>,
    metadata_oid: &str,
    metadata: Vec<u8>,
) -> (plans: Vec<ExtensionPlan>)
    ensures
        extension_views(plans@) == leaf_plan(
            usage@,
            bytes_view(policies),
            metadata_oid@,
            metadata@,
        ),
{
    let ghost given = bytes_view(policies);
    let mut plans: Vec<ExtensionPlan> = Vec::new();
    plans.push(ExtensionPlan::NoAuthority);
    plans.push(ExtensionPlan::DigitalSignature);
    plans.push(ExtensionPlan::ExtendedUsage(usage.to_owned()));
    plans.push(ExtensionPlan::AuthorityKeyIdentifier);
    match policies {
        Some(policies) => {
            let policy: ExtensionPlan = plain_der("2.5.29.32", policies);
            plans.push(policy);
        },
        None => {},
    }
    let about: ExtensionPlan = plain_der(metadata_oid, metadata);
    plans.push(about);
    assert(extension_views(plans@) =~= leaf_plan(usage@, given, metadata_oid@, metadata@));
    plans
}

/// Calls `openssl::x509::X509Builder::set_issuer_name` with the name of the
/// issuer's certificate. Claimed: that issuer is put into the certificate, or the
/// message is that of a refusal of it.
#[verifier::external_body]
fn set_issuer(builder: &mut openssl::x509::X509Builder, issuer: &openssl::x509::X509) -> (r: Result<
    (),
    String,
>)
    ensures
        puts(*old(builder), *final(builder), CertificatePart::IssuedBy(*issuer), r),
{
    builder.set_issuer_name(issuer.subject_name()).map_err(|e| e.to_string())
}

/// Calls `openssl::x509::X509Builder::set_pubkey` with the public part of a
/// private key. Claimed: that key is put into the certificate, or the message is that
/// of a refusal of it.
#[verifier::external_body]
fn set_key(
    builder: &mut openssl::x509::X509Builder,
    key: &openssl::pkey::PKey<openssl::pkey::Private>,
) -> (r: Result<(), String>)
    ensures
        puts(*old(builder), *final(builder), CertificatePart::KeyOf(*key), r),
{
    builder.set_pubkey(key).map_err(|e| e.to_string())
}

/// Appends a critical extension that `openssl::x509::extension::BasicConstraints`
/// builds for an authority. Claimed: it is put into the certificate, or the message
/// is that of a refusal of it.
#[verifier::external_body]
fn append_authority(builder: &mut openssl::x509::X509Builder, path_length: u32) -> (r: Result<
    (),
    String,
>)
    ensures
        puts(*old(builder), *final(builder), CertificatePart::Authority(path_length), r),
{
    let mut constraints = openssl::x509::extension::BasicConstraints::new();
    let extension = constraints.critical().ca().pathlen(path_length).build();
    let extension = extension.map_err(|e| e.to_string())?;
    builder.append_extension(extension).map_err(|e| e.to_string())
}

/// Appends a critical extension that `openssl::x509::extension::KeyUsage` builds for
/// a key that signs certificates and revocation lists. Claimed: it is put into
/// the certificate, or the message is that of a refusal of it.
#[verifier::external_body]
fn append_certificate_signing(builder: &mut openssl::x509::X509Builder) -> (r: Result<(), String>)
    ensures
        puts(*old(builder), *final(builder), CertificatePart::CertificateSigning, r),
{
    let mut usage = openssl::x509::extension::KeyUsage::new();
    let extension = usage.critical().key_cert_sign().crl_sign().build();
    let extension = extension.map_err(|e| e.to_string())?;
    builder.append_extension(extension).map_err(|e| e.to_string())
}

/// Appends a critical extension that `openssl::x509::extension::KeyUsage` builds for
/// a key that signs documents. Claimed: it is put into the certificate, or the message
/// is that of a refusal of it.
#[verifier::external_body]
fn append_digital_signature(builder: &mut openssl::x509::X509Builder) -> (r: Result<(), String>)
    ensures
        puts(*old(builder), *final(builder), CertificatePart::DigitalSignature, r),
{
    let mut usage = openssl::x509::extension::KeyUsage::new();
    let extension = usage.critical().digital_signature().build();
    let extension = extension.map_err(|e| e.to_string())?;
    builder.append_extension(extension).map_err(|e| e.to_string())
}

/// Appends an extension that `openssl::x509::extension::ExtendedKeyUsage` builds for
/// one usage, which takes no text with a zero in it. Claimed: it is put into
/// the certificate, or the message is that of a refusal of it.
#[verifier::external_body]
fn append_extended_usage(builder: &mut openssl::x509::X509Builder, oid: &str) -> (r: Result<
    (),
    String,
>)
    requires
        is_c_text(oid@),
    ensures
        puts(*old(builder), *final(builder), CertificatePart::ExtendedUsage(oid@), r),
{
    let extension = openssl::x509::extension::ExtendedKeyUsage::new().other(oid).build();
    let extension = extension.map_err(|e| e.to_string())?;
    builder.append_extension(extension).map_err(|e| e.to_string())
}

/// Appends an extension that `openssl::x509::extension::AuthorityKeyIdentifier`
/// builds for the key of the issuer. Claimed: it is put into the certificate, or
/// the message is that of a refusal of it.
#[verifier::external_body]
fn append_issuer_key_identifier(
    builder: &mut openssl::x509::X509Builder,
    issuer: &openssl::x509::X509,
) -> (r: Result<(), String>)
    ensures
        puts(*old(builder), *final(builder), CertificatePart::AuthorityKeyIdentifier(*issuer), r),
{
    let context = builder.x509v3_context(Some(issuer), None);
    let mut identifier = openssl::x509::extension::AuthorityKeyIdentifier::new();
    let extension = identifier.keyid(true).build(&context);
    let extension = extension.map_err(|e| e.to_string())?;
    builder.append_extension(extension).map_err(|e| e.to_string())
}

/// Appends an extension that `openssl::x509::X509Extension::new_from_der` makes. The
/// identifier may hold no zero, and the contents may be no longer than C can count.
/// Claimed: it is put into the certificate, or the message is that of a refusal of
/// it.
#[verifier::external_body]
fn append_extension_from_der(
    builder: &mut openssl::x509::X509Builder,
    oid: &str,
    critical: bool,
    contents: &[u8],
) -> (r: Result<(), String>)
    requires
        is_c_text(oid@),
        contents@.len() <= i32::MAX,
    ensures
        puts(
            *old(builder),
            *final(builder),
            CertificatePart::Der { oid: oid@, critical, contents: contents@ },
            r,
        ),
{
    let oid = openssl::asn1::Asn1Object::from_str(oid).map_err(|e| e.to_string())?;
    let contents = openssl::asn1::Asn1OctetString::new_from_bytes(contents);
    let contents = contents.map_err(|e| e.to_string())?;
    let extension = openssl::x509::X509Extension::new_from_der(&oid, critical, &contents);
    let extension = extension.map_err(|e| e.to_string())?;
    builder.append_extension(extension).map_err(|e| e.to_string())
}

/// The SHA-256 digest of some bytes.
pub uninterp spec fn sha256_digest(data: Seq<u8>) -> Seq<u8>;

/// Calls `openssl::sha::sha256`. Claimed: the digest depends on the bytes alone.
#[verifier::external_body]
fn sha256_of(data: &[u8]) -> (digest: [u8; 32])
    ensures
        digest@ == sha256_digest(data@),
{
    openssl::sha::sha256(data)
}

/// The identifier that goes with a digest.
pub open spec fn identifier(digest: Seq<u8>) -> Seq<char> {
    "sha256:"@ + hex(digest)
}

/// The identifier of some bytes.
pub fn sha256_identifier(data: &[u8]) -> (text: String)
    ensures
        text@ == identifier(sha256_digest(data@)),
{
    let digest: [u8; 32] = sha256_of(data);
    concat2("sha256:", hex_text(digest.as_slice()).as_str())
}

/// A key on the P-256 curve.
pub fn p256_private_key() -> (key: Result<openssl::pkey::PKey<openssl::pkey::Private>, String>)
    ensures
        match key {
            Ok(key) => key_curve(key) == "P-256"@,
            Err(message) => p256_refusal(message@),
        },
{
    let group: openssl::ec::EcGroup = match p256_group() {
        Ok(group) => group,
        Err(e) => {
            return Err(e);
        },
    };
    match generate_ec_key(&group) {
        Ok(key) => key_from_ec_key(key),
        Err(e) => Err(e),
    }
}

/// The serial number that every certificate of a chain carries.
pub const SERIAL: u32 = 42;

/// For how many days a certificate of a chain is valid.
pub const VALID_DAYS: u32 = 90;

fn subject(common_name: &str) -> (name: Result<openssl::x509::X509Name, String>)
    requires
        common_name@.len() <= 0x0fff_ffff,
    ensures
        match name {
            Ok(name) => name_entries(name) == one_entry("CN"@, common_name@),
            Err(message) => name_refusal("CN"@, common_name@, message@),
        },
{
    let mut name: openssl::x509::X509NameBuilder = match new_name() {
        Ok(name) => name,
        Err(e) => {
            return Err(e);
        },
    };
    proof {
        reveal_strlit("CN");
    }
    match append_name_entry(&mut name, "CN", common_name) {
        Ok(_) => {
            assert(name_draft(name) =~= one_entry("CN"@, common_name@));
            Ok(finish_name(name))
        },
        Err(e) => Err(e),
    }
}

/// What every certificate of a chain begins with: the version, the serial number,
/// the holder, the issuer, who is the holder where none is given, the holder's key,
/// and how long it is valid.
pub open spec fn base_parts(
    common_name: Seq<char>,
    key: openssl::pkey::PKey<openssl::pkey::Private>,
    issuer: Option<&openssl::x509::X509>,
) -> Seq<CertificatePart> {
    let name = one_entry("CN"@, common_name);
    seq![
        CertificatePart::Version(2),
        CertificatePart::Serial(SERIAL),
        CertificatePart::Subject(name),
        issuer_part(common_name, issuer),
        CertificatePart::KeyOf(key),
        CertificatePart::NotBefore(0),
        CertificatePart::NotAfter(VALID_DAYS),
    ]
}

/// The part of a certificate that names its issuer, who is the holder where none is
/// given.
pub open spec fn issuer_part(
    common_name: Seq<char>,
    issuer: Option<&openssl::x509::X509>,
) -> CertificatePart {
    match issuer {
        Some(issuer) => CertificatePart::IssuedBy(*issuer),
        None => CertificatePart::Issuer(one_entry("CN"@, common_name)),
    }
}

/// Whether OpenSSL can refuse, with this message, to put the holder and the issuer
/// into a certificate that has some parts already.
pub open spec fn names_refusal(
    draft: Seq<CertificatePart>,
    common_name: Seq<char>,
    issuer: Option<&openssl::x509::X509>,
    message: Seq<char>,
) -> bool {
    let subject = CertificatePart::Subject(one_entry("CN"@, common_name));
    ||| name_refusal("CN"@, common_name, message)
    ||| part_refusal(draft, subject, message)
    ||| part_refusal(draft.push(subject), issuer_part(common_name, issuer), message)
}

fn put_names(
    builder: &mut openssl::x509::X509Builder,
    common_name: &str,
    issuer: Option<&openssl::x509::X509>,
) -> (r: Result<(), String>)
    requires
        common_name@.len() <= 0x0fff_ffff,
    ensures
        match r {
            Ok(_) => certificate_draft(*final(builder)) == certificate_draft(*old(builder)).push(
                CertificatePart::Subject(one_entry("CN"@, common_name@)),
            ).push(issuer_part(common_name@, issuer)),
            Err(message) => names_refusal(
                certificate_draft(*old(builder)),
                common_name@,
                issuer,
                message@,
            ),
        },
{
    let name: openssl::x509::X509Name = match subject(common_name) {
        Ok(name) => name,
        Err(e) => {
            return Err(e);
        },
    };
    match set_subject_name(builder, &name) {
        Ok(_) => {},
        Err(e) => {
            return Err(e);
        },
    }
    match issuer {
        Some(issuer) => set_issuer(builder, issuer),
        None => set_issuer_name(builder, &name),
    }
}

/// Puts the serial number into a certificate.
pub fn serial_number(builder: &mut openssl::x509::X509Builder) -> (r: Result<(), String>)
    ensures
        puts(*old(builder), *final(builder), CertificatePart::Serial(SERIAL), r),
{
    match set_serial_number(builder, SERIAL) {
        Ok(_) => Ok(()),
        Err(SerialFault::Made(message)) => Err(message),
        Err(SerialFault::Taken(message)) => Err(message),
    }
}

/// Whether OpenSSL can refuse, with this message, to put these parts into a new
/// certificate in order, one of which is the name of the holder.
pub open spec fn build_refusal(
    common_name: Seq<char>,
    parts: Seq<CertificatePart>,
    message: Seq<char>,
) -> bool {
    ||| new_certificate_refusal(message)
    ||| name_refusal("CN"@, common_name, message)
    ||| exists|k: int| #[trigger] refused_at(parts, k, message)
}

/// Starts a certificate: it names its holder, its issuer, who is the holder where
/// none is given, and its key, and is valid from now on.
pub fn base_certificate_builder(
    common_name: &str,
    key: &openssl::pkey::PKey<openssl::pkey::Private>,
    issuer: Option<&openssl::x509::X509>,
) -> (r: Result<openssl::x509::X509Builder, String>)
    requires
        common_name@.len() <= 0x0fff_ffff,
    ensures
        match r {
            Ok(builder) => certificate_draft(builder) == base_parts(common_name@, *key, issuer),
            Err(message) => build_refusal(
                common_name@,
                base_parts(common_name@, *key, issuer),
                message@,
            ),
        },
{
    let ghost parts = base_parts(common_name@, *key, issuer);
    let mut builder: openssl::x509::X509Builder = match new_certificate() {
        Ok(builder) => builder,
        Err(e) => {
            return Err(e);
        },
    };
    assert(certificate_draft(builder) =~= parts.take(0));
    match set_version(&mut builder, 2) {
        Ok(_) => {},
        Err(e) => {
            assert(refused_at(parts, 0, e@));
            return Err(e);
        },
    }
    assert(certificate_draft(builder) =~= parts.take(1));
    match serial_number(&mut builder) {
        Ok(_) => {},
        Err(e) => {
            assert(refused_at(parts, 1, e@));
            return Err(e);
        },
    }
    assert(certificate_draft(builder) =~= parts.take(2));
    match put_names(&mut builder, common_name, issuer) {
        Ok(_) => {},
        Err(e) => {
            proof {
                assert(parts.take(2).push(parts[2]) =~= parts.take(3));
                assert(name_refusal("CN"@, common_name@, e@) || refused_at(parts, 2, e@)
                    || refused_at(parts, 3, e@));
            }
            return Err(e);
        },
    }
    assert(certificate_draft(builder) =~= parts.take(4));
    match set_key(&mut builder, key) {
        Ok(_) => {},
        Err(e) => {
            assert(refused_at(parts, 4, e@));
            return Err(e);
        },
    }
    assert(certificate_draft(builder) =~= parts.take(5));
    match set_not_before(&mut builder, 0) {
        Ok(_) => {},
        Err(e) => {
            assert(refused_at(parts, 5, e@));
            return Err(e);
        },
    }
    assert(certificate_draft(builder) =~= parts.take(6));
    match set_not_after(&mut builder, VALID_DAYS) {
        Ok(_) => {},
        Err(e) => {
            assert(refused_at(parts, 6, e@));
            return Err(e);
        },
    }
    assert(certificate_draft(builder) =~= parts);
    Ok(builder)
}

/// Puts the identifier of the holder's key into a certificate.
pub fn append_subject_key_identifier(builder: &mut openssl::x509::X509Builder) -> (r: Result<
    (),
    String,
>)
    ensures
        puts(*old(builder), *final(builder), CertificatePart::SubjectKeyIdentifier, r),
{
    append_key_identifier(builder)
}

/// Puts the identifier of the issuer's key into a certificate.
pub fn append_authority_key_identifier(
    builder: &mut openssl::x509::X509Builder,
    issuer: &openssl::x509::X509,
) -> (r: Result<(), String>)
    ensures
        puts(*old(builder), *final(builder), CertificatePart::AuthorityKeyIdentifier(*issuer), r),
{
    append_issuer_key_identifier(builder, issuer)
}

/// Puts into a certificate what a signer's certificate is used for.
pub fn leaf_eku(builder: &mut openssl::x509::X509Builder, document_signing: &str) -> (r: Result<
    (),
    String,
>)
    requires
        is_c_text(document_signing@),
    ensures
        puts(*old(builder), *final(builder), CertificatePart::ExtendedUsage(document_signing@), r),
{
    append_extended_usage(builder, document_signing)
}

/// Puts an extension that is given as DER into a certificate.
pub fn append_der_extension(
    builder: &mut openssl::x509::X509Builder,
    oid: &str,
    critical: bool,
    contents: &[u8],
) -> (r: Result<(), String>)
    requires
        is_c_text(oid@),
        contents@.len() <= i32::MAX,
    ensures
        puts(
            *old(builder),
            *final(builder),
            CertificatePart::Der { oid: oid@, critical, contents: contents@ },
            r,
        ),
{
    append_extension_from_der(builder, oid, critical, contents)
}

/// The part of a certificate that an extension is, for an issuer whose key it may
/// identify.
pub open spec fn extension_part(
    plan: ExtensionView,
    aki_source: Option<&openssl::x509::X509>,
) -> CertificatePart {
    match plan {
        ExtensionView::Authority(path_length) => CertificatePart::Authority(path_length),
        ExtensionView::NoAuthority => CertificatePart::NoAuthority,
        ExtensionView::CertificateSigning => CertificatePart::CertificateSigning,
        ExtensionView::DigitalSignature => CertificatePart::DigitalSignature,
        ExtensionView::SubjectKeyIdentifier => CertificatePart::SubjectKeyIdentifier,
        ExtensionView::AuthorityKeyIdentifier => CertificatePart::AuthorityKeyIdentifier(
            *aki_source->0,
        ),
        ExtensionView::ExtendedUsage(oid) => CertificatePart::ExtendedUsage(oid),
        ExtensionView::Der { oid, critical, contents } => CertificatePart::Der {
            oid,
            critical,
            contents,
        },
    }
}

/// The parts of a certificate that some extensions are.
pub open spec fn extension_parts(
    plans: Seq<ExtensionView>,
    aki_source: Option<&openssl::x509::X509>,
) -> Seq<CertificatePart> {
    plans.map_values(|plan: ExtensionView| extension_part(plan, aki_source))
}

/// Whether an extension asks for an issuer that is not there.
pub open spec fn lacks_issuer(
    plan: ExtensionView,
    aki_source: Option<&openssl::x509::X509>,
) -> bool {
    plan is AuthorityKeyIdentifier && aki_source is None
}

/// Puts one extension into a certificate. The identifier of the issuer's key asks
/// for an issuer.
fn append_plan(
    builder: &mut openssl::x509::X509Builder,
    plan: &ExtensionPlan,
    aki_source: Option<&openssl::x509::X509>,
) -> (r: Result<(), String>)
    requires
        can_be_appended(plan@),
    ensures
        if lacks_issuer(plan@, aki_source) {
            r matches Err(message) && message@ == "the certificate has no issuer"@
        } else {
            puts(*old(builder), *final(builder), extension_part(plan@, aki_source), r)
        },
{
    match plan {
        ExtensionPlan::Authority(path_length) => append_authority(builder, *path_length),
        ExtensionPlan::NoAuthority => append_no_authority(builder),
        ExtensionPlan::CertificateSigning => append_certificate_signing(builder),
        ExtensionPlan::DigitalSignature => append_digital_signature(builder),
        ExtensionPlan::SubjectKeyIdentifier => append_subject_key_identifier(builder),
        ExtensionPlan::AuthorityKeyIdentifier => match aki_source {
            Some(issuer) => append_authority_key_identifier(builder, issuer),
            None => Err("the certificate has no issuer".to_owned()),
        },
        ExtensionPlan::ExtendedUsage(oid) => leaf_eku(builder, oid.as_str()),
        ExtensionPlan::Der { oid, critical, contents } => append_der_extension(
            builder,
            oid.as_str(),
            *critical,
            contents.as_slice(),
        ),
    }
}

/// The parts of a certificate of a chain: what it begins with, its extensions, and
/// the signature of its issuer.
pub open spec fn issued_parts(
    common_name: Seq<char>,
    key: openssl::pkey::PKey<openssl::pkey::Private>,
    issuer: Option<&openssl::x509::X509>,
    issuer_key: openssl::pkey::PKey<openssl::pkey::Private>,
    aki_source: Option<&openssl::x509::X509>,
    plans: Seq<ExtensionView>,
) -> Seq<CertificatePart> {
    (base_parts(common_name, key, issuer) + extension_parts(plans, aki_source)).push(
        CertificatePart::SignedWith(issuer_key),
    )
}

/// Whether making a certificate of a chain can fail with this message: OpenSSL
/// refuses one of its parts, or an extension asks for an issuer that is not there.
pub open spec fn issue_fault(
    common_name: Seq<char>,
    key: openssl::pkey::PKey<openssl::pkey::Private>,
    issuer: Option<&openssl::x509::X509>,
    issuer_key: openssl::pkey::PKey<openssl::pkey::Private>,
    aki_source: Option<&openssl::x509::X509>,
    plans: Seq<ExtensionView>,
    message: Seq<char>,
) -> bool {
    ||| build_refusal(
        common_name,
        issued_parts(common_name, key, issuer, issuer_key, aki_source, plans),
        message,
    )
    ||| message == "the certificate has no issuer"@ && exists|k: int|
        0 <= k < plans.len() && lacks_issuer(#[trigger] plans[k], aki_source)
}

/// Makes a certificate: starts it, puts its extensions into it in order, and
/// signs it.
fn issue(
    common_name: &str,
    key: &openssl::pkey::PKey<openssl::pkey::Private>,
    issuer: Option<&openssl::x509::X509>,
    issuer_key: &openssl::pkey::PKey<openssl::pkey::Private>,
    aki_source: Option<&openssl::x509::X509>,
    plans: &Vec<ExtensionPlan>,
) -> (certificate: Result<openssl::x509::X509, String>)
    requires
        common_name@.len() <= 0x0fff_ffff,
        all_can_be_appended(extension_views(plans@)),
    ensures
        match certificate {
            Ok(c) => {
                &&& certificate_parts(c) == issued_parts(
                    common_name@,
                    *key,
                    issuer,
                    *issuer_key,
                    aki_source,
                    extension_views(plans@),
                )
                &&& forall|k: int|
                    0 <= k < plans@.len() ==> !lacks_issuer(
                        #[trigger] extension_views(plans@)[k],
                        aki_source,
                    )
            },
            Err(message) => issue_fault(
                common_name@,
                *key,
                issuer,
                *issuer_key,
                aki_source,
                extension_views(plans@),
                message@,
            ),
        },
{
    let ghost views = extension_views(plans@);
    let ghost parts = issued_parts(common_name@, *key, issuer, *issuer_key, aki_source, views);
    let mut builder: openssl::x509::X509Builder = match base_certificate_builder(
        common_name,
        key,
        issuer,
    ) {
        Ok(builder) => builder,
        Err(e) => {
            proof {
                let first = base_parts(common_name@, *key, issuer);
                if exists|k: int| #[trigger] refused_at(first, k, e@) {
                    let k = choose|k: int| #[trigger] refused_at(first, k, e@);
                    assert(first.take(k) =~= parts.take(k));
                    assert(refused_at(parts, k, e@));
                }
            }
            return Err(e);
        },
    };
    let ghost base = base_parts(common_name@, *key, issuer);
    let ghost wanted = extension_parts(views, aki_source);
    let mut i: usize = 0;
    assert(base =~= parts.take(base.len() as int));
    while i < plans.len()
        invariant
            i <= plans@.len(),
            all_can_be_appended(views),
            views == extension_views(plans@),
            base == base_parts(common_name@, *key, issuer),
            wanted == extension_parts(views, aki_source),
            parts == issued_parts(common_name@, *key, issuer, *issuer_key, aki_source, views),
            certificate_draft(builder) == parts.take(base.len() + i),
            forall|k: int| 0 <= k < i ==> !lacks_issuer(#[trigger] views[k], aki_source),
        decreases plans@.len() - i,
    {
        assert(views[i as int] == plans@[i as int]@);
        let ghost at = (base.len() + i) as int;
        assert(parts[at] == wanted[i as int]);
        match append_plan(&mut builder, &plans[i], aki_source) {
            Ok(_) => {},
            Err(e) => {
                proof {
                    if !lacks_issuer(views[i as int], aki_source) {
                        assert(refused_at(parts, at, e@));
                    }
                }
                return Err(e);
            },
        }
        assert(parts.take(at + 1) =~= parts.take(at).push(parts[at]));
        i = i + 1;
    }
    let ghost last = (base.len() + plans@.len()) as int;
    assert(parts[last] == CertificatePart::SignedWith(*issuer_key));
    match sign_certificate(&mut builder, issuer_key) {
        Ok(_) => {
            assert(certificate_draft(builder) =~= parts);
            Ok(finish_certificate(builder))
        },
        Err(e) => {
            assert(refused_at(parts, last, e@));
            Err(e)
        },
    }
}

/// The parts of the certificate of a root that signs itself.
pub open spec fn root_parts(key: openssl::pkey::PKey<openssl::pkey::Private>) -> Seq<
    CertificatePart,
> {
    issued_parts("TZAP Test Root"@, key, None, key, None, root_plan())
}

/// Whether making the certificate of a root can fail with this message.
pub open spec fn root_fault(
    key: openssl::pkey::PKey<openssl::pkey::Private>,
    message: Seq<char>,
) -> bool {
    issue_fault("TZAP Test Root"@, key, None, key, None, root_plan(), message)
}

/// The certificate of a root that signs itself.
pub fn root_certificate(key: &openssl::pkey::PKey<openssl::pkey::Private>) -> (certificate: Result<
    openssl::x509::X509,
    String,
>)
    ensures
        match certificate {
            Ok(c) => certificate_parts(c) == root_parts(*key),
            Err(message) => root_fault(*key, message@),
        },
{
    proof {
        reveal_strlit("TZAP Test Root");
    }
    issue("TZAP Test Root", key, None, key, None, &root_extensions())
}

/// Whether a certificate is that of an authority below an issuer, with one policy.
pub open spec fn is_intermediate(
    certificate: openssl::x509::X509,
    key: openssl::pkey::PKey<openssl::pkey::Private>,
    issuer_cert: openssl::x509::X509,
    issuer_key: openssl::pkey::PKey<openssl::pkey::Private>,
    aki_source: openssl::x509::X509,
    identifiers: ChainIdentifiers,
) -> bool {
    exists|policies: Seq<u8>| #[trigger]
        is_policy_list(identifiers.ca_policy@, policies) && certificate_parts(certificate)
            == issued_parts(
            "TZAP Platform Intermediate"@,
            key,
            Some(&issuer_cert),
            issuer_key,
            Some(&aki_source),
            intermediate_plan(policies),
        )
}

/// Whether making the certificate of an authority can fail with this message: its
/// policy is no good, or the certificate with the policy cannot be made.
pub open spec fn intermediate_fault(
    key: openssl::pkey::PKey<openssl::pkey::Private>,
    issuer_cert: openssl::x509::X509,
    issuer_key: openssl::pkey::PKey<openssl::pkey::Private>,
    aki_source: openssl::x509::X509,
    identifiers: ChainIdentifiers,
    message: Seq<char>,
) -> bool {
    ||| policy_fault(identifiers.ca_policy@, message)
    ||| exists|policies: Seq<u8>| #[trigger]
        is_policy_list(identifiers.ca_policy@, policies) && issue_fault(
            "TZAP Platform Intermediate"@,
            key,
            Some(&issuer_cert),
            issuer_key,
            Some(&aki_source),
            intermediate_plan(policies),
            message,
        )
}

/// The certificate of an authority below the root.
pub fn intermediate_certificate(
    key: &openssl::pkey::PKey<openssl::pkey::Private>,
    issuer_cert: &openssl::x509::X509,
    issuer_key: &openssl::pkey::PKey<openssl::pkey::Private>,
    aki_source: &openssl::x509::X509,
    identifiers: &ChainIdentifiers,
) -> (certificate: Result<openssl::x509::X509, String>)
    requires
        identifiers.wf(),
    ensures
        match certificate {
            Ok(c) => is_intermediate(
                c,
                *key,
                *issuer_cert,
                *issuer_key,
                *aki_source,
                *identifiers,
            ),
            Err(message) => intermediate_fault(
                *key,
                *issuer_cert,
                *issuer_key,
                *aki_source,
                *identifiers,
                message@,
            ),
        },
{
    let policies: Vec<u8> = match policies_of(identifiers.ca_policy.as_str()) {
        Ok(policies) => policies,
        Err(e) => {
            return Err(e);
        },
    };
    assert(is_policy_list(identifiers.ca_policy@, policies@));
    let plans: Vec<ExtensionPlan> = intermediate_extensions(policies);
    proof {
        reveal_strlit("TZAP Platform Intermediate");
        reveal_strlit("2.5.29.32");
        reveal_strlit("2.5.29.31");
    }
    issue(
        "TZAP Platform Intermediate",
        key,
        Some(issuer_cert),
        issuer_key,
        Some(aki_source),
        &plans,
    )
}

/// Whether a certificate is that of a signer below an issuer, with one policy unless
/// that is left out, and with what the metadata extension tells.
pub open spec fn is_leaf(
    certificate: openssl::x509::X509,
    key: openssl::pkey::PKey<openssl::pkey::Private>,
    issuer_cert: openssl::x509::X509,
    issuer_key: openssl::pkey::PKey<openssl::pkey::Private>,
    aki_source: openssl::x509::X509,
    identifiers: ChainIdentifiers,
    config: ChainConfig,
) -> bool {
    exists|policies: Option<Seq<u8>>| #[trigger]
        is_leaf_policy(identifiers.leaf_policy@, config, policies) && canonical_json(
            metadata_fields_view(identifiers.leaf_policy@),
        ) is Some && certificate_parts(certificate) == issued_parts(
            "TZAP Test Signer"@,
            key,
            Some(&issuer_cert),
            issuer_key,
            Some(&aki_source),
            leaf_plan(
                identifiers.document_signing@,
                policies,
                identifiers.metadata_extension@,
                canonical_json(metadata_fields_view(identifiers.leaf_policy@))->0,
            ),
        )
}

/// Whether making the certificate of a signer can fail with this message: its policy
/// is no good, what its metadata extension tells cannot be written or is too long, or
/// the certificate with these cannot be made.
pub open spec fn leaf_fault(
    key: openssl::pkey::PKey<openssl::pkey::Private>,
    issuer_cert: openssl::x509::X509,
    issuer_key: openssl::pkey::PKey<openssl::pkey::Private>,
    aki_source: openssl::x509::X509,
    identifiers: ChainIdentifiers,
    config: ChainConfig,
    message: Seq<char>,
) -> bool {
    let metadata = canonical_json(metadata_fields_view(identifiers.leaf_policy@));
    ||| !config.omit_leaf_policy && policy_fault(identifiers.leaf_policy@, message)
    ||| metadata is None && message == "the metadata extension cannot be written"@
    ||| (metadata matches Some(bytes) && bytes.len() > i32::MAX && message
        == "the metadata extension is too long"@)
    ||| (metadata matches Some(bytes) && exists|policies: Option<Seq<u8>>| #[trigger]
        is_leaf_policy(identifiers.leaf_policy@, config, policies) && issue_fault(
            "TZAP Test Signer"@,
            key,
            Some(&issuer_cert),
            issuer_key,
            Some(&aki_source),
            leaf_plan(
                identifiers.document_signing@,
                policies,
                identifiers.metadata_extension@,
                bytes,
            ),
            message,
        ))
}

/// The certificate of a signer below the authority.
pub fn leaf_certificate(
    key: &openssl::pkey::PKey<openssl::pkey::Private>,
    issuer_cert: &openssl::x509::X509,
    issuer_key: &openssl::pkey::PKey<openssl::pkey::Private>,
    aki_source: &openssl::x509::X509,
    identifiers: &ChainIdentifiers,
    config: ChainConfig,
) -> (certificate: Result<openssl::x509::X509, String>)
    requires
        identifiers.wf(),
    ensures
        match certificate {
            Ok(c) => is_leaf(
                c,
                *key,
                *issuer_cert,
                *issuer_key,
                *aki_source,
                *identifiers,
                config,
            ),
            Err(message) => leaf_fault(
                *key,
                *issuer_cert,
                *issuer_key,
                *aki_source,
                *identifiers,
                config,
                message@,
            ),
        },
{
    let policies: Option<Vec<u8>> = if config.omit_leaf_policy {
        None
    } else {
        match policies_of(identifiers.leaf_policy.as_str()) {
            Ok(policies) => Some(policies),
            Err(e) => {
                return Err(e);
            },
        }
    };
    assert(is_leaf_policy(identifiers.leaf_policy@, config, bytes_view(policies)));
    let metadata: Vec<u8> = match metadata_extension_bytes(identifiers.leaf_policy.as_str()) {
        Some(metadata) => metadata,
        None => {
            return Err("the metadata extension cannot be written".to_owned());
        },
    };
    if metadata.len() > i32::MAX as usize {
        return Err("the metadata extension is too long".to_owned());
    }
    let plans: Vec<ExtensionPlan> = leaf_extensions(
        identifiers.document_signing.as_str(),
        policies,
        identifiers.metadata_extension.as_str(),
        metadata,
    );
    proof {
        reveal_strlit("TZAP Test Signer");
        reveal_strlit("2.5.29.32");
    }
    issue("TZAP Test Signer", key, Some(issuer_cert), issuer_key, Some(aki_source), &plans)
}

/// Whether bytes are the certificate policies extension for one policy.
pub open spec fn is_policy_list(policy: Seq<char>, policies: Seq<u8>) -> bool {
    exists|object: Option<Seq<u8>>| #[trigger]
        may_be_object(policy, object) && policies_element(seq![object]) == Some(policies)
}

/// Whether one policy cannot be put into a certificate, and this message says why: it
/// is no object identifier, or its extension is longer than C can count.
pub open spec fn policy_fault(policy: Seq<char>, message: Seq<char>) -> bool {
    ||| message == "not an object identifier: "@ + policy && exists|object: Option<Seq<u8>>|
        #[trigger] may_be_object(policy, object) && policies_element(seq![object]) is None
    ||| message == "the policies of the certificate are too long"@ && exists|policies: Seq<u8>|
        #[trigger] is_policy_list(policy, policies) && policies.len() > i32::MAX
}

/// Whether bytes are the certificate policies extension of a signer, if it has one.
pub open spec fn is_leaf_policy(
    policy: Seq<char>,
    config: ChainConfig,
    policies: Option<Seq<u8>>,
) -> bool {
    match policies {
        Some(policies) => !config.omit_leaf_policy && is_policy_list(policy, policies),
        None => config.omit_leaf_policy,
    }
}

fn policies_of(policy: &str) -> (policies: Result<Vec<u8>, String>)
    requires
        is_c_text(policy@),
    ensures
        match policies {
            Ok(bytes) => bytes@.len() <= i32::MAX && is_policy_list(policy@, bytes@),
            Err(message) => policy_fault(policy@, message@),
        },
{
    let list: [&str; 1] = [policy];
    let found: Option<Vec<u8>> = certificate_policies_der(list.as_slice());
    proof {
        let objects = choose|objects: Seq<Option<Seq<u8>>>| #[trigger]
            may_be_objects(list@, objects) && bytes_view(found) == policies_element(objects);
        assert(objects =~= seq![objects[0]]);
        assert(may_be_object(policy@, objects[0]));
        if found is Some {
            assert(is_policy_list(policy@, (found->0)@));
        }
    }
    match found {
        Some(bytes) => if bytes.len() <= i32::MAX as usize {
            Ok(bytes)
        } else {
            Err("the policies of the certificate are too long".to_owned())
        },
        None => Err(concat2("not an object identifier: ", policy)),
    }
}

/// A chain of certificates, with the key of its signer.
pub struct CertificateFixture {
    /// The certificates as DER: the signer, the authority, the root.
    pub chain_der: Vec<Vec<u8>>,
    /// The key of the signer.
    pub leaf_key: openssl::pkey::PKey<openssl::pkey::Private>,
    /// The identifier of the root.
    pub root_sha256: String,
    /// The root as DER.
    pub root_der: Vec<u8>,
}

impl CertificateFixture {
    /// Whether the chain has three certificates and ends in the root, and the
    /// identifier is that of the root.
    pub open spec fn wf(self) -> bool {
        &&& self.chain_der@.len() == 3
        &&& self.chain_der@[2]@ == self.root_der@
        &&& self.root_sha256@ == identifier(sha256_digest(self.root_der@))
    }
}

/// A chain out of the certificates of the signer, the authority and the root.
pub fn assemble_fixture(
    leaf_der: Vec<u8>,
    platform_der: Vec<u8>,
    root_der: Vec<u8>,
    leaf_key: openssl::pkey::PKey<openssl::pkey::Private>,
) -> (fixture: CertificateFixture)
    ensures
        fixture.wf(),
        fixture.chain_der@[0]@ == leaf_der@,
        fixture.chain_der@[1]@ == platform_der@,
        fixture.root_der@ == root_der@,
        fixture.leaf_key == leaf_key,
{
    let root_sha256: String = sha256_identifier(root_der.as_slice());
    let copied: Vec<u8> = copy_range(root_der.as_slice(), 0, root_der.len());
    assert(copied@ =~= root_der@);
    let mut chain_der: Vec<Vec<u8>> = Vec::new();
    chain_der.push(leaf_der);
    chain_der.push(platform_der);
    chain_der.push(copied);
    CertificateFixture { chain_der, leaf_key, root_sha256, root_der }
}

/// Whether bytes can be a chain of certificates: a root, an authority below it, and a
/// signer below that, whose key is kept.
pub open spec fn is_chain(
    fixture: CertificateFixture,
    config: ChainConfig,
    identifiers: ChainIdentifiers,
) -> bool {
    exists|
        root: openssl::x509::X509,
        root_key: openssl::pkey::PKey<openssl::pkey::Private>,
        platform: openssl::x509::X509,
        platform_key: openssl::pkey::PKey<openssl::pkey::Private>,
        leaf: openssl::x509::X509,
    |
        {
            &&& key_curve(root_key) == "P-256"@
            &&& key_curve(platform_key) == "P-256"@
            &&& key_curve(fixture.leaf_key) == "P-256"@
            &&& certificate_parts(root) == root_parts(root_key)
            &&& #[trigger] is_intermediate(
                platform,
                platform_key,
                root,
                root_key,
                root,
                identifiers,
            )
            &&& #[trigger] is_leaf(
                leaf,
                fixture.leaf_key,
                platform,
                platform_key,
                platform,
                identifiers,
                config,
            )
            &&& certificate_bytes_answer(certificate_parts(leaf), fixture.chain_der@[0]@)
            &&& certificate_bytes_answer(certificate_parts(platform), fixture.chain_der@[1]@)
            &&& certificate_bytes_answer(certificate_parts(root), fixture.root_der@)
        }
}

/// Whether making a chain of certificates can fail with this message: a key could not
/// be made, one of the certificates could not be, or one could not be written.
pub open spec fn chain_fault(
    config: ChainConfig,
    identifiers: ChainIdentifiers,
    message: Seq<char>,
) -> bool {
    ||| message == "a key could not be made"@ && exists|why: Seq<char>| #[trigger]
        p256_refusal(why)
    ||| exists|root_key: openssl::pkey::PKey<openssl::pkey::Private>| #[trigger]
        root_fault(root_key, message)
    ||| exists|
        root: openssl::x509::X509,
        root_key: openssl::pkey::PKey<openssl::pkey::Private>,
        key: openssl::pkey::PKey<openssl::pkey::Private>,
    |
        certificate_parts(root) == root_parts(root_key) && #[trigger] intermediate_fault(
            key,
            root,
            root_key,
            root,
            identifiers,
            message,
        )
    ||| exists|
        root: openssl::x509::X509,
        root_key: openssl::pkey::PKey<openssl::pkey::Private>,
        platform: openssl::x509::X509,
        platform_key: openssl::pkey::PKey<openssl::pkey::Private>,
        key: openssl::pkey::PKey<openssl::pkey::Private>,
    |
        #[trigger] is_intermediate(platform, platform_key, root, root_key, root, identifiers)
            && #[trigger] leaf_fault(
            key,
            platform,
            platform_key,
            platform,
            identifiers,
            config,
            message,
        )
    ||| message == "a certificate could not be written"@ && exists|
        certificate: openssl::x509::X509,
        why: Seq<char>,
    | #[trigger] bytes_refusal(certificate_parts(certificate), why)
}

/// Makes a chain of certificates with fresh keys.
pub fn certificate_fixture(config: ChainConfig, identifiers: &ChainIdentifiers) -> (fixture: Result<
    CertificateFixture,
    String,
>)
    requires
        identifiers.wf(),
    ensures
        match fixture {
            Ok(fixture) => fixture.wf() && is_chain(fixture, config, *identifiers),
            Err(message) => chain_fault(config, *identifiers, message@),
        },
{
    let (root_key, platform_key, leaf_key) = match (
        p256_private_key(),
        p256_private_key(),
        p256_private_key(),
    ) {
        (Ok(root_key), Ok(platform_key), Ok(leaf_key)) => (root_key, platform_key, leaf_key),
        _ => {
            return Err("a key could not be made".to_owned());
        },
    };
    let root: openssl::x509::X509 = match root_certificate(&root_key) {
        Ok(root) => root,
        Err(e) => {
            return Err(e);
        },
    };
    let platform: openssl::x509::X509 = match intermediate_certificate(
        &platform_key,
        &root,
        &root_key,
        &root,
        identifiers,
    ) {
        Ok(platform) => platform,
        Err(e) => {
            return Err(e);
        },
    };
    let leaf: openssl::x509::X509 = match leaf_certificate(
        &leaf_key,
        &platform,
        &platform_key,
        &platform,
        identifiers,
        config,
    ) {
        Ok(leaf) => leaf,
        Err(e) => {
            return Err(e);
        },
    };
    match (certificate_bytes(&leaf), certificate_bytes(&platform), certificate_bytes(&root)) {
        (Ok(leaf_der), Ok(platform_der), Ok(root_der)) => Ok(
            assemble_fixture(leaf_der, platform_der, root_der, leaf_key),
        ),
        _ => Err("a certificate could not be written".to_owned()),
    }
}

/// A certificate is issued with its name, the name of its issuer or its own where it has
/// none, its key and ninety days of validity; its extensions follow in order, and the
/// signature of the issuer comes last.
pub proof fn law_certificates_hold_what_they_are_issued_with(
    common_name: Seq<char>,
    key: openssl::pkey::PKey<openssl::pkey::Private>,
    issuer: Option<&openssl::x509::X509>,
    issuer_key: openssl::pkey::PKey<openssl::pkey::Private>,
    aki_source: Option<&openssl::x509::X509>,
    plans: Seq<ExtensionView>,
)
    ensures
        ({
            let parts = issued_parts(common_name, key, issuer, issuer_key, aki_source, plans);
            &&& parts.len() == 8 + plans.len()
            &&& parts[0] == CertificatePart::Version(2)
            &&& parts[1] == CertificatePart::Serial(42)
            &&& parts[2] == CertificatePart::Subject(seq![("CN"@, common_name)])
            &&& issuer is None ==> parts[3] == CertificatePart::Issuer(seq![("CN"@, common_name)])
            &&& issuer matches Some(own) ==> parts[3] == CertificatePart::IssuedBy(*own)
            &&& parts[4] == CertificatePart::KeyOf(key)
            &&& parts[5] == CertificatePart::NotBefore(0)
            &&& parts[6] == CertificatePart::NotAfter(90)
            &&& forall|k: int|
                0 <= k < plans.len() ==> #[trigger] parts[7 + k] == extension_part(
                    plans[k],
                    aki_source,
                )
            &&& parts.last() == CertificatePart::SignedWith(issuer_key)
        }),
{
    let parts = issued_parts(common_name, key, issuer, issuer_key, aki_source, plans);
    let base = base_parts(common_name, key, issuer);
    assert(base.len() == 7);
    assert forall|k: int| 0 <= k < plans.len() implies #[trigger] parts[7 + k] == extension_part(
        plans[k],
        aki_source,
    ) by {
        assert(extension_parts(plans, aki_source)[k] == extension_part(plans[k], aki_source));
    }
}

/// Every extension becomes the part of its own sort; the one that names the key of the
/// issuer names the certificate that it is taken from.
pub proof fn law_extensions_become_their_own_parts(
    plan: ExtensionView,
    source: &openssl::x509::X509,
)
    ensures
        plan matches ExtensionView::Authority(n) ==> extension_part(plan, Some(source))
            == CertificatePart::Authority(n),
        plan is NoAuthority ==> extension_part(plan, Some(source)) is NoAuthority,
        plan is CertificateSigning ==> extension_part(plan, Some(source)) is CertificateSigning,
        plan is DigitalSignature ==> extension_part(plan, Some(source)) is DigitalSignature,
        plan is SubjectKeyIdentifier ==> extension_part(plan, Some(source)) is SubjectKeyIdentifier,
        plan is AuthorityKeyIdentifier ==> extension_part(plan, Some(source))
            == CertificatePart::AuthorityKeyIdentifier(*source),
        plan matches ExtensionView::ExtendedUsage(oid) ==> extension_part(plan, Some(source))
            == CertificatePart::ExtendedUsage(oid),
        plan matches ExtensionView::Der { oid, critical, contents } ==> extension_part(
            plan,
            Some(source),
        ) == (CertificatePart::Der { oid, critical, contents }),
{
}

/// A root has the right to issue, two levels deep. An intermediate certificate has it for
/// leaves only, and a leaf has no such right but that to sign documents.
pub proof fn law_the_levels_of_a_chain_have_their_own_rights(
    policies: Seq<u8>,
    usage: Seq<char>,
    metadata_oid: Seq<char>,
    metadata: Seq<u8>,
)
    ensures
        root_plan() == seq![
            ExtensionView::Authority(2),
            ExtensionView::CertificateSigning,
            ExtensionView::SubjectKeyIdentifier,
        ],
        intermediate_plan(policies).len() == 6,
        intermediate_plan(policies)[0] == ExtensionView::Authority(0),
        intermediate_plan(policies)[1] is CertificateSigning,
        intermediate_plan(policies)[2] is SubjectKeyIdentifier,
        intermediate_plan(policies)[3] is AuthorityKeyIdentifier,
        intermediate_plan(policies)[4] == (ExtensionView::Der {
            oid: "2.5.29.32"@,
            critical: false,
            contents: policies,
        }),
        intermediate_plan(policies)[5] == (ExtensionView::Der {
            oid: "2.5.29.31"@,
            critical: false,
            contents: seq![0x30u8, 0],
        }),
        leaf_plan(usage, None, metadata_oid, metadata) == seq![
            ExtensionView::NoAuthority,
            ExtensionView::DigitalSignature,
            ExtensionView::ExtendedUsage(usage),
            ExtensionView::AuthorityKeyIdentifier,
            ExtensionView::Der { oid: metadata_oid, critical: false, contents: metadata },
        ],
        leaf_plan(usage, Some(policies), metadata_oid, metadata) == seq![
            ExtensionView::NoAuthority,
            ExtensionView::DigitalSignature,
            ExtensionView::ExtendedUsage(usage),
            ExtensionView::AuthorityKeyIdentifier,
            ExtensionView::Der { oid: "2.5.29.32"@, critical: false, contents: policies },
            ExtensionView::Der { oid: metadata_oid, critical: false, contents: metadata },
        ],
{
    assert(wrapped(SEQUENCE, Seq::empty()) =~= seq![0x30u8, 0]);
    assert(leaf_plan(usage, None, metadata_oid, metadata) =~= seq![
        ExtensionView::NoAuthority,
        ExtensionView::DigitalSignature,
        ExtensionView::ExtendedUsage(usage),
        ExtensionView::AuthorityKeyIdentifier,
        ExtensionView::Der { oid: metadata_oid, critical: false, contents: metadata },
    ]);
    assert(leaf_plan(usage, Some(policies), metadata_oid, metadata) =~= seq![
        ExtensionView::NoAuthority,
        ExtensionView::DigitalSignature,
        ExtensionView::ExtendedUsage(usage),
        ExtensionView::AuthorityKeyIdentifier,
        ExtensionView::Der { oid: "2.5.29.32"@, critical: false, contents: policies },
        ExtensionView::Der { oid: metadata_oid, critical: false, contents: metadata },
    ]);
}

/// A root is issued by itself.
pub proof fn law_roots_issue_themselves(key: openssl::pkey::PKey<openssl::pkey::Private>)
    ensures
        root_parts(key).len() == 11,
        root_parts(key)[2] == CertificatePart::Subject(seq![("CN"@, "TZAP Test Root"@)]),
        root_parts(key)[3] == CertificatePart::Issuer(seq![("CN"@, "TZAP Test Root"@)]),
        root_parts(key)[4] == CertificatePart::KeyOf(key),
        root_parts(key)[7] == CertificatePart::Authority(2),
        root_parts(key)[8] is CertificateSigning,
        root_parts(key)[9] is SubjectKeyIdentifier,
        root_parts(key)[10] == CertificatePart::SignedWith(key),
{
}

/// The certificates of a chain are issued by those above them: each names the certificate
/// above it as its issuer and is signed with the key of that one.
pub proof fn law_chains_are_issued_from_above(
    certificate: openssl::x509::X509,
    key: openssl::pkey::PKey<openssl::pkey::Private>,
    issuer_cert: openssl::x509::X509,
    issuer_key: openssl::pkey::PKey<openssl::pkey::Private>,
    aki_source: openssl::x509::X509,
    identifiers: ChainIdentifiers,
    config: ChainConfig,
)
    ensures
        is_intermediate(certificate, key, issuer_cert, issuer_key, aki_source, identifiers) ==> {
            let parts = certificate_parts(certificate);
            &&& parts.len() == 14
            &&& parts[2] == CertificatePart::Subject(seq![("CN"@, "TZAP Platform Intermediate"@)])
            &&& parts[3] == CertificatePart::IssuedBy(issuer_cert)
            &&& parts[4] == CertificatePart::KeyOf(key)
            &&& parts[10] == CertificatePart::AuthorityKeyIdentifier(aki_source)
            &&& parts[13] == CertificatePart::SignedWith(issuer_key)
        },
        is_leaf(certificate, key, issuer_cert, issuer_key, aki_source, identifiers, config) ==> {
            let parts = certificate_parts(certificate);
            &&& parts.len() == if config.omit_leaf_policy {
                13nat
            } else {
                14nat
            }
            &&& parts[2] == CertificatePart::Subject(seq![("CN"@, "TZAP Test Signer"@)])
            &&& parts[3] == CertificatePart::IssuedBy(issuer_cert)
            &&& parts[4] == CertificatePart::KeyOf(key)
            &&& parts[9] == CertificatePart::ExtendedUsage(identifiers.document_signing@)
            &&& parts[10] == CertificatePart::AuthorityKeyIdentifier(aki_source)
            &&& parts.last() == CertificatePart::SignedWith(issuer_key)
        },
{
    if is_intermediate(certificate, key, issuer_cert, issuer_key, aki_source, identifiers) {
        let policies = choose|policies: Seq<u8>| #[trigger]
            is_policy_list(identifiers.ca_policy@, policies) && certificate_parts(certificate)
                == issued_parts(
                "TZAP Platform Intermediate"@,
                key,
                Some(&issuer_cert),
                issuer_key,
                Some(&aki_source),
                intermediate_plan(policies),
            );
        assert(intermediate_plan(policies).len() == 6);
        assert(extension_parts(intermediate_plan(policies), Some(&aki_source)).len() == 6);
        assert(extension_parts(intermediate_plan(policies), Some(&aki_source))[3]
            == CertificatePart::AuthorityKeyIdentifier(aki_source));
    }
    if is_leaf(certificate, key, issuer_cert, issuer_key, aki_source, identifiers, config) {
        let policies = choose|policies: Option<Seq<u8>>| #[trigger]
            is_leaf_policy(identifiers.leaf_policy@, config, policies) && canonical_json(
                metadata_fields_view(identifiers.leaf_policy@),
            ) is Some && certificate_parts(certificate) == issued_parts(
                "TZAP Test Signer"@,
                key,
                Some(&issuer_cert),
                issuer_key,
                Some(&aki_source),
                leaf_plan(
                    identifiers.document_signing@,
                    policies,
                    identifiers.metadata_extension@,
                    canonical_json(metadata_fields_view(identifiers.leaf_policy@))->0,
                ),
            );
        let plan = leaf_plan(
            identifiers.document_signing@,
            policies,
            identifiers.metadata_extension@,
            canonical_json(metadata_fields_view(identifiers.leaf_policy@))->0,
        );
        assert(plan[2] == ExtensionView::ExtendedUsage(identifiers.document_signing@));
        assert(plan[3] is AuthorityKeyIdentifier);
        let extensions = extension_parts(plan, Some(&aki_source));
        assert(extensions.len() == plan.len());
        assert(extensions[2] == CertificatePart::ExtendedUsage(identifiers.document_signing@));
        assert(extensions[3] == CertificatePart::AuthorityKeyIdentifier(aki_source));
    }
}

/// A policy is written as its identifier in a list of one in the list of all policies; the
/// lists of several policies are joined in order.
pub proof fn law_policies_are_lists_of_identifiers(
    value: Seq<u8>,
    upper: Seq<Option<Seq<u8>>>,
    lower: Seq<Option<Seq<u8>>>,
)
    ensures
        value.len() < 100 ==> policies_element(seq![Some(value)]) == Some(
            seq![
                0x30u8,
                (value.len() + 4) as u8,
                0x30,
                (value.len() + 2) as u8,
                0x06,
                value.len() as u8,
            ] + value,
        ),
        policy_infos(upper) is Some && policy_infos(lower) is Some ==> policy_infos(upper + lower)
            == Some(policy_infos(upper)->0 + policy_infos(lower)->0),
    decreases lower.len(),
{
    if value.len() < 100 {
        reveal_with_fuel(policy_infos, 2);
        let element = wrapped(OBJECT_IDENTIFIER, value);
        assert(seq![Some(value)].drop_last() =~= Seq::<Option<Seq<u8>>>::empty());
        assert(element.len() == value.len() + 2);
        assert(policy_infos(seq![Some(value)]) == Some(
            Seq::<u8>::empty() + wrapped(SEQUENCE, element),
        ));
        assert(Seq::<u8>::empty() + wrapped(SEQUENCE, element) =~= wrapped(SEQUENCE, element));
        assert(wrapped(SEQUENCE, wrapped(SEQUENCE, element)) =~= seq![
            0x30u8,
            (value.len() + 4) as u8,
            0x30,
            (value.len() + 2) as u8,
            0x06,
            value.len() as u8,
        ] + value);
    }
    if policy_infos(upper) is Some && policy_infos(lower) is Some {
        if lower.len() == 0 {
            assert(upper + lower =~= upper);
            assert(policy_infos(upper)->0 + policy_infos(lower)->0 =~= policy_infos(upper)->0);
        } else {
            assert((upper + lower).drop_last() =~= upper + lower.drop_last());
            law_policies_are_lists_of_identifiers(value, upper, lower.drop_last());
            assert(policy_infos(upper + lower)->0 =~= policy_infos(upper)->0 + policy_infos(
                lower,
            )->0);
        }
    }
}

/// The metadata of a signer name its version, its identifiers, how far it was verified and
/// its policy, in this order.
pub proof fn law_metadata_name_the_policy(policy_oid: Seq<char>)
    ensures
        metadata_fields_view(policy_oid).len() == 6,
        metadata_fields_view(policy_oid)[0].name == "version"@,
        metadata_fields_view(policy_oid)[0].value == JsonValueView::Number(1),
        metadata_fields_view(policy_oid)[1].name == "public_signer_id"@,
        metadata_fields_view(policy_oid)[1].value == JsonValueView::Text(
            "psign_0123456789ABCDEFGH"@,
        ),
        metadata_fields_view(policy_oid)[2].name == "public_org_id"@,
        metadata_fields_view(policy_oid)[2].value == JsonValueView::Text(
            "porg_0123456789ABCDEFGH"@,
        ),
        metadata_fields_view(policy_oid)[3].name == "public_device_id"@,
        metadata_fields_view(policy_oid)[3].value == JsonValueView::Text(
            "pdev_0123456789ABCDEFGH"@,
        ),
        metadata_fields_view(policy_oid)[4].name == "assurance_level"@,
        metadata_fields_view(policy_oid)[4].value == JsonValueView::Text("oauth_verified_email"@),
        metadata_fields_view(policy_oid)[5].name == "policy_oid"@,
        metadata_fields_view(policy_oid)[5].value == JsonValueView::Text(policy_oid),
{
}

/// The digest of a certificate is named by its algorithm and written in base sixteen.
pub proof fn law_digests_are_named_by_their_algorithm(digest: Seq<u8>)
    ensures
        identifier(digest) == "sha256:"@ + hex(digest),
        identifier(digest).len() == 7 + hex(digest).len(),
{
    reveal_strlit("sha256:");
}

/// A generated chain is one: the leaf is issued by the intermediate certificate and that
/// by the root, all keys are on the curve P-256, and the files are those of the leaf, the
/// intermediate certificate and the root, in this order.
pub proof fn law_generated_chains_lead_to_their_root(
    fixture: CertificateFixture,
    config: ChainConfig,
    identifiers: ChainIdentifiers,
)
    requires
        fixture.wf(),
        is_chain(fixture, config, identifiers),
    ensures
        fixture.chain_der@.len() == 3,
        fixture.chain_der@[2]@ == fixture.root_der@,
        fixture.root_sha256@ == "sha256:"@ + hex(sha256_digest(fixture.root_der@)),
        key_curve(fixture.leaf_key) == "P-256"@,
        exists|
            root: openssl::x509::X509,
            root_key: openssl::pkey::PKey<openssl::pkey::Private>,
            platform: openssl::x509::X509,
            platform_key: openssl::pkey::PKey<openssl::pkey::Private>,
            leaf: openssl::x509::X509,
        |
            certificate_parts(root) == root_parts(root_key) && #[trigger] is_intermediate(
                platform,
                platform_key,
                root,
                root_key,
                root,
                identifiers,
            ) && #[trigger] is_leaf(
                leaf,
                fixture.leaf_key,
                platform,
                platform_key,
                platform,
                identifiers,
                config,
            ) && certificate_bytes_answer(certificate_parts(leaf), fixture.chain_der@[0]@)
                && certificate_bytes_answer(certificate_parts(platform), fixture.chain_der@[1]@)
                && certificate_bytes_answer(certificate_parts(root), fixture.root_der@),
{
}

} // verus!
