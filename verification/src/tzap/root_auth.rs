//! X.509 signatures of archives: checking them against trusted roots, telling
//! which root vouched for them, and showing who signed.
use crate::failure::{IoFailure, IoKind};
#[allow(unused_imports)]
use crate::failure::IoFailureView;
#[allow(unused_imports)]
use crate::codec::data_view;
use crate::text::{concat3, concat4, hex_text, same_text};
#[allow(unused_imports)]
use crate::text::{hex, texts};
use crate::tzap::authenticator::{
    X509AuthenticatorInspection, parse_x509_authenticator_for_inspection,
};
#[allow(unused_imports)]
use crate::tzap::authenticator::{authenticator, claimed_time};
use crate::tzap::error::{
    FormatFault, TzapError, invalid_archive, io_failed, oversized_message, root_auth_error,
};
#[allow(unused_imports)]
use crate::tzap::error::{
    FormatFaultView, TzapFault, format_message, malformed, oversized_text,
};
use crate::tzap::inventory::{TzapX509TrustOptions, copy_bytes};
#[allow(unused_imports)]
use crate::tzap::inventory::byte_strings;
#[allow(unused_imports)]
use crate::tzap::keys::password_view;
use crate::tzap::opening::ArchiveInput;
use tzap_core::wire::RootAuthFooterV1;
use tzap_plugin_signing::x509_chain;
use vstd::prelude::*;

verus! {

/// The number of the X.509 profile among the ways to sign an archive.
pub const X509_AUTHENTICATOR_ID: u16 = 3;

/// The number that says that the signer is named by a DER certificate.
pub const X509_SIGNER_IDENTITY_TYPE_DER_CERT: u16 = 2;

/// The footer of a signed archive.
#[derive(Debug, PartialEq, Eq)]
pub struct RootAuthFooter {
    pub archive_uuid: [u8; 16],
    pub session_id: [u8; 16],
    pub format_version: u16,
    pub volume_format_rev: u16,
    pub authenticator_id: u16,
    pub signer_identity_type: u16,
    pub signer_identity_bytes: Vec<u8>,
    pub authenticator_value: Vec<u8>,
    pub total_data_block_count: u64,
    pub critical_metadata_digest: [u8; 32],
    pub index_digest: [u8; 32],
    pub fec_layout_digest: [u8; 32],
    pub data_block_merkle_root: [u8; 32],
    pub signer_identity_digest: [u8; 32],
    pub archive_root: [u8; 32],
    pub footer_crc32c: u32,
}

/// The footer of a signed archive with its bytes taken as sequences.
pub struct FooterView {
    pub archive_uuid: Seq<u8>,
    pub session_id: Seq<u8>,
    pub format_version: u16,
    pub volume_format_rev: u16,
    pub authenticator_id: u16,
    pub signer_identity_type: u16,
    pub signer_identity_bytes: Seq<u8>,
    pub authenticator_value: Seq<u8>,
    pub total_data_block_count: u64,
    pub critical_metadata_digest: Seq<u8>,
    pub index_digest: Seq<u8>,
    pub fec_layout_digest: Seq<u8>,
    pub data_block_merkle_root: Seq<u8>,
    pub signer_identity_digest: Seq<u8>,
    pub archive_root: Seq<u8>,
    pub footer_crc32c: u32,
}

impl View for RootAuthFooter {
    type V = FooterView;

    open spec fn view(&self) -> FooterView {
        FooterView {
            archive_uuid: self.archive_uuid@,
            session_id: self.session_id@,
            format_version: self.format_version,
            volume_format_rev: self.volume_format_rev,
            authenticator_id: self.authenticator_id,
            signer_identity_type: self.signer_identity_type,
            signer_identity_bytes: self.signer_identity_bytes@,
            authenticator_value: self.authenticator_value@,
            total_data_block_count: self.total_data_block_count,
            critical_metadata_digest: self.critical_metadata_digest@,
            index_digest: self.index_digest@,
            fec_layout_digest: self.fec_layout_digest@,
            data_block_merkle_root: self.data_block_merkle_root@,
            signer_identity_digest: self.signer_identity_digest@,
            archive_root: self.archive_root@,
            footer_crc32c: self.footer_crc32c,
        }
    }
}

/// Why a footer cannot hold an X.509 signature, whatever else it holds.
pub open spec fn profile_fault(footer: RootAuthFooter) -> Option<Seq<char>> {
    if footer.authenticator_id != X509_AUTHENTICATOR_ID {
        Some("unsupported authenticator id"@)
    } else if footer.signer_identity_type != X509_SIGNER_IDENTITY_TYPE_DER_CERT {
        Some("unsupported signer identity type"@)
    } else {
        None
    }
}

/// What a signature check tells, apart from any trust.
#[derive(Clone, Copy, Debug, PartialEq, Eq)]
pub struct SignatureReport {
    /// When the signer claims to have signed.
    pub signed_at_unix_seconds: i64,
    /// Fingerprint of the signer's certificate.
    pub certificate_sha256: [u8; 32],
}

/// Whether a check of a footer may have come out like this: a footer of another
/// profile is refused with its reason, and one that is accepted claims the time
/// that its envelope holds.
pub open spec fn plausible<T>(
    footer: RootAuthFooter,
    outcome: Result<T, String>,
    signed_at: spec_fn(T) -> i64,
) -> bool {
    match profile_fault(footer) {
        Some(reason) => outcome matches Err(e) && e@ == reason,
        None => outcome matches Ok(report) ==> footer.authenticator_value@.len() >= 60
            && signed_at(report) as int == claimed_time(footer.authenticator_value@),
    }
}

/// Whether `tzap_plugin_signing::x509_chain::verify_root_auth_signature` can say
/// this of a footer and an archive root.
pub uninterp spec fn signature_answer(
    footer: RootAuthFooter,
    archive_root: Seq<u8>,
    outcome: Result<SignatureReport, String>,
) -> bool;

/// Calls `tzap_plugin_signing::x509_chain::verify_root_auth_signature`: the leaf
/// key signed the footer over `archive_root`. Claimed: the result answers for this
/// footer and this root, a footer of another profile is refused with a fixed
/// reason, and the time that a good one claims is the one at its place in the
/// envelope. Whether a signature is good is for OpenSSL to say and is not stated.
#[verifier::external_body]
pub(crate) fn check_root_auth_signature(f: &RootAuthFooter, archive_root: &[u8; 32]) -> (report:
    Result<SignatureReport, String>)
    ensures
        plausible(*f, report, |r: SignatureReport| r.signed_at_unix_seconds),
        signature_answer(*f, archive_root@, report),
{
    let footer = RootAuthFooterV1 {
        archive_uuid: f.archive_uuid, session_id: f.session_id, format_version: f.format_version,
        volume_format_rev: f.volume_format_rev, authenticator_id: f.authenticator_id,
        signer_identity_type: f.signer_identity_type, signer_identity_bytes: f.signer_identity_bytes.clone(),
        authenticator_value: f.authenticator_value.clone(), total_data_block_count: f.total_data_block_count,
        critical_metadata_digest: f.critical_metadata_digest, index_digest: f.index_digest,
        fec_layout_digest: f.fec_layout_digest, data_block_merkle_root: f.data_block_merkle_root,
        signer_identity_digest: f.signer_identity_digest, archive_root: f.archive_root, footer_crc32c: f.footer_crc32c,
    };
    let r = x509_chain::verify_root_auth_signature(&footer, archive_root).map_err(|e| e.to_string())?;
    Ok(SignatureReport { signed_at_unix_seconds: r.signed_at_unix_seconds, certificate_sha256: r.certificate_sha256 })
}

/// What a check of a signature and its certificate chain tells.
#[derive(Debug, PartialEq, Eq)]
pub struct RootAuthReport {
    /// When the signer claims to have signed.
    pub signed_at_unix_seconds: i64,
    /// Leaf certificate subject.
    pub subject: String,
    /// Leaf certificate issuer.
    pub issuer: String,
    /// Leaf certificate serial number.
    pub serial_number_hex: String,
    /// SHA-256 fingerprint of the leaf certificate.
    pub certificate_sha256: [u8; 32],
    /// Subjects in the verified chain.
    pub verified_chain_subjects: Vec<String>,
    /// Trust anchor subject, when OpenSSL reported one.
    pub trust_anchor_subject: Option<String>,
}

/// Whether `tzap_plugin_signing::x509_chain::verify_root_auth_footer_at_time` can
/// say this of a footer and an archive root under the given roots at a time.
pub uninterp spec fn chain_answer(
    footer: RootAuthFooter,
    archive_root: Seq<u8>,
    roots: Seq<Seq<u8>>,
    system_roots: bool,
    official_root: bool,
    time: i64,
    outcome: Result<RootAuthReport, String>,
) -> bool;

/// Calls `tzap_plugin_signing::x509_chain::verify_root_auth_footer_at_time`: the
/// leaf key signed the footer over `archive_root`, and its chain leads to one of
/// the given roots, or to one of the system, at `time`. Claimed: the result answers
/// for these arguments, a footer of another profile is refused with a fixed
/// reason, and the time that a good one claims is the one at its place in the
/// envelope. Whether a chain is good is for OpenSSL and the roots of the system to
/// say and is not stated.
#[verifier::external_body]
pub(crate) fn verify_footer_at_time(
    f: &RootAuthFooter,
    archive_root: &[u8; 32],
    roots: &Vec<Vec<u8>>,
    system_roots: bool,
    official_root: bool,
    time: i64,
) -> (report: Result<RootAuthReport, String>)
    ensures
        plausible(*f, report, |r: RootAuthReport| r.signed_at_unix_seconds),
        chain_answer(
            *f,
            archive_root@,
            byte_strings(roots@),
            system_roots,
            official_root,
            time,
            report,
        ),
{
    let footer = RootAuthFooterV1 {
        archive_uuid: f.archive_uuid, session_id: f.session_id, format_version: f.format_version,
        volume_format_rev: f.volume_format_rev, authenticator_id: f.authenticator_id, signer_identity_type: f.signer_identity_type,
        signer_identity_bytes: f.signer_identity_bytes.clone(), authenticator_value: f.authenticator_value.clone(),
        total_data_block_count: f.total_data_block_count, critical_metadata_digest: f.critical_metadata_digest, index_digest: f.index_digest,
        fec_layout_digest: f.fec_layout_digest, data_block_merkle_root: f.data_block_merkle_root,
        signer_identity_digest: f.signer_identity_digest, archive_root: f.archive_root, footer_crc32c: f.footer_crc32c,
    };
    let r = x509_chain::verify_root_auth_footer_at_time(&footer, archive_root, roots, system_roots, official_root, Some(time))
        .map_err(|e| e.to_string())?;
    Ok(RootAuthReport {
        signed_at_unix_seconds: r.signed_at_unix_seconds, subject: r.subject, issuer: r.issuer, serial_number_hex: r.serial_number_hex,
        certificate_sha256: r.certificate_sha256, verified_chain_subjects: r.verified_chain_subjects, trust_anchor_subject: r.trust_anchor_subject,
    })
}

/// The time that a check of a signature tells, or why it tells none.
pub open spec fn claimed_by(outcome: Result<SignatureReport, String>) -> Result<i64, TzapFault> {
    match outcome {
        Ok(report) => Ok(report.signed_at_unix_seconds),
        Err(message) => Err(TzapFault::X509RootAuth(message@)),
    }
}

/// A time and an error taken by their views.
pub open spec fn time_result(r: Result<i64, TzapError>) -> Result<i64, TzapFault> {
    match r {
        Ok(time) => Ok(time),
        Err(e) => Err(e@),
    }
}

/// The signer-claimed signing time of a footer whose signature is good. It lies
/// inside the signed envelope, so the signature has to be checked first.
pub fn claimed_signing_time(footer: &RootAuthFooter, archive_root: &[u8; 32]) -> (time: Result<
    i64,
    TzapError,
>)
    ensures
        match time {
            Ok(time) => profile_fault(*footer) is None && time as int == claimed_time(
                footer.authenticator_value@,
            ),
            Err(e) => e@ is X509RootAuth && (profile_fault(*footer) matches Some(reason) ==> e@
                == TzapFault::X509RootAuth(reason)),
        },
        exists|outcome: Result<SignatureReport, String>| #[trigger]
            signature_answer(*footer, archive_root@, outcome) && time_result(time)
                == claimed_by(outcome),
{
    let outcome: Result<SignatureReport, String> = check_root_auth_signature(footer, archive_root);
    let ghost seen = outcome;
    let time: Result<i64, TzapError> = match outcome {
        Ok(report) => Ok(report.signed_at_unix_seconds),
        Err(message) => Err(TzapError::X509RootAuth(message)),
    };
    assert(signature_answer(*footer, archive_root@, seen));
    time
}

/// Which root vouched for a signature.
#[derive(Clone, Copy, Debug, PartialEq, Eq, Structural)]
pub enum TzapX509TrustAnchor {
    ProductionRoot,
    StagingRoot,
    Untrusted,
}

/// The root that vouched for a signature, given whether it is good under each
/// official root alone.
pub open spec fn anchor_of(production: bool, staging: bool) -> TzapX509TrustAnchor {
    if production {
        TzapX509TrustAnchor::ProductionRoot
    } else if staging {
        TzapX509TrustAnchor::StagingRoot
    } else {
        TzapX509TrustAnchor::Untrusted
    }
}

/// The root that vouched for a signature, given whether it is good under each
/// official root alone.
pub fn trust_anchor_from(production: bool, staging: bool) -> (anchor: TzapX509TrustAnchor)
    ensures
        anchor == anchor_of(production, staging),
{
    if production {
        TzapX509TrustAnchor::ProductionRoot
    } else if staging {
        TzapX509TrustAnchor::StagingRoot
    } else {
        TzapX509TrustAnchor::Untrusted
    }
}

/// Whether the chain of a footer can be found `good` under one root alone.
pub open spec fn judged_under(
    footer: RootAuthFooter,
    archive_root: Seq<u8>,
    root: Seq<u8>,
    time: i64,
    good: bool,
) -> bool {
    exists|outcome: Result<RootAuthReport, String>| #[trigger]
        chain_answer(footer, archive_root, seq![root], false, false, time, outcome) && good == (
        outcome is Ok)
}

/// Whether `anchor` is what checking a footer under the production root, and then
/// under the staging root, leads to.
pub open spec fn judged_anchor(
    footer: RootAuthFooter,
    archive_root: Seq<u8>,
    production_root: Seq<u8>,
    staging_root: Seq<u8>,
    time: i64,
    anchor: TzapX509TrustAnchor,
) -> bool {
    exists|production: bool, staging: bool|
        judged_under(footer, archive_root, production_root, time, production) && (!production
            ==> judged_under(footer, archive_root, staging_root, time, staging)) && anchor
            == #[trigger] anchor_of(production, staging)
}

fn is_good_under(
    footer: &RootAuthFooter,
    archive_root: &[u8; 32],
    root: &Vec<u8>,
    time: i64,
) -> (r: bool)
    ensures
        profile_fault(*footer) is Some ==> !r,
        judged_under(*footer, archive_root@, root@, time, r),
{
    let mut roots: Vec<Vec<u8>> = Vec::new();
    roots.push(copy_bytes(root));
    assert(byte_strings(roots@) =~= seq![root@]);
    match verify_footer_at_time(footer, archive_root, &roots, false, false, time) {
        Ok(_) => true,
        Err(_) => false,
    }
}

/// Finds the root that vouched for a footer by checking it against each of the
/// two official roots alone, at the time that the first check used.
pub fn classify_x509_trust_anchor_against(
    footer: &RootAuthFooter,
    archive_root: &[u8; 32],
    production_root_der: &Vec<u8>,
    staging_root_der: &Vec<u8>,
    chain_validation_time_unix_seconds: i64,
) -> (anchor: TzapX509TrustAnchor)
    ensures
        judged_anchor(
            *footer,
            archive_root@,
            production_root_der@,
            staging_root_der@,
            chain_validation_time_unix_seconds,
            anchor,
        ),
        profile_fault(*footer) is Some ==> anchor == TzapX509TrustAnchor::Untrusted,
{
    let production: bool = is_good_under(
        footer,
        archive_root,
        production_root_der,
        chain_validation_time_unix_seconds,
    );
    let staging: bool = !production && is_good_under(
        footer,
        archive_root,
        staging_root_der,
        chain_validation_time_unix_seconds,
    );
    trust_anchor_from(production, staging)
}

/// An official root certificate as it is shipped.
pub struct OfficialRoot {
    /// The certificate in PEM form.
    pub pem: Vec<u8>,
    /// Its fingerprint, for messages.
    pub sha256: String,
}

/// The official roots.
pub struct OfficialRoots {
    pub production: OfficialRoot,
    pub staging: OfficialRoot,
}

/// Whether `tzap_plugin_signing::x509_chain::certificate_der_from_pem_or_der` can
/// make this of a file.
pub uninterp spec fn certificate_answer(bytes: Seq<u8>, der: Result<Seq<u8>, Seq<char>>) -> bool;

/// Calls `tzap_plugin_signing::x509_chain::certificate_der_from_pem_or_der`: the
/// first certificate of a PEM or DER file, as DER. Claimed: the result answers for
/// this file. What is accepted is for OpenSSL to say and is not stated. The bytes may be
/// no more than C can count.
#[verifier::external_body]
fn certificate_der(bytes: &Vec<u8>) -> (der: Result<Vec<u8>, String>)
    requires
        bytes@.len() <= i32::MAX,
    ensures
        certificate_answer(bytes@, data_view(der)),
{
    tzap_plugin_signing::x509_chain::certificate_der_from_pem_or_der(bytes).map_err(|e| e.to_string())
}

/// Whether `der` is what is made of a file that holds one certificate. A file that is too
/// long for OpenSSL is not shown to it.
pub open spec fn certificate_said(bytes: Seq<u8>, der: Result<Seq<u8>, Seq<char>>) -> bool {
    if bytes.len() > i32::MAX {
        der == Err::<Seq<u8>, Seq<char>>(oversized_text())
    } else {
        certificate_answer(bytes, der)
    }
}

fn read_certificate(bytes: &Vec<u8>) -> (der: Result<Vec<u8>, String>)
    ensures
        certificate_said(bytes@, data_view(der)),
{
    if bytes.len() > i32::MAX as usize {
        Err(oversized_message())
    } else {
        certificate_der(bytes)
    }
}

/// Whether `tzap_plugin_signing::x509_chain::certificates_der_from_pem_or_der` can
/// make this of a file.
pub uninterp spec fn certificates_answer(
    bytes: Seq<u8>,
    list: Result<Seq<Seq<u8>>, Seq<char>>,
) -> bool;

/// What was made of a certificate file, taken by its view.
pub open spec fn parsed_view(parsed: Result<Vec<Vec<u8>>, String>) -> Parsed {
    match parsed {
        Ok(list) => Ok(byte_strings(list@)),
        Err(message) => Err(message@),
    }
}

/// Calls `tzap_plugin_signing::x509_chain::certificates_der_from_pem_or_der`: the
/// certificates of a PEM or DER file, as DER. Claimed: the result answers for this
/// file, and a file that is accepted holds at least one. What is accepted is for
/// OpenSSL to say and is not stated. The bytes may be no more than C can count.
#[verifier::external_body]
fn certificates_der(bytes: &Vec<u8>) -> (list: Result<Vec<Vec<u8>>, String>)
    requires
        bytes@.len() <= i32::MAX,
    ensures
        list matches Ok(list) ==> list@.len() > 0,
        certificates_answer(bytes@, parsed_view(list)),
{
    tzap_plugin_signing::x509_chain::certificates_der_from_pem_or_der(bytes).map_err(|e| e.to_string())
}

/// Whether `list` is what is made of a file that holds certificates. A file that is too
/// long for OpenSSL is not shown to it.
pub open spec fn certificates_said(bytes: Seq<u8>, list: Parsed) -> bool {
    if bytes.len() > i32::MAX {
        list == Err::<Seq<Seq<u8>>, Seq<char>>(oversized_text())
    } else {
        certificates_answer(bytes, list)
    }
}

pub(crate) fn read_certificates(bytes: &Vec<u8>) -> (list: Result<Vec<Vec<u8>>, String>)
    ensures
        list matches Ok(list) ==> list@.len() > 0,
        certificates_said(bytes@, parsed_view(list)),
{
    if bytes.len() > i32::MAX as usize {
        Err(oversized_message())
    } else {
        certificates_der(bytes)
    }
}

/// Whether `anchor` is the root that vouched for a footer. Without the official
/// roots in play, or where one of them cannot be read, nobody did.
pub open spec fn classified(
    footer: RootAuthFooter,
    archive_root: Seq<u8>,
    trust: TzapX509TrustOptions,
    official: OfficialRoots,
    time: i64,
    anchor: TzapX509TrustAnchor,
) -> bool {
    if !trust.include_official_tzap_root {
        anchor == TzapX509TrustAnchor::Untrusted
    } else {
        exists|production: Result<Seq<u8>, Seq<char>>, staging: Result<Seq<u8>, Seq<char>>|
            #[trigger] certificate_said(official.production.pem@, production)
                && #[trigger] certificate_said(official.staging.pem@, staging) && (match (
                production,
                staging,
            ) {
                (Ok(first), Ok(second)) => judged_anchor(
                    footer,
                    archive_root,
                    first,
                    second,
                    time,
                    anchor,
                ),
                _ => anchor == TzapX509TrustAnchor::Untrusted,
            })
    }
}

/// Finds the root that vouched for a footer that was accepted under `trust`.
/// Without the official roots in play the answer is `Untrusted`.
pub fn classify_x509_trust_anchor(
    footer: &RootAuthFooter,
    archive_root: &[u8; 32],
    trust: &TzapX509TrustOptions,
    official: &OfficialRoots,
    chain_validation_time_unix_seconds: i64,
) -> (anchor: TzapX509TrustAnchor)
    ensures
        !trust.include_official_tzap_root || profile_fault(*footer) is Some ==> anchor
            == TzapX509TrustAnchor::Untrusted,
        classified(
            *footer,
            archive_root@,
            *trust,
            *official,
            chain_validation_time_unix_seconds,
            anchor,
        ),
{
    if !trust.include_official_tzap_root {
        return trust_anchor_from(false, false);
    }
    let production: Result<Vec<u8>, String> = read_certificate(&official.production.pem);
    let staging: Result<Vec<u8>, String> = read_certificate(&official.staging.pem);
    match (&production, &staging) {
        (Ok(first), Ok(second)) => classify_x509_trust_anchor_against(
            footer,
            archive_root,
            first,
            second,
            chain_validation_time_unix_seconds,
        ),
        _ => trust_anchor_from(false, false),
    }
}

/// A certificate file that was read, or why it was not.
pub struct CertificateFile {
    /// Where the file is.
    pub path: String,
    /// What it holds.
    pub bytes: Result<Vec<u8>, IoFailure>,
}

/// The file with a path among those that were read.
pub open spec fn file_with_path(files: Seq<CertificateFile>, path: Seq<char>) -> Option<int>
    decreases files.len(),
{
    if files.len() == 0 {
        None
    } else if files.last().path@ == path {
        Some(files.len() - 1)
    } else {
        file_with_path(files.drop_last(), path)
    }
}

/// What reading the file at a path came to. A file that was not read has failed.
pub open spec fn read_result(files: Seq<CertificateFile>, path: Seq<char>) -> Result<
    Seq<u8>,
    IoFailureView,
> {
    match file_with_path(files, path) {
        Some(i) => data_view(files[i].bytes),
        None => Err(
            IoFailureView { kind: IoKind::NotFound, message: "the file was not read"@ },
        ),
    }
}

/// What reading the file at a path came to.
pub fn read_file(files: &Vec<CertificateFile>, path: &str) -> (file: CertificateFile)
    ensures
        file.path@ == path@,
        data_view(file.bytes) == read_result(files@, path@),
{
    let mut i: usize = files.len();
    assert(files@.take(files@.len() as int) =~= files@);
    while i > 0
        invariant
            i <= files@.len(),
            file_with_path(files@.take(i as int), path@) == file_with_path(files@, path@),
        decreases i,
    {
        assert(files@.take(i as int).drop_last() =~= files@.take(i - 1));
        assert(files@.take(i as int).last() == files@[i - 1]);
        if same_text(files[i - 1].path.as_str(), path) {
            let bytes: Result<Vec<u8>, IoFailure> = match &files[i - 1].bytes {
                Ok(bytes) => Ok(copy_bytes(bytes)),
                Err(failure) => Err(failure.copy()),
            };
            return CertificateFile { path: path.to_owned(), bytes };
        }
        i = i - 1;
    }
    assert(files@.take(0) =~= Seq::<CertificateFile>::empty());
    CertificateFile {
        path: path.to_owned(),
        bytes: Err(IoFailure::new(IoKind::NotFound, "the file was not read")),
    }
}

/// Whether a list holds the files at some paths, in order.
pub open spec fn are_read_from(
    list: Seq<CertificateFile>,
    paths: Seq<Seq<char>>,
    files: Seq<CertificateFile>,
) -> bool {
    list.len() == paths.len() && forall|k: int|
        0 <= k < list.len() ==> (#[trigger] list[k]).path@ == paths[k] && data_view(list[k].bytes)
            == read_result(files, paths[k])
}

/// What reading the files at some paths came to, in order.
pub fn read_files(files: &Vec<CertificateFile>, paths: &Vec<String>) -> (list: Vec<CertificateFile>)
    ensures
        are_read_from(list@, texts(paths@), files@),
{
    let mut list: Vec<CertificateFile> = Vec::new();
    let mut i: usize = 0;
    while i < paths.len()
        invariant
            i == list@.len(),
            i <= paths@.len(),
            forall|k: int|
                0 <= k < i ==> (#[trigger] list@[k]).path@ == paths@[k]@ && data_view(list@[k].bytes)
                    == read_result(files@, paths@[k]@),
        decreases paths@.len() - i,
    {
        let file: CertificateFile = read_file(files, paths[i].as_str());
        list.push(file);
        i = i + 1;
    }
    list
}

/// What certificate files were parsed into, with texts and bytes taken as
/// sequences.
pub type Parsed = Result<Seq<Seq<u8>>, Seq<char>>;

/// The certificates of some files, in order, if `parsed` is what was made of
/// each.
pub open spec fn certificates_of(files: Seq<CertificateFile>, parsed: Seq<Parsed>) -> Result<
    Seq<Seq<u8>>,
    TzapFault,
>
    decreases files.len(),
{
    if files.len() == 0 {
        Ok(Seq::empty())
    } else {
        let last = files.len() - 1;
        match certificates_of(files.drop_last(), parsed) {
            Err(fault) => Err(fault),
            Ok(list) => match files.last().bytes {
                Err(failure) => Err(
                    TzapFault::Io { path: files.last().path@, source: failure@ },
                ),
                Ok(_) => match parsed[last] {
                    Err(message) => Err(TzapFault::X509RootAuth(message)),
                    Ok(more) => Ok(list + more),
                },
            },
        }
    }
}

/// Whether `parsed` is what was made of each file that is reached: the first file
/// that is no good ends the reading.
pub open spec fn files_answer(files: Seq<CertificateFile>, parsed: Seq<Parsed>) -> bool {
    &&& parsed.len() == files.len()
    &&& forall|k: int|
        0 <= k < files.len() && certificates_of(files.take(k), parsed) is Ok ==> file_answer(
            files[k],
            #[trigger] parsed[k],
        )
}

/// Whether `parsed` is what was made of a file, if it could be read.
pub open spec fn file_answer(file: CertificateFile, parsed: Parsed) -> bool {
    file.bytes matches Ok(bytes) ==> certificates_said(bytes@, parsed)
}

proof fn lemma_certificates_agree(
    files: Seq<CertificateFile>,
    one: Seq<Parsed>,
    other: Seq<Parsed>,
)
    requires
        files.len() <= one.len(),
        files.len() <= other.len(),
        forall|k: int| 0 <= k < files.len() ==> #[trigger] one[k] == other[k],
    ensures
        certificates_of(files, one) == certificates_of(files, other),
    decreases files.len(),
{
    if files.len() > 0 {
        lemma_certificates_agree(files.drop_last(), one, other);
        assert(one[files.len() - 1] == other[files.len() - 1]);
    }
}

proof fn lemma_certificates_fail(files: Seq<CertificateFile>, parsed: Seq<Parsed>, k: int)
    requires
        0 <= k <= files.len(),
        certificates_of(files.take(k), parsed) is Err,
    ensures
        certificates_of(files, parsed) == certificates_of(files.take(k), parsed),
    decreases files.len(),
{
    if k == files.len() {
        assert(files.take(k) =~= files);
    } else {
        assert(files.drop_last().take(k) =~= files.take(k));
        lemma_certificates_fail(files.drop_last(), parsed, k);
    }
}

spec fn filled(parsed: Seq<Parsed>, len: nat) -> Seq<Parsed> {
    parsed + Seq::new((len - parsed.len()) as nat, |k: int| Err(Seq::empty()))
}

proof fn lemma_reading_ends(files: Seq<CertificateFile>, parsed: Seq<Parsed>)
    requires
        0 < parsed.len() <= files.len(),
        forall|k: int| 0 <= k < parsed.len() ==> file_answer(files[k], #[trigger] parsed[k]),
        certificates_of(files.take(parsed.len() as int), parsed) is Err,
    ensures
        files_answer(files, filled(parsed, files.len())),
        certificates_of(files, filled(parsed, files.len())) == certificates_of(
            files.take(parsed.len() as int),
            parsed,
        ),
{
    let whole = filled(parsed, files.len());
    let n = parsed.len() as int;
    assert(whole.len() == files.len());
    assert forall|k: int| 0 <= k < n implies #[trigger] whole[k] == parsed[k] by {}
    lemma_certificates_agree(files.take(n), whole, parsed);
    lemma_certificates_fail(files, whole, n);
    assert forall|k: int|
        0 <= k < files.len() && certificates_of(files.take(k), whole) is Ok implies file_answer(
        files[k],
        #[trigger] whole[k],
    ) by {
        if k < n {
            assert(whole[k] == parsed[k]);
        } else {
            assert(files.take(k).take(n) =~= files.take(n));
            lemma_certificates_fail(files.take(k), whole, n);
        }
    }
}

/// A list of certificates and an error taken by their views.
pub open spec fn certificate_list_result(r: Result<Vec<Vec<u8>>, TzapError>) -> Result<
    Seq<Seq<u8>>,
    TzapFault,
> {
    match r {
        Ok(list) => Ok(byte_strings(list@)),
        Err(e) => Err(e@),
    }
}

fn append_all(list: &mut Vec<Vec<u8>>, more: &Vec<Vec<u8>>)
    ensures
        byte_strings(final(list)@) == byte_strings(old(list)@) + byte_strings(more@),
{
    let ghost before = byte_strings(list@);
    let ghost added = byte_strings(more@);
    let mut i: usize = 0;
    assert(before + added.take(0) =~= before);
    while i < more.len()
        invariant
            i <= more@.len(),
            added == byte_strings(more@),
            byte_strings(list@) == before + added.take(i as int),
        decreases more@.len() - i,
    {
        let ghost so_far = list@;
        let item: Vec<u8> = copy_bytes(&more[i]);
        list.push(item);
        assert(byte_strings(list@) =~= byte_strings(so_far).push(item@));
        assert(before + added.take(i + 1) =~= (before + added.take(i as int)).push(
            added[i as int],
        ));
        i = i + 1;
    }
    assert(added.take(more@.len() as int) =~= added);
}

/// The certificates of some files, in order.
pub fn load_x509_certificate_files(files: &Vec<CertificateFile>) -> (list: Result<
    Vec<Vec<u8>>,
    TzapError,
>)
    ensures
        exists|parsed: Seq<Parsed>|
            files_answer(files@, parsed) && certificate_list_result(list)
                == #[trigger] certificates_of(files@, parsed),
{
    let mut list: Vec<Vec<u8>> = Vec::new();
    let ghost mut parsed: Seq<Parsed> = Seq::empty();
    let mut i: usize = 0;
    assert(byte_strings(list@) =~= Seq::<Seq<u8>>::empty());
    while i < files.len()
        invariant
            i <= files@.len(),
            parsed.len() == i,
            forall|k: int| 0 <= k < i ==> file_answer(files@[k], #[trigger] parsed[k]),
            certificates_of(files@.take(i as int), parsed) == Ok::<Seq<Seq<u8>>, TzapFault>(
                byte_strings(list@),
            ),
        decreases files@.len() - i,
    {
        let ghost before = parsed;
        assert(files@.take(i + 1).drop_last() =~= files@.take(i as int));
        match &files[i].bytes {
            Ok(bytes) => match read_certificates(bytes) {
                Ok(more) => {
                    proof {
                        parsed = parsed.push(Ok(byte_strings(more@)));
                        lemma_certificates_agree(files@.take(i as int), before, parsed);
                    }
                    append_all(&mut list, &more);
                },
                Err(message) => {
                    proof {
                        parsed = parsed.push(Err(message@));
                        lemma_certificates_agree(files@.take(i as int), before, parsed);
                        lemma_reading_ends(files@, parsed);
                    }
                    return Err(TzapError::X509RootAuth(message));
                },
            },
            Err(failure) => {
                proof {
                    parsed = parsed.push(Err(Seq::empty()));
                    lemma_certificates_agree(files@.take(i as int), before, parsed);
                    lemma_reading_ends(files@, parsed);
                }
                return Err(io_failed(files[i].path.as_str(), failure));
            },
        }
        i = i + 1;
    }
    assert(files@.take(files@.len() as int) =~= files@);
    Ok(list)
}

/// The roots that a signature is checked against: the two official ones in
/// front, if they are asked for, and those of the files.
pub open spec fn trusted_roots(
    include_official: bool,
    production: Result<Seq<u8>, Seq<char>>,
    production_sha256: Seq<char>,
    staging: Result<Seq<u8>, Seq<char>>,
    staging_sha256: Seq<char>,
    files: Result<Seq<Seq<u8>>, TzapFault>,
) -> Result<Seq<Seq<u8>>, TzapFault> {
    if !include_official {
        files
    } else {
        match (production, staging, files) {
            (Err(message), _, _) => Err(
                TzapFault::X509RootAuth(
                    "failed to parse embedded TZAP root certificate "@ + production_sha256 + ": "@
                        + message,
                ),
            ),
            (_, Err(message), _) => Err(
                TzapFault::X509RootAuth(
                    "failed to parse embedded TZAP staging root certificate "@ + staging_sha256
                        + ": "@ + message,
                ),
            ),
            (_, _, Err(fault)) => Err(fault),
            (Ok(first), Ok(second), Ok(more)) => Ok(seq![first, second] + more),
        }
    }
}

/// Puts the roots together that a signature is checked against.
pub fn collect_trusted_roots(
    include_official: bool,
    production: Result<Vec<u8>, String>,
    production_sha256: &str,
    staging: Result<Vec<u8>, String>,
    staging_sha256: &str,
    files: Result<Vec<Vec<u8>>, TzapError>,
) -> (roots: Result<Vec<Vec<u8>>, TzapError>)
    ensures
        certificate_list_result(roots) == trusted_roots(
            include_official,
            data_view(production),
            production_sha256@,
            data_view(staging),
            staging_sha256@,
            certificate_list_result(files),
        ),
{
    if !include_official {
        return files;
    }
    let first: Vec<u8> = match production {
        Ok(der) => der,
        Err(message) => {
            return Err(
                TzapError::X509RootAuth(
                    concat4(
                        "failed to parse embedded TZAP root certificate ",
                        production_sha256,
                        ": ",
                        message.as_str(),
                    ),
                ),
            );
        },
    };
    let second: Vec<u8> = match staging {
        Ok(der) => der,
        Err(message) => {
            return Err(
                TzapError::X509RootAuth(
                    concat4(
                        "failed to parse embedded TZAP staging root certificate ",
                        staging_sha256,
                        ": ",
                        message.as_str(),
                    ),
                ),
            );
        },
    };
    let more: Vec<Vec<u8>> = match files {
        Ok(list) => list,
        Err(e) => {
            return Err(e);
        },
    };
    let ghost heads = seq![first@, second@];
    let mut roots: Vec<Vec<u8>> = Vec::new();
    roots.push(first);
    roots.push(second);
    assert(byte_strings(roots@) =~= heads);
    append_all(&mut roots, &more);
    Ok(roots)
}

/// Whether `roots` are those that a signature is checked against under `trust`, with
/// what was made of the official ones and of the files that `trust` names, which are
/// among `files`.
pub open spec fn are_roots_of(
    roots: Result<Seq<Seq<u8>>, TzapFault>,
    trust: TzapX509TrustOptions,
    official: OfficialRoots,
    files: Seq<CertificateFile>,
) -> bool {
    exists|
        production: Result<Seq<u8>, Seq<char>>,
        staging: Result<Seq<u8>, Seq<char>>,
        named: Seq<CertificateFile>,
        parsed: Seq<Parsed>,
    |
        certificate_said(official.production.pem@, production) && certificate_said(
            official.staging.pem@,
            staging,
        ) && are_read_from(named, texts(trust.trusted_ca_certificates@), files) && files_answer(
            named,
            parsed,
        ) && roots == #[trigger] trusted_roots(
            trust.include_official_tzap_root,
            production,
            official.production.sha256@,
            staging,
            official.staging.sha256@,
            certificates_of(named, parsed),
        )
}

/// The roots that a signature is checked against under `trust`. The trusted CA
/// certificates that it names are among `files`.
pub fn load_x509_trusted_roots(
    trust: &TzapX509TrustOptions,
    official: &OfficialRoots,
    files: &Vec<CertificateFile>,
) -> (roots: Result<Vec<Vec<u8>>, TzapError>)
    ensures
        are_roots_of(certificate_list_result(roots), *trust, *official, files@),
{
    let production: Result<Vec<u8>, String> = read_certificate(&official.production.pem);
    let staging: Result<Vec<u8>, String> = read_certificate(&official.staging.pem);
    let named: Vec<CertificateFile> = read_files(files, &trust.trusted_ca_certificates);
    let list: Result<Vec<Vec<u8>>, TzapError> = load_x509_certificate_files(&named);
    let ghost one = data_view(production);
    let ghost two = data_view(staging);
    let ghost parsed = choose|parsed: Seq<Parsed>|
        files_answer(named@, parsed) && certificate_list_result(list) == #[trigger] certificates_of(
            named@,
            parsed,
        );
    let roots: Result<Vec<Vec<u8>>, TzapError> = collect_trusted_roots(
        trust.include_official_tzap_root,
        production,
        official.production.sha256.as_str(),
        staging,
        official.staging.sha256.as_str(),
        list,
    );
    assert(certificate_list_result(roots) == trusted_roots(
        trust.include_official_tzap_root,
        one,
        official.production.sha256@,
        two,
        official.staging.sha256@,
        certificates_of(named@, parsed),
    ));
    roots
}

/// The roots that a signature is checked against where one official root is shipped:
/// that one in front, if it is asked for, and those of the files.
pub open spec fn production_roots(
    include_official: bool,
    production: Result<Seq<u8>, Seq<char>>,
    sha256: Seq<char>,
    files: Result<Seq<Seq<u8>>, TzapFault>,
) -> Result<Seq<Seq<u8>>, TzapFault> {
    if !include_official {
        files
    } else {
        match (production, files) {
            (Err(message), _) => Err(
                TzapFault::X509RootAuth(
                    "failed to parse embedded TZAP root certificate "@ + sha256 + ": "@ + message,
                ),
            ),
            (_, Err(fault)) => Err(fault),
            (Ok(first), Ok(more)) => Ok(seq![first] + more),
        }
    }
}

/// The roots that a signature is checked against under `trust`, where the production
/// root is the only official one that is shipped. The trusted CA certificates that
/// `trust` names are among `files`.
pub fn load_x509_production_root(
    trust: &TzapX509TrustOptions,
    production: &OfficialRoot,
    files: &Vec<CertificateFile>,
) -> (roots: Result<Vec<Vec<u8>>, TzapError>)
    ensures
        exists|root: Result<Seq<u8>, Seq<char>>, named: Seq<CertificateFile>, parsed: Seq<Parsed>|
            certificate_said(production.pem@, root) && are_read_from(
                named,
                texts(trust.trusted_ca_certificates@),
                files@,
            ) && files_answer(named, parsed) && certificate_list_result(roots)
                == #[trigger] production_roots(
                trust.include_official_tzap_root,
                root,
                production.sha256@,
                certificates_of(named, parsed),
            ),
{
    let root: Result<Vec<u8>, String> = read_certificate(&production.pem);
    let named: Vec<CertificateFile> = read_files(files, &trust.trusted_ca_certificates);
    let list: Result<Vec<Vec<u8>>, TzapError> = load_x509_certificate_files(&named);
    let ghost one = data_view(root);
    let ghost all = certificate_list_result(list);
    let ghost parsed = choose|parsed: Seq<Parsed>|
        files_answer(named@, parsed) && all == #[trigger] certificates_of(named@, parsed);
    let roots: Result<Vec<Vec<u8>>, TzapError> = if !trust.include_official_tzap_root {
        list
    } else {
        match root {
            Err(message) => Err(
                TzapError::X509RootAuth(
                    concat4(
                        "failed to parse embedded TZAP root certificate ",
                        production.sha256.as_str(),
                        ": ",
                        message.as_str(),
                    ),
                ),
            ),
            Ok(first) => match list {
                Err(e) => Err(e),
                Ok(more) => {
                    let ghost head = seq![first@];
                    let mut roots: Vec<Vec<u8>> = Vec::new();
                    roots.push(first);
                    assert(byte_strings(roots@) =~= head);
                    append_all(&mut roots, &more);
                    Ok(roots)
                },
            },
        }
    };
    assert(certificate_list_result(roots) == production_roots(
        trust.include_official_tzap_root,
        one,
        production.sha256@,
        certificates_of(named@, parsed),
    ));
    roots
}

/// What a check of a footer came to.
#[derive(Debug, PartialEq, Eq)]
pub enum FooterOutcome {
    /// The signature and the chain are good.
    Verified {
        /// What the check tells.
        report: RootAuthReport,
        /// Which root vouched for the chain.
        trust_anchor: TzapX509TrustAnchor,
    },
    /// They are not, for this reason.
    Failed(String),
}

/// Whether `outcome` is what a check of a footer comes to: the signature is checked
/// first, the chain is checked under the roots at the time that the signature
/// vouches for, and a good chain is traced to its root.
pub open spec fn checks_footer(
    outcome: FooterOutcome,
    footer: RootAuthFooter,
    archive_root: Seq<u8>,
    trust: TzapX509TrustOptions,
    official: OfficialRoots,
    roots: Seq<Seq<u8>>,
) -> bool {
    exists|signature: Result<SignatureReport, String>| #[trigger]
        signature_answer(footer, archive_root, signature) && match signature {
            Err(message) => outcome matches FooterOutcome::Failed(reason) && reason@ == message@,
            Ok(signed) => checks_chain(
                outcome,
                footer,
                archive_root,
                trust,
                official,
                roots,
                signed.signed_at_unix_seconds,
            ),
        }
}

/// Whether `outcome` is what checking the chain of a footer at a time comes to.
pub open spec fn checks_chain(
    outcome: FooterOutcome,
    footer: RootAuthFooter,
    archive_root: Seq<u8>,
    trust: TzapX509TrustOptions,
    official: OfficialRoots,
    roots: Seq<Seq<u8>>,
    time: i64,
) -> bool {
    exists|chain: Result<RootAuthReport, String>| #[trigger]
        chain_answer(
            footer,
            archive_root,
            roots,
            trust.trusted_system_roots,
            trust.include_official_tzap_root,
            time,
            chain,
        ) && match chain {
            Err(message) => outcome matches FooterOutcome::Failed(reason) && reason == message,
            Ok(found) => outcome matches FooterOutcome::Verified { report, trust_anchor }
                && report == found && classified(
                footer,
                archive_root,
                trust,
                official,
                time,
                trust_anchor,
            ),
        }
}

/// Checks a footer against the given roots at the time that it claims itself, so
/// that an archive does not stop verifying when its certificate expires.
pub fn check_footer(
    footer: &RootAuthFooter,
    archive_root: &[u8; 32],
    trust: &TzapX509TrustOptions,
    official: &OfficialRoots,
    roots: &Vec<Vec<u8>>,
) -> (outcome: FooterOutcome)
    ensures
        match outcome {
            FooterOutcome::Verified { report, trust_anchor } => {
                &&& profile_fault(*footer) is None
                &&& report.signed_at_unix_seconds as int == claimed_time(
                    footer.authenticator_value@,
                )
                &&& !trust.include_official_tzap_root ==> trust_anchor
                    == TzapX509TrustAnchor::Untrusted
            },
            FooterOutcome::Failed(reason) => profile_fault(*footer) matches Some(fault)
                ==> reason@ == fault,
        },
        checks_footer(
            outcome,
            *footer,
            archive_root@,
            *trust,
            *official,
            byte_strings(roots@),
        ),
{
    let signed_at: i64 = match claimed_signing_time(footer, archive_root) {
        Ok(time) => time,
        Err(e) => {
            return FooterOutcome::Failed(e.message());
        },
    };
    match verify_footer_at_time(
        footer,
        archive_root,
        roots,
        trust.trusted_system_roots,
        trust.include_official_tzap_root,
        signed_at,
    ) {
        Ok(report) => {
            let trust_anchor: TzapX509TrustAnchor = classify_x509_trust_anchor(
                footer,
                archive_root,
                trust,
                official,
                signed_at,
            );
            FooterOutcome::Verified { report, trust_anchor }
        },
        Err(message) => FooterOutcome::Failed(message),
    }
}

/// What is known of an archive whose signature was checked.
#[derive(Debug, PartialEq, Eq)]
pub struct RootAuthFacts {
    /// Verified archive root commitment.
    pub archive_root: [u8; 32],
    /// `RootAuth` authenticator identifier.
    pub authenticator_id: u16,
    /// `RootAuth` signer identity type.
    pub signer_identity_type: u16,
    /// Number of data blocks covered by the `RootAuth` footer.
    pub total_data_block_count: u64,
    /// What the check noted.
    pub diagnostics: Vec<String>,
}

/// Details of a verified X.509 signature.
#[derive(Debug, PartialEq, Eq)]
pub struct TzapX509VerificationReport {
    /// Verified archive root commitment.
    pub archive_root: [u8; 32],
    /// `RootAuth` authenticator identifier.
    pub authenticator_id: u16,
    /// `RootAuth` signer identity type.
    pub signer_identity_type: u16,
    /// Number of data blocks covered by the `RootAuth` footer.
    pub total_data_block_count: u64,
    /// Signer-claimed signing time as Unix seconds.
    pub signed_at_unix_seconds: i64,
    /// Leaf certificate subject.
    pub subject: String,
    /// Leaf certificate issuer.
    pub issuer: String,
    /// Leaf certificate serial number.
    pub serial_number_hex: String,
    /// SHA-256 fingerprint of the leaf certificate.
    pub certificate_sha256: [u8; 32],
    /// Subjects in the verified chain.
    pub verified_chain_subjects: Vec<String>,
    /// Trust anchor subject, when OpenSSL reported one.
    pub trust_anchor_subject: Option<String>,
    /// Which trust anchor actually validated the chain. Any anchor other than
    /// the two official roots is `Untrusted` here: the question is production or
    /// staging or neither, not whether the chain is good.
    pub trust_anchor: TzapX509TrustAnchor,
    /// Root-auth verification diagnostics.
    pub diagnostics: Vec<String>,
}

/// Whether a report combines what is known of the archive with what the check of
/// its footer tells.
pub open spec fn combines(
    report: TzapX509VerificationReport,
    facts: RootAuthFacts,
    check: RootAuthReport,
    anchor: TzapX509TrustAnchor,
) -> bool {
    &&& report.archive_root == facts.archive_root
    &&& report.authenticator_id == facts.authenticator_id
    &&& report.signer_identity_type == facts.signer_identity_type
    &&& report.total_data_block_count == facts.total_data_block_count
    &&& report.signed_at_unix_seconds == check.signed_at_unix_seconds
    &&& report.subject@ == check.subject@
    &&& report.issuer@ == check.issuer@
    &&& report.serial_number_hex@ == check.serial_number_hex@
    &&& report.certificate_sha256 == check.certificate_sha256
    &&& texts(report.verified_chain_subjects@) == texts(check.verified_chain_subjects@)
    &&& crate::text::text_option(report.trust_anchor_subject) == crate::text::text_option(
        check.trust_anchor_subject,
    )
    &&& report.trust_anchor == anchor
    &&& texts(report.diagnostics@) == texts(facts.diagnostics@)
}

/// Combines what is known of the archive with what the check of its footer
/// tells.
pub fn x509_report_from_verification(
    facts: RootAuthFacts,
    check: RootAuthReport,
    trust_anchor: TzapX509TrustAnchor,
) -> (report: TzapX509VerificationReport)
    ensures
        combines(report, facts, check, trust_anchor),
{
    TzapX509VerificationReport {
        archive_root: facts.archive_root,
        authenticator_id: facts.authenticator_id,
        signer_identity_type: facts.signer_identity_type,
        total_data_block_count: facts.total_data_block_count,
        signed_at_unix_seconds: check.signed_at_unix_seconds,
        subject: check.subject,
        issuer: check.issuer,
        serial_number_hex: check.serial_number_hex,
        certificate_sha256: check.certificate_sha256,
        verified_chain_subjects: check.verified_chain_subjects,
        trust_anchor_subject: check.trust_anchor_subject,
        trust_anchor,
        diagnostics: facts.diagnostics,
    }
}

/// The error of a signature check that did not come to a good end: the reason
/// that was found in the footer is put behind what the reader says.
pub open spec fn check_fault(source: FormatFaultView, detail: Option<Seq<char>>) -> TzapFault {
    match detail {
        Some(detail) => TzapFault::X509RootAuth(format_message(source) + ": "@ + detail),
        None => TzapFault::Format(source),
    }
}

/// The error of a signature check that did not come to a good end.
pub fn signature_check_error(source: FormatFault, detail: Option<String>) -> (error: TzapError)
    ensures
        error@ == check_fault(source@, crate::text::text_option(detail)),
{
    match detail {
        Some(detail) => TzapError::X509RootAuth(
            concat3(source.message().as_str(), ": ", detail.as_str()),
        ),
        None => TzapError::Format(source),
    }
}

/// The reason that a check of a footer gave, if it failed.
pub open spec fn failure_of(outcome: Option<FooterOutcome>) -> Option<Seq<char>> {
    match outcome {
        Some(FooterOutcome::Failed(reason)) => Some(reason@),
        _ => None,
    }
}

/// Whether `result` is what a signature check comes to: `verification` is what
/// the reader says of the archive, `outcome` what was made of its footer, if the
/// reader got that far, and `missing` the fault of an archive that the reader
/// accepts without its footer having been accepted.
pub open spec fn settles(
    result: Result<TzapX509VerificationReport, TzapError>,
    verification: Result<RootAuthFacts, FormatFault>,
    outcome: Option<FooterOutcome>,
    missing: Seq<char>,
) -> bool {
    match verification {
        Err(source) => result matches Err(e) && e@ == check_fault(source@, failure_of(outcome)),
        Ok(facts) => match outcome {
            Some(FooterOutcome::Verified { report, trust_anchor }) => result matches Ok(r)
                && combines(r, facts, report, trust_anchor),
            _ => result matches Err(e) && e@ == malformed(missing),
        },
    }
}

/// Settles a signature check.
pub fn settle_verification(
    verification: Result<RootAuthFacts, FormatFault>,
    outcome: Option<FooterOutcome>,
    missing: &str,
) -> (result: Result<TzapX509VerificationReport, TzapError>)
    ensures
        settles(result, verification, outcome, missing@),
{
    match verification {
        Err(source) => {
            let detail: Option<String> = match outcome {
                Some(FooterOutcome::Failed(reason)) => Some(reason),
                _ => None,
            };
            Err(signature_check_error(source, detail))
        },
        Ok(facts) => match outcome {
            Some(FooterOutcome::Verified { report, trust_anchor }) => Ok(
                x509_report_from_verification(facts, report, trust_anchor),
            ),
            _ => Err(invalid_archive(missing)),
        },
    }
}

/// Verifies the X.509 signature of an opened archive. `roots` says whether the
/// trusted roots could be loaded, and the rest is what the reader and the check
/// of the footer came to.
pub fn verify_opened_x509_root_auth(
    roots: Result<(), TzapError>,
    verification: Result<RootAuthFacts, FormatFault>,
    outcome: Option<FooterOutcome>,
) -> (result: Result<TzapX509VerificationReport, TzapError>)
    ensures
        match roots {
            Err(e) => result matches Err(r) && r@ == e@,
            Ok(_) => settles(
                result,
                verification,
                outcome,
                "missing X.509 RootAuth verification report"@,
            ),
        },
{
    match roots {
        Err(e) => Err(e),
        Ok(_) => settle_verification(
            verification,
            outcome,
            "missing X.509 RootAuth verification report",
        ),
    }
}

/// What the reader is told of a footer that is no X.509 footer.
pub fn check_public_profile(footer: &RootAuthFooter) -> (r: Result<(), FormatFault>)
    ensures
        r is Ok == (footer.authenticator_id == X509_AUTHENTICATOR_ID),
        r matches Err(fault) ==> fault@ == FormatFaultView::ReaderUnsupported(
            "X.509 trust can only verify X.509 RootAuth"@,
        ),
{
    if footer.authenticator_id != X509_AUTHENTICATOR_ID {
        return Err(
            FormatFault::ReaderUnsupported("X.509 trust can only verify X.509 RootAuth".to_owned()),
        );
    }
    Ok(())
}

/// Verifies the X.509 signature of an archive without its key. `opened` says
/// whether the volumes could be opened and `roots` whether the trusted roots
/// could be loaded; the rest is what the reader and the check of the footer came
/// to.
pub fn verify_tzap_x509_public_no_key(
    trust: &TzapX509TrustOptions,
    opened: Result<(), TzapError>,
    roots: Result<(), TzapError>,
    verification: Result<RootAuthFacts, FormatFault>,
    outcome: Option<FooterOutcome>,
) -> (result: Result<TzapX509VerificationReport, TzapError>)
    ensures
        if !trust.has_source() {
            result matches Err(e) && e@ == TzapFault::X509RootAuth(
                "X.509 verification requires trusted roots"@,
            )
        } else if opened is Err {
            result matches Err(e) && e@ == (opened->Err_0)@
        } else if roots is Err {
            result matches Err(e) && e@ == (roots->Err_0)@
        } else {
            settles(
                result,
                verification,
                outcome,
                "missing X.509 public no-key verification report"@,
            )
        },
{
    if !trust.has_trust_source() {
        return Err(root_auth_error("X.509 verification requires trusted roots"));
    }
    match opened {
        Err(e) => {
            return Err(e);
        },
        Ok(_) => {},
    }
    match roots {
        Err(e) => {
            return Err(e);
        },
        Ok(_) => {},
    }
    settle_verification(verification, outcome, "missing X.509 public no-key verification report")
}

/// One part of a certificate name.
pub struct NamePart {
    /// The short name of the attribute, if it has one.
    pub key: Option<String>,
    /// Its value as text, if it is text.
    pub text: Option<String>,
    /// Its value as it is stored.
    pub raw: Vec<u8>,
}

/// How one part of a certificate name is shown.
pub open spec fn part_text(part: NamePart) -> Seq<char> {
    (match part.key {
        Some(key) => key@,
        None => "OID"@,
    }) + "="@ + (match part.text {
        Some(text) => text@,
        None => hex(part.raw@),
    })
}

/// How a certificate name is shown: its parts in order, with commas between.
pub open spec fn name_text(parts: Seq<NamePart>) -> Seq<char>
    decreases parts.len(),
{
    if parts.len() == 0 {
        Seq::empty()
    } else if parts.len() == 1 {
        part_text(parts[0])
    } else {
        name_text(parts.drop_last()) + ", "@ + part_text(parts.last())
    }
}

fn show_part(part: &NamePart) -> (text: String)
    ensures
        text@ == part_text(*part),
{
    let value: String = match &part.text {
        Some(text) => text.clone(),
        None => hex_text(part.raw.as_slice()),
    };
    match &part.key {
        Some(key) => concat3(key.as_str(), "=", value.as_str()),
        None => concat3("OID", "=", value.as_str()),
    }
}

/// How a certificate name is shown.
pub fn x509_name_to_string(parts: &Vec<NamePart>) -> (text: String)
    ensures
        text@ == name_text(parts@),
{
    let mut text: String = String::new();
    let mut i: usize = 0;
    while i < parts.len()
        invariant
            i <= parts@.len(),
            text@ == name_text(parts@.take(i as int)),
        decreases parts@.len() - i,
    {
        let shown: String = show_part(&parts[i]);
        assert(parts@.take(i + 1).drop_last() =~= parts@.take(i as int));
        if i == 0 {
            text = shown;
        } else {
            text = concat3(text.as_str(), ", ", shown.as_str());
        }
        i = i + 1;
    }
    assert(parts@.take(parts@.len() as int) =~= parts@);
    text
}

/// What a certificate shows of its holder.
pub struct CertificateDisplay {
    pub subject: Vec<NamePart>,
    pub issuer: Vec<NamePart>,
    pub serial: Result<String, String>,
}

/// Whether OpenSSL can show this of a certificate.
pub uninterp spec fn display_answer(
    der: Seq<u8>,
    display: Result<CertificateDisplay, String>,
) -> bool;

/// Calls `openssl::x509::X509::from_der` and reads the names and the serial
/// number of the certificate. Claimed: the result answers for this certificate.
/// What is accepted is for OpenSSL to say and is not stated.
#[verifier::external_body]
pub(crate) fn certificate_display(der: &Vec<u8>) -> (display: Result<CertificateDisplay, String>)
    ensures
        display_answer(der@, display),
{
    let certificate = openssl::x509::X509::from_der(der).map_err(|e| e.to_string())?;
    let parts = |name: &openssl::x509::X509NameRef| name.entries().map(|entry| NamePart {
        key: entry.object().nid().short_name().ok().map(str::to_owned),
        text: entry.data().to_string().ok(),
        raw: entry.data().as_slice().to_vec(),
    }).collect();
    let serial = certificate.serial_number().to_bn().and_then(|serial| serial.to_hex_str());
    Ok(CertificateDisplay {
        subject: parts(certificate.subject_name()),
        issuer: parts(certificate.issuer_name()),
        serial: serial.map(|text| text.to_string()).map_err(|e| e.to_string()),
    })
}

/// Details of an X.509 signer, whom nobody has vouched for.
#[derive(Debug, PartialEq, Eq)]
pub struct TzapX509SignerInspection {
    /// Verified archive root commitment.
    pub archive_root: [u8; 32],
    /// `RootAuth` authenticator identifier.
    pub authenticator_id: u16,
    /// `RootAuth` signer identity type.
    pub signer_identity_type: u16,
    /// Number of data blocks covered by the `RootAuth` footer.
    pub total_data_block_count: u64,
    /// Signer-claimed signing time as Unix seconds.
    pub signed_at_unix_seconds: i64,
    /// Leaf certificate subject.
    pub subject: String,
    /// Leaf certificate issuer.
    pub issuer: String,
    /// Leaf certificate serial number.
    pub serial_number_hex: String,
    /// SHA-256 fingerprint of the leaf certificate.
    pub certificate_sha256: [u8; 32],
    /// Root-auth inspection diagnostics.
    pub diagnostics: Vec<String>,
}

/// Whether an inspection shows the signer of a footer.
pub open spec fn shows(
    inspection: TzapX509SignerInspection,
    footer: RootAuthFooter,
    archive_root: [u8; 32],
    signed_at: i64,
    certificate_sha256: Seq<u8>,
    display: CertificateDisplay,
) -> bool {
    &&& inspection.archive_root == archive_root
    &&& inspection.authenticator_id == footer.authenticator_id
    &&& inspection.signer_identity_type == footer.signer_identity_type
    &&& inspection.total_data_block_count == footer.total_data_block_count
    &&& inspection.signed_at_unix_seconds == signed_at
    &&& inspection.subject@ == name_text(display.subject@)
    &&& inspection.issuer@ == name_text(display.issuer@)
    &&& display.serial matches Ok(serial) && inspection.serial_number_hex@ == serial@
    &&& inspection.certificate_sha256@ == certificate_sha256
    &&& inspection.diagnostics@.len() == 0
}

/// Whether `result` is what an inspection of a footer comes to, given the check
/// of its signature and what the certificate shows.
pub open spec fn inspects(
    result: Result<TzapX509SignerInspection, TzapError>,
    footer: RootAuthFooter,
    archive_root: [u8; 32],
    report: Result<SignatureReport, String>,
    display: Result<CertificateDisplay, String>,
) -> bool {
    match (report, display) {
        (Err(message), _) => result matches Err(e) && e@ == TzapFault::X509RootAuth(message@),
        (Ok(_), Err(message)) => result matches Err(e) && e@ == TzapFault::X509RootAuth(message@),
        (Ok(report), Ok(display)) => match display.serial {
            Err(message) => result matches Err(e) && e@ == TzapFault::X509RootAuth(message@),
            Ok(_) => result matches Ok(inspection) && shows(
                inspection,
                footer,
                archive_root,
                report.signed_at_unix_seconds,
                report.certificate_sha256@,
                display,
            ),
        },
    }
}

fn show_signer(
    footer: &RootAuthFooter,
    archive_root: &[u8; 32],
    signed_at_unix_seconds: i64,
    certificate_sha256: [u8; 32],
    display: &CertificateDisplay,
) -> (result: Result<TzapX509SignerInspection, TzapError>)
    ensures
        match display.serial {
            Err(message) => result matches Err(e) && e@ == TzapFault::X509RootAuth(message@),
            Ok(_) => result matches Ok(inspection) && shows(
                inspection,
                *footer,
                *archive_root,
                signed_at_unix_seconds,
                certificate_sha256@,
                *display,
            ),
        },
{
    let serial_number_hex: String = match &display.serial {
        Ok(serial) => serial.clone(),
        Err(message) => {
            return Err(root_auth_error(message.as_str()));
        },
    };
    Ok(
        TzapX509SignerInspection {
            archive_root: *archive_root,
            authenticator_id: footer.authenticator_id,
            signer_identity_type: footer.signer_identity_type,
            total_data_block_count: footer.total_data_block_count,
            signed_at_unix_seconds,
            subject: x509_name_to_string(&display.subject),
            issuer: x509_name_to_string(&display.issuer),
            serial_number_hex,
            certificate_sha256,
            diagnostics: Vec::new(),
        },
    )
}

/// Shows the signer of a footer, given the check of its signature and what the
/// certificate shows.
pub fn settle_inspection(
    footer: &RootAuthFooter,
    archive_root: &[u8; 32],
    report: &Result<SignatureReport, String>,
    display: &Result<CertificateDisplay, String>,
) -> (result: Result<TzapX509SignerInspection, TzapError>)
    ensures
        inspects(result, *footer, *archive_root, *report, *display),
{
    match report {
        Err(message) => Err(root_auth_error(message.as_str())),
        Ok(report) => match display {
            Err(message) => Err(root_auth_error(message.as_str())),
            Ok(display) => show_signer(
                footer,
                archive_root,
                report.signed_at_unix_seconds,
                report.certificate_sha256,
                display,
            ),
        },
    }
}

/// Whether `result` is what showing the signer of a footer can come to.
pub open spec fn inspects_footer(
    result: Result<TzapX509SignerInspection, TzapError>,
    footer: RootAuthFooter,
    archive_root: [u8; 32],
) -> bool {
    exists|report: Result<SignatureReport, String>, display: Result<CertificateDisplay, String>|
        plausible(footer, report, |r: SignatureReport| r.signed_at_unix_seconds)
            && signature_answer(footer, archive_root@, report) && display_answer(
            footer.signer_identity_bytes@,
            display,
        ) && #[trigger] inspects(result, footer, archive_root, report, display)
}

/// Shows the signer of a footer whose signature is good. Nobody has to vouch for
/// the certificate.
pub fn inspect_x509_root_auth_footer(footer: &RootAuthFooter, archive_root: &[u8; 32]) -> (result:
    Result<TzapX509SignerInspection, TzapError>)
    ensures
        inspects_footer(result, *footer, *archive_root),
{
    let report: Result<SignatureReport, String> = check_root_auth_signature(footer, archive_root);
    let display: Result<CertificateDisplay, String> = certificate_display(
        &footer.signer_identity_bytes,
    );
    let result: Result<TzapX509SignerInspection, TzapError> = settle_inspection(
        footer,
        archive_root,
        &report,
        &display,
    );
    assert(inspects(result, *footer, *archive_root, report, display));
    result
}

/// What `tzap_plugin_signing::x509_chain::signing_input` digests.
pub uninterp spec fn signing_digest(
    archive_uuid: Seq<u8>,
    session_id: Seq<u8>,
    archive_root: Seq<u8>,
    signed_at: i64,
    chain_digest: Seq<u8>,
) -> Seq<u8>;

/// Calls `tzap_plugin_signing::x509_chain::signing_input`, which makes one
/// SHA-512 digest of its arguments in order.
#[verifier::external_body]
pub(crate) fn signing_input(
    archive_uuid: &[u8; 16],
    session_id: &[u8; 16],
    archive_root: &[u8; 32],
    signed_at: i64,
    chain_digest: &[u8; 32],
) -> (digest: [u8; 64])
    ensures
        digest@ == signing_digest(
            archive_uuid@,
            session_id@,
            archive_root@,
            signed_at,
            chain_digest@,
        ),
{
    tzap_plugin_signing::x509_chain::signing_input(archive_uuid, session_id, archive_root, signed_at, chain_digest)
}

/// Whether `openssl::sign::Verifier::verify` can say this of a signature of a
/// message by the holder of a certificate.
pub uninterp spec fn verifier_answer(
    certificate: Seq<u8>,
    message: Seq<u8>,
    signature: Seq<u8>,
    good: Result<bool, String>,
) -> bool;

/// Calls `openssl::sign::Verifier::verify` for SHA-256 with the key of a
/// certificate. Claimed: the result answers for these arguments. Whether the
/// signature is good is for OpenSSL to say and is not stated.
#[verifier::external_body]
pub(crate) fn verify_sha256_signature(
    certificate: &Vec<u8>,
    message: &[u8; 64],
    signature: &Vec<u8>,
) -> (good: Result<bool, String>)
    ensures
        verifier_answer(certificate@, message@, signature@, good),
{
    let certificate = openssl::x509::X509::from_der(certificate).map_err(|e| e.to_string())?;
    let key = certificate.public_key().map_err(|e| e.to_string())?;
    let digest = openssl::hash::MessageDigest::sha256();
    let mut verifier = openssl::sign::Verifier::new(digest, &key).map_err(|e| e.to_string())?;
    verifier.update(message).map_err(|e| e.to_string())?;
    verifier.verify(signature).map_err(|e| e.to_string())
}

/// Whether `openssl::x509::X509Ref::digest` can give this fingerprint of a
/// certificate.
pub uninterp spec fn fingerprint_answer(
    certificate: Seq<u8>,
    digest: Result<[u8; 32], String>,
) -> bool;

/// Calls `openssl::x509::X509Ref::digest` for the SHA-256 fingerprint of a
/// certificate, which has thirty-two bytes. Claimed: the result answers for this
/// certificate. What is accepted as one is for OpenSSL to say and is not stated.
#[verifier::external_body]
pub(crate) fn certificate_fingerprint(certificate: &Vec<u8>) -> (digest: Result<[u8; 32], String>)
    ensures
        fingerprint_answer(certificate@, digest),
{
    let certificate = openssl::x509::X509::from_der(certificate).map_err(|e| e.to_string())?;
    let digest = certificate.digest(openssl::hash::MessageDigest::sha256()).map_err(|e| e.to_string())?;
    <[u8; 32]>::try_from(&*digest).map_err(|e| e.to_string())
}

/// What OpenSSL says of the certificate and the signature of a footer.
pub struct LeafCheck {
    /// What the certificate shows, or why it cannot be read.
    pub display: Result<CertificateDisplay, String>,
    /// Whether the signature is good, or why it could not be checked.
    pub good: Result<bool, String>,
    /// The fingerprint of the certificate, or why there is none.
    pub fingerprint: Result<[u8; 32], String>,
}

/// Whether `check` is what OpenSSL says of the certificate of a footer and of the
/// signature that its envelope holds, over the archive, the claimed time and the
/// digest of the chain.
pub open spec fn leaf_answer(
    footer: RootAuthFooter,
    archive_root: [u8; 32],
    check: LeafCheck,
) -> bool {
    let certificate = footer.signer_identity_bytes@;
    &&& display_answer(certificate, check.display)
    &&& fingerprint_answer(certificate, check.fingerprint)
    &&& authenticator(footer.authenticator_value@) matches Ok(parts) ==> verifier_answer(
        certificate,
        signing_digest(
            footer.archive_uuid@,
            footer.session_id@,
            archive_root@,
            parts.signed_at as i64,
            parts.chain_digest,
        ),
        parts.signature,
        check.good,
    )
}

/// Whether `result` is what an inspection by the parts of the envelope comes to.
/// The first thing that is wrong decides.
pub open spec fn inspects_parts(
    result: Result<TzapX509SignerInspection, TzapError>,
    footer: RootAuthFooter,
    archive_root: [u8; 32],
    check: LeafCheck,
) -> bool {
    let parts = authenticator(footer.authenticator_value@);
    let fault = if profile_fault(footer) is Some {
        profile_fault(footer)
    } else if check.display is Err {
        Some((check.display->Err_0)@)
    } else if parts is Err {
        Some(parts->Err_0)
    } else if check.good is Err {
        Some((check.good->Err_0)@)
    } else if !check.good->Ok_0 {
        Some("X.509 RootAuth signature failed"@)
    } else if check.fingerprint is Err {
        Some((check.fingerprint->Err_0)@)
    } else if (check.display->Ok_0).serial is Err {
        Some(((check.display->Ok_0).serial->Err_0)@)
    } else {
        None
    };
    match fault {
        Some(reason) => result matches Err(e) && e@ == TzapFault::X509RootAuth(reason),
        None => result matches Ok(inspection) && inspection.signed_at_unix_seconds as int == (
        parts->Ok_0).signed_at && shows(
            inspection,
            footer,
            archive_root,
            inspection.signed_at_unix_seconds,
            (check.fingerprint->Ok_0)@,
            check.display->Ok_0,
        ),
    }
}

fn check_profile(footer: &RootAuthFooter) -> (r: Result<(), TzapError>)
    ensures
        match r {
            Ok(_) => profile_fault(*footer) is None,
            Err(e) => profile_fault(*footer) is Some && e@ == TzapFault::X509RootAuth(
                profile_fault(*footer)->0,
            ),
        },
{
    if footer.authenticator_id != X509_AUTHENTICATOR_ID {
        return Err(root_auth_error("unsupported authenticator id"));
    }
    if footer.signer_identity_type != X509_SIGNER_IDENTITY_TYPE_DER_CERT {
        return Err(root_auth_error("unsupported signer identity type"));
    }
    Ok(())
}

/// Shows the signer of a footer by the parts of its envelope, given what OpenSSL
/// says of the certificate and the signature.
pub fn settle_parts_inspection(
    footer: &RootAuthFooter,
    archive_root: &[u8; 32],
    check: &LeafCheck,
) -> (result: Result<TzapX509SignerInspection, TzapError>)
    ensures
        inspects_parts(result, *footer, *archive_root, *check),
{
    match check_profile(footer) {
        Ok(_) => {},
        Err(e) => {
            return Err(e);
        },
    }
    let display: &CertificateDisplay = match &check.display {
        Ok(display) => display,
        Err(message) => {
            return Err(root_auth_error(message.as_str()));
        },
    };
    let parts: X509AuthenticatorInspection = match parse_x509_authenticator_for_inspection(
        footer.authenticator_value.as_slice(),
    ) {
        Ok(parts) => parts,
        Err(e) => {
            return Err(e);
        },
    };
    match &check.good {
        Ok(good) => {
            if !*good {
                return Err(root_auth_error("X.509 RootAuth signature failed"));
            }
        },
        Err(message) => {
            return Err(root_auth_error(message.as_str()));
        },
    }
    let fingerprint: [u8; 32] = match &check.fingerprint {
        Ok(fingerprint) => *fingerprint,
        Err(message) => {
            return Err(root_auth_error(message.as_str()));
        },
    };
    show_signer(footer, archive_root, parts.signed_at_unix_seconds, fingerprint, display)
}

/// Shows the signer of a footer by the parts of its envelope: the signature over
/// the archive, the claimed time and the digest of the chain has to be good.
pub fn inspect_x509_root_auth_parts(footer: &RootAuthFooter, archive_root: &[u8; 32]) -> (result:
    Result<TzapX509SignerInspection, TzapError>)
    ensures
        exists|check: LeafCheck|
            leaf_answer(*footer, *archive_root, check) && #[trigger] inspects_parts(
                result,
                *footer,
                *archive_root,
                check,
            ),
{
    let good: Result<bool, String> = match parse_x509_authenticator_for_inspection(
        footer.authenticator_value.as_slice(),
    ) {
        Ok(parts) => {
            let message: [u8; 64] = signing_input(
                &footer.archive_uuid,
                &footer.session_id,
                archive_root,
                parts.signed_at_unix_seconds,
                &parts.chain_digest,
            );
            verify_sha256_signature(&footer.signer_identity_bytes, &message, &parts.signature)
        },
        Err(_) => Ok(false),
    };
    let check = LeafCheck {
        display: certificate_display(&footer.signer_identity_bytes),
        good,
        fingerprint: certificate_fingerprint(&footer.signer_identity_bytes),
    };
    let result: Result<TzapX509SignerInspection, TzapError> = settle_parts_inspection(
        footer,
        archive_root,
        &check,
    );
    assert(inspects_parts(result, *footer, *archive_root, check));
    result
}

/// Whether `result` is the inspection of an archive: `verification` is what the
/// reader says of it, with its notes, `inspection` what was made of its footer, if
/// the reader got that far, and `missing` the fault of an archive that the reader
/// accepts without its footer having been shown.
pub open spec fn settles_signer(
    result: Result<TzapX509SignerInspection, TzapError>,
    verification: Result<Vec<String>, FormatFault>,
    inspection: Option<Result<TzapX509SignerInspection, TzapError>>,
    missing: Seq<char>,
) -> bool {
    match (verification, inspection) {
        (Err(source), Some(Err(e))) => result matches Err(r) && r@ == check_fault(
            source@,
            Some(crate::tzap::error::tzap_message(e@)),
        ),
        (Err(source), _) => result matches Err(r) && r@ == check_fault(source@, None),
        (Ok(notes), Some(Ok(shown))) => result matches Ok(r) && same_signer(r, shown)
            && r.diagnostics == notes,
        (Ok(_), _) => result matches Err(r) && r@ == malformed(missing),
    }
}

/// Whether two inspections show the same signer of the same archive.
pub open spec fn same_signer(a: TzapX509SignerInspection, b: TzapX509SignerInspection) -> bool {
    &&& a.archive_root == b.archive_root
    &&& a.authenticator_id == b.authenticator_id
    &&& a.signer_identity_type == b.signer_identity_type
    &&& a.total_data_block_count == b.total_data_block_count
    &&& a.signed_at_unix_seconds == b.signed_at_unix_seconds
    &&& a.subject == b.subject
    &&& a.issuer == b.issuer
    &&& a.serial_number_hex == b.serial_number_hex
    &&& a.certificate_sha256 == b.certificate_sha256
}

/// Settles the inspection of an archive.
pub fn settle_signer(
    verification: Result<Vec<String>, FormatFault>,
    inspection: Option<Result<TzapX509SignerInspection, TzapError>>,
    missing: &str,
) -> (result: Result<TzapX509SignerInspection, TzapError>)
    ensures
        settles_signer(result, verification, inspection, missing@),
{
    match verification {
        Err(source) => {
            let detail: Option<String> = match &inspection {
                Some(Err(e)) => Some(e.message()),
                _ => None,
            };
            Err(signature_check_error(source, detail))
        },
        Ok(notes) => match inspection {
            Some(Ok(shown)) => Ok(
                TzapX509SignerInspection {
                    archive_root: shown.archive_root,
                    authenticator_id: shown.authenticator_id,
                    signer_identity_type: shown.signer_identity_type,
                    total_data_block_count: shown.total_data_block_count,
                    signed_at_unix_seconds: shown.signed_at_unix_seconds,
                    subject: shown.subject,
                    issuer: shown.issuer,
                    serial_number_hex: shown.serial_number_hex,
                    certificate_sha256: shown.certificate_sha256,
                    diagnostics: notes,
                },
            ),
            _ => Err(invalid_archive(missing)),
        },
    }
}

/// Inspects the X.509 signer of an archive without asking anybody to vouch for
/// the certificate. The archive is opened with an optional passphrase.
pub fn inspect_tzap_x509_signer(
    input: &ArchiveInput,
    password: Option<&str>,
    verification: Result<Vec<String>, FormatFault>,
    inspection: Option<Result<TzapX509SignerInspection, TzapError>>,
) -> (result: Result<TzapX509SignerInspection, TzapError>)
    requires
        input.is_complete(),
    ensures
        match input.opened_with(password_view(password), false, false) {
            Err(fault) => result matches Err(r) && r@ == fault,
            Ok(_) => settles_signer(
                result,
                verification,
                inspection,
                "missing X.509 signer inspection report"@,
            ),
        },
{
    match input.open_with(password, false, false) {
        Err(e) => Err(e),
        Ok(_) => settle_signer(verification, inspection, "missing X.509 signer inspection report"),
    }
}

/// Inspects the X.509 signer of an archive without its key. `opened` says
/// whether the volumes could be opened.
pub fn inspect_tzap_x509_public_no_key_signer(
    opened: Result<(), TzapError>,
    verification: Result<Vec<String>, FormatFault>,
    inspection: Option<Result<TzapX509SignerInspection, TzapError>>,
) -> (result: Result<TzapX509SignerInspection, TzapError>)
    ensures
        match opened {
            Err(e) => result matches Err(r) && r@ == e@,
            Ok(_) => settles_signer(
                result,
                verification,
                inspection,
                "missing X.509 public no-key signer inspection report"@,
            ),
        },
{
    match opened {
        Err(e) => Err(e),
        Ok(_) => settle_signer(
            verification,
            inspection,
            "missing X.509 public no-key signer inspection report",
        ),
    }
}

/// Whether the signature of an opened archive has to be checked: where roots were
/// named, or where there is an X.509 signature.
pub fn should_verify_opened_x509_root_auth(
    authenticator_id: Option<u16>,
    trust: &TzapX509TrustOptions,
) -> (r: bool)
    ensures
        r == (trust.trusted_ca_certificates@.len() > 0 || trust.trusted_system_roots
            || authenticator_id == Some(X509_AUTHENTICATOR_ID)),
{
    let explicit: bool = trust.trusted_ca_certificates.len() > 0 || trust.trusted_system_roots;
    let signed: bool = match authenticator_id {
        Some(id) => id == X509_AUTHENTICATOR_ID,
        None => false,
    };
    explicit || signed
}

/// A clock reading as a signed number.
pub fn unix_seconds_i64(seconds: u64) -> (r: Result<i64, TzapError>)
    ensures
        match r {
            Ok(n) => n == seconds,
            Err(e) => seconds > i64::MAX && e@ == TzapFault::X509RootAuth(
                "current Unix time exceeds i64"@,
            ),
        },
{
    if seconds > i64::MAX as u64 {
        return Err(root_auth_error("current Unix time exceeds i64"));
    }
    Ok(seconds as i64)
}

/// What the clock says, or why it says nothing: the seconds since 1970, which it may not
/// be able to count.
pub type ClockReading = Result<u64, String>;

/// What the clock says as a signed number.
pub open spec fn clock_time(clock: ClockReading) -> Result<i64, TzapFault> {
    match clock {
        Err(message) => Err(TzapFault::X509RootAuth(message@)),
        Ok(seconds) => if seconds > i64::MAX {
            Err(TzapFault::X509RootAuth("current Unix time exceeds i64"@))
        } else {
            Ok(seconds as i64)
        },
    }
}

/// What the clock says as a signed number.
pub fn current_unix_seconds_i64(clock: &ClockReading) -> (time: Result<i64, TzapError>)
    ensures
        match time {
            Ok(time) => clock_time(*clock) == Ok::<i64, TzapFault>(time),
            Err(e) => clock_time(*clock) == Err::<i64, TzapFault>(e@),
        },
{
    match clock {
        Ok(seconds) => unix_seconds_i64(*seconds),
        Err(message) => Err(root_auth_error(message.as_str())),
    }
}

/// A footer is found good only where its signature was found good, and its chain at
/// the time that the signature vouches for, under the given roots. So an archive
/// does not stop verifying when its certificate expires.
pub proof fn law_chain_is_checked_at_signing_time(
    outcome: FooterOutcome,
    footer: RootAuthFooter,
    archive_root: Seq<u8>,
    trust: TzapX509TrustOptions,
    official: OfficialRoots,
    roots: Seq<Seq<u8>>,
)
    requires
        checks_footer(outcome, footer, archive_root, trust, official, roots),
        outcome is Verified,
    ensures
        exists|signed: SignatureReport, report: RootAuthReport|
            signature_answer(footer, archive_root, Ok(signed)) && #[trigger] chain_answer(
                footer,
                archive_root,
                roots,
                trust.trusted_system_roots,
                trust.include_official_tzap_root,
                signed.signed_at_unix_seconds,
                Ok(report),
            ) && outcome->report == report,
{
    let signature = choose|signature: Result<SignatureReport, String>| #[trigger]
        signature_answer(footer, archive_root, signature) && match signature {
            Err(message) => outcome matches FooterOutcome::Failed(reason) && reason@ == message@,
            Ok(signed) => checks_chain(
                outcome,
                footer,
                archive_root,
                trust,
                official,
                roots,
                signed.signed_at_unix_seconds,
            ),
        };
    let signed = signature->Ok_0;
    assert(chain_answer(
        footer,
        archive_root,
        roots,
        trust.trusted_system_roots,
        trust.include_official_tzap_root,
        signed.signed_at_unix_seconds,
        Ok(outcome->report),
    ));
}

/// A signature is reported as verified only where the reader accepts the archive
/// and the check of its footer succeeded.
pub proof fn law_verified_means_checked(
    result: Result<TzapX509VerificationReport, TzapError>,
    verification: Result<RootAuthFacts, FormatFault>,
    outcome: Option<FooterOutcome>,
    missing: Seq<char>,
)
    requires
        settles(result, verification, outcome, missing),
    ensures
        result is Ok <==> verification is Ok && (outcome matches Some(o) && o is Verified),
{
}

/// A signature is judged only where the footer says that it is one by X.509 with the
/// certificate of the signer.
pub proof fn law_only_certificates_sign(footer: RootAuthFooter)
    ensures
        profile_fault(footer) is None <==> footer.authenticator_id == 3
            && footer.signer_identity_type == 2,
{
}

/// A signature is trusted as one of production where its chain leads to the production
/// root, and as one of staging only where it does not.
pub proof fn law_production_comes_before_staging(production: bool, staging: bool)
    ensures
        anchor_of(production, staging) is ProductionRoot <==> production,
        anchor_of(production, staging) is StagingRoot <==> !production && staging,
        anchor_of(production, staging) is Untrusted <==> !production && !staging,
{
}

proof fn lemma_file_with_path(files: Seq<CertificateFile>, path: Seq<char>)
    ensures
        match file_with_path(files, path) {
            Some(at) => 0 <= at < files.len() && files[at].path@ == path && forall|k: int|
                at < k < files.len() ==> (#[trigger] files[k]).path@ != path,
            None => forall|k: int| 0 <= k < files.len() ==> (#[trigger] files[k]).path@ != path,
        },
    decreases files.len(),
{
    if files.len() > 0 {
        lemma_file_with_path(files.drop_last(), path);
        assert forall|k: int| 0 <= k < files.len() - 1 implies #[trigger] files[k]
            == files.drop_last()[k] by {}
    }
}

/// What is read for a path is what was read of the file with that path; a path of which no
/// file was read is not found.
pub proof fn law_files_are_read_by_their_path(files: Seq<CertificateFile>, at: int)
    requires
        0 <= at < files.len(),
        forall|k: int| at < k < files.len() ==> (#[trigger] files[k]).path@ != files[at].path@,
    ensures
        read_result(files, files[at].path@) == data_view(files[at].bytes),
        forall|path: Seq<char>|
            (forall|k: int| 0 <= k < files.len() ==> (#[trigger] files[k]).path@ != path) ==> (
            #[trigger] read_result(files, path) matches Err(failure) && failure.kind
                == IoKind::NotFound),
{
    lemma_file_with_path(files, files[at].path@);
    let found = file_with_path(files, files[at].path@);
    if found is Some {
        if found->0 > at {
            assert(files[found->0].path@ != files[at].path@);
        } else if found->0 < at {
            assert(files[at].path@ != files[at].path@);
        }
    } else {
        assert(files[at].path@ != files[at].path@);
    }
    assert forall|path: Seq<char>|
        (forall|k: int| 0 <= k < files.len() ==> (#[trigger] files[k]).path@ != path) implies (
    #[trigger] read_result(files, path) matches Err(failure) && failure.kind == IoKind::NotFound) by {
        lemma_file_with_path(files, path);
    }
}

/// The certificates of several files are those of each file, in order; a file that could
/// not be read or parsed fails the whole.
pub proof fn law_certificates_come_file_by_file(files: Seq<CertificateFile>, parsed: Seq<Parsed>)
    requires
        files.len() > 0,
        parsed.len() == files.len(),
    ensures
        ({
            let before = certificates_of(files.drop_last(), parsed);
            let result = certificates_of(files, parsed);
            &&& before is Err ==> result == before
            &&& before matches Ok(list) ==> match (files.last().bytes, parsed.last()) {
                (Err(failure), _) => result == Err::<Seq<Seq<u8>>, TzapFault>(
                    TzapFault::Io { path: files.last().path@, source: failure@ },
                ),
                (Ok(_), Err(message)) => result == Err::<Seq<Seq<u8>>, TzapFault>(
                    TzapFault::X509RootAuth(message),
                ),
                (Ok(_), Ok(more)) => result matches Ok(all) && all.len() == list.len() + more.len()
                    && all.take(list.len() as int) == list && all.skip(list.len() as int) == more,
            }
        }),
{
    if let Ok(list) = certificates_of(files.drop_last(), parsed) {
        if let Ok(more) = parsed.last() {
            assert((list + more).take(list.len() as int) =~= list);
            assert((list + more).skip(list.len() as int) =~= more);
        }
    }
}

/// Both official roots are trusted where they are asked for, before the roots of the
/// files, and neither where they are not.
pub proof fn law_official_roots_are_trusted_where_asked_for(
    include_official: bool,
    production: Seq<u8>,
    production_sha256: Seq<char>,
    staging: Seq<u8>,
    staging_sha256: Seq<char>,
    files: Seq<Seq<u8>>,
)
    ensures
        trusted_roots(
            include_official,
            Ok(production),
            production_sha256,
            Ok(staging),
            staging_sha256,
            Ok(files),
        ) matches Ok(roots) && if include_official {
            roots.len() == files.len() + 2 && roots[0] == production && roots[1] == staging
                && roots.skip(2) == files
        } else {
            roots == files
        },
        production_roots(include_official, Ok(production), production_sha256, Ok(files)) matches Ok(
            roots,
        ) && if include_official {
            roots.len() == files.len() + 1 && roots[0] == production && roots.skip(1) == files
        } else {
            roots == files
        },
{
    assert((seq![production, staging] + files).skip(2) =~= files);
    assert((seq![production] + files).skip(1) =~= files);
}

/// The name of a signer is its parts one after the other, with a comma and a space between
/// each two; a part is its key, an equals sign and its value.
pub proof fn law_names_are_their_parts(upper: Seq<NamePart>, lower: Seq<NamePart>)
    ensures
        upper.len() == 1 ==> name_text(upper) == (if upper[0].key is Some {
            upper[0].key->0@
        } else {
            "OID"@
        }) + "="@ + (if upper[0].text is Some {
            upper[0].text->0@
        } else {
            hex(upper[0].raw@)
        }),
        upper.len() > 0 && lower.len() > 0 ==> name_text(upper + lower) == name_text(upper)
            + ", "@ + name_text(lower),
    decreases lower.len(),
{
    if upper.len() > 0 && lower.len() > 0 {
        assert((upper + lower).drop_last() =~= upper + lower.drop_last());
        if lower.len() == 1 {
            assert(upper + lower.drop_last() =~= upper);
        } else {
            law_names_are_their_parts(upper, lower.drop_last());
            assert(name_text(upper + lower) =~= name_text(upper) + ", "@ + name_text(lower));
        }
    }
}

/// A report of a verified signature tells what was checked: the root and the counts of the
/// archive, and the signer, the time and the chain of the certificate.
pub proof fn law_reports_tell_what_was_checked(
    result: Result<TzapX509VerificationReport, TzapError>,
    facts: RootAuthFacts,
    check: RootAuthReport,
    anchor: TzapX509TrustAnchor,
    missing: Seq<char>,
)
    requires
        settles(
            result,
            Ok(facts),
            Some(FooterOutcome::Verified { report: check, trust_anchor: anchor }),
            missing,
        ),
    ensures
        result matches Ok(report) && {
            &&& report.archive_root == facts.archive_root
            &&& report.authenticator_id == facts.authenticator_id
            &&& report.signer_identity_type == facts.signer_identity_type
            &&& report.total_data_block_count == facts.total_data_block_count
            &&& report.signed_at_unix_seconds == check.signed_at_unix_seconds
            &&& report.subject@ == check.subject@
            &&& report.issuer@ == check.issuer@
            &&& report.serial_number_hex@ == check.serial_number_hex@
            &&& report.certificate_sha256 == check.certificate_sha256
            &&& texts(report.verified_chain_subjects@) == texts(check.verified_chain_subjects@)
            &&& report.trust_anchor == anchor
            &&& texts(report.diagnostics@) == texts(facts.diagnostics@)
        },
{
}

/// A signer is shown only where the profile is that of X.509, the envelope is well formed
/// and the key of the certificate made the signature; what is shown is of that
/// certificate, of that footer and of the time in the envelope.
pub proof fn law_signers_are_shown_only_when_they_signed(
    result: Result<TzapX509SignerInspection, TzapError>,
    footer: RootAuthFooter,
    archive_root: [u8; 32],
    check: LeafCheck,
)
    requires
        inspects_parts(result, footer, archive_root, check),
    ensures
        result is Ok ==> {
            &&& footer.authenticator_id == 3
            &&& footer.signer_identity_type == 2
            &&& check.good == Ok::<bool, String>(true)
            &&& check.fingerprint is Ok
            &&& check.display is Ok
            &&& authenticator(footer.authenticator_value@) is Ok
            &&& result->Ok_0.signed_at_unix_seconds == (authenticator(
                footer.authenticator_value@,
            )->Ok_0).signed_at
            &&& result->Ok_0.certificate_sha256@ == (check.fingerprint->Ok_0)@
            &&& result->Ok_0.archive_root == archive_root
            &&& result->Ok_0.total_data_block_count == footer.total_data_block_count
            &&& result->Ok_0.subject@ == name_text((check.display->Ok_0).subject@)
            &&& result->Ok_0.issuer@ == name_text((check.display->Ok_0).issuer@)
        },
        check.good == Ok::<bool, String>(false) ==> result is Err,
{
}

/// The clock is read as the number of seconds that it tells, and refused where it cannot
/// be read or does not fit.
pub proof fn law_the_clock_tells_seconds(clock: ClockReading)
    ensures
        clock matches Ok(seconds) ==> (seconds <= 0x7FFF_FFFF_FFFF_FFFF ==> clock_time(clock)
            == Ok::<i64, TzapFault>(seconds as i64)),
        clock matches Ok(seconds) ==> (seconds > 0x7FFF_FFFF_FFFF_FFFF ==> clock_time(clock) is Err),
        clock is Err ==> clock_time(clock) is Err,
{
}

/// A signer who did sign is shown, with the serial number of the certificate and without
/// notes.
pub proof fn law_signers_who_signed_are_shown(
    result: Result<TzapX509SignerInspection, TzapError>,
    footer: RootAuthFooter,
    archive_root: [u8; 32],
    check: LeafCheck,
)
    requires
        inspects_parts(result, footer, archive_root, check),
        footer.authenticator_id == 3,
        footer.signer_identity_type == 2,
        check.good == Ok::<bool, String>(true),
        check.fingerprint is Ok,
        check.display is Ok,
        (check.display->Ok_0).serial is Ok,
        authenticator(footer.authenticator_value@) is Ok,
    ensures
        result matches Ok(shown) && {
            &&& shown.serial_number_hex@ == ((check.display->Ok_0).serial->Ok_0)@
            &&& shown.authenticator_id == 3
            &&& shown.signer_identity_type == 2
            &&& shown.diagnostics@.len() == 0
        },
{
}

/// The signature that is checked is the one of the envelope, over a digest of the archive,
/// the session, the root, the time and the chain, with the certificate of the footer.
pub proof fn law_the_signature_covers_the_archive(
    footer: RootAuthFooter,
    archive_root: [u8; 32],
    check: LeafCheck,
    parts: crate::tzap::authenticator::AuthenticatorView,
)
    requires
        leaf_answer(footer, archive_root, check),
        authenticator(footer.authenticator_value@)
            == Ok::<crate::tzap::authenticator::AuthenticatorView, Seq<char>>(parts),
    ensures
        verifier_answer(
            footer.signer_identity_bytes@,
            signing_digest(
                footer.archive_uuid@,
                footer.session_id@,
                archive_root@,
                parts.signed_at as i64,
                parts.chain_digest,
            ),
            parts.signature,
            check.good,
        ),
        fingerprint_answer(footer.signer_identity_bytes@, check.fingerprint),
        display_answer(footer.signer_identity_bytes@, check.display),
{
}

/// A signature is said to lead to the production root only where its chain was good under
/// that root alone, and to the staging root only where it was bad under the first and good
/// under the second.
pub proof fn law_anchors_are_found_by_their_own_root(
    footer: RootAuthFooter,
    archive_root: Seq<u8>,
    production_root: Seq<u8>,
    staging_root: Seq<u8>,
    time: i64,
    anchor: TzapX509TrustAnchor,
)
    requires
        judged_anchor(footer, archive_root, production_root, staging_root, time, anchor),
    ensures
        anchor is ProductionRoot ==> exists|outcome: Result<RootAuthReport, String>| #[trigger]
            chain_answer(
                footer,
                archive_root,
                seq![production_root],
                false,
                false,
                time,
                outcome,
            ) && outcome is Ok,
        !(anchor is ProductionRoot) ==> exists|outcome: Result<RootAuthReport, String>| #[trigger]
            chain_answer(
                footer,
                archive_root,
                seq![production_root],
                false,
                false,
                time,
                outcome,
            ) && outcome is Err,
        !(anchor is ProductionRoot) ==> exists|outcome: Result<RootAuthReport, String>| #[trigger]
            chain_answer(footer, archive_root, seq![staging_root], false, false, time, outcome) && (
            outcome is Ok) == (anchor is StagingRoot),
{
    let (production, staging) = choose|production: bool, staging: bool|
        judged_under(footer, archive_root, production_root, time, production) && (!production
            ==> judged_under(footer, archive_root, staging_root, time, staging)) && anchor
            == #[trigger] anchor_of(production, staging);
    assert(judged_under(footer, archive_root, production_root, time, production));
}

/// A footer is verified only where its signature was good and its chain was good at the
/// time of signing, under the given roots and those of the system where they are trusted.
pub proof fn law_verified_footers_were_checked_at_the_time_of_signing(
    outcome: FooterOutcome,
    footer: RootAuthFooter,
    archive_root: Seq<u8>,
    trust: TzapX509TrustOptions,
    official: OfficialRoots,
    roots: Seq<Seq<u8>>,
)
    requires
        checks_footer(outcome, footer, archive_root, trust, official, roots),
    ensures
        outcome matches FooterOutcome::Verified { report, trust_anchor } ==> exists|
            signed: SignatureReport,
        |
            #[trigger] signature_answer(
                footer,
                archive_root,
                Ok::<SignatureReport, String>(signed),
            ) && chain_answer(
                footer,
                archive_root,
                roots,
                trust.trusted_system_roots,
                trust.include_official_tzap_root,
                signed.signed_at_unix_seconds,
                Ok::<RootAuthReport, String>(report),
            ),
        outcome matches FooterOutcome::Verified { report, trust_anchor } ==> (
        !trust.include_official_tzap_root ==> trust_anchor is Untrusted),
{
    let signature = choose|signature: Result<SignatureReport, String>| #[trigger]
        signature_answer(footer, archive_root, signature) && match signature {
            Err(message) => outcome matches FooterOutcome::Failed(reason) && reason@ == message@,
            Ok(signed) => checks_chain(
                outcome,
                footer,
                archive_root,
                trust,
                official,
                roots,
                signed.signed_at_unix_seconds,
            ),
        };
    if outcome is Verified {
        let signed = signature->Ok_0;
        assert(signature == Ok::<SignatureReport, String>(signed));
        assert(checks_chain(
            outcome,
            footer,
            archive_root,
            trust,
            official,
            roots,
            signed.signed_at_unix_seconds,
        ));
    }
}

/// Where the archive could not be verified, the reason of the signature is told behind the
/// fault of the archive, and the fault alone where the signature gave none.
pub proof fn law_failures_tell_the_archive_and_the_signature(
    result: Result<TzapX509VerificationReport, TzapError>,
    source: FormatFault,
    outcome: Option<FooterOutcome>,
    missing: Seq<char>,
)
    requires
        settles(result, Err(source), outcome, missing),
    ensures
        result is Err,
        outcome matches Some(FooterOutcome::Failed(reason)) ==> (result->Err_0)@
            == TzapFault::X509RootAuth(format_message(source@) + ": "@ + reason@),
        !(outcome matches Some(FooterOutcome::Failed(_))) ==> (result->Err_0)@
            == TzapFault::Format(source@),
{
}

/// The signer of a verified archive is the one who was inspected, with the notes of the
/// verification.
pub proof fn law_verified_signers_are_the_inspected_ones(
    result: Result<TzapX509SignerInspection, TzapError>,
    notes: Vec<String>,
    shown: TzapX509SignerInspection,
    missing: Seq<char>,
)
    requires
        settles_signer(result, Ok(notes), Some(Ok(shown)), missing),
    ensures
        result == Ok::<TzapX509SignerInspection, TzapError>(
            TzapX509SignerInspection { diagnostics: notes, ..shown },
        ),
{
}

/// The roots that are trusted are the official ones where they are asked for, read from
/// their own certificates, and those of the files that the options name, in order.
pub proof fn law_trusted_roots_are_those_of_the_options(
    roots: Result<Seq<Seq<u8>>, TzapFault>,
    trust: TzapX509TrustOptions,
    official: OfficialRoots,
    files: Seq<CertificateFile>,
)
    requires
        are_roots_of(roots, trust, official, files),
        roots is Ok,
    ensures
        trust.include_official_tzap_root ==> (roots->Ok_0).len() >= 2 && certificate_said(
            official.production.pem@,
            Ok((roots->Ok_0)[0]),
        ) && certificate_said(official.staging.pem@, Ok((roots->Ok_0)[1])),
        trust.trusted_ca_certificates@.len() == 0 ==> (roots->Ok_0).len() == if trust.include_official_tzap_root {
            2nat
        } else {
            0nat
        },
{
    let (production, staging, named, parsed) = choose|
        production: Result<Seq<u8>, Seq<char>>,
        staging: Result<Seq<u8>, Seq<char>>,
        named: Seq<CertificateFile>,
        parsed: Seq<Parsed>,
    |
        certificate_said(official.production.pem@, production) && certificate_said(
            official.staging.pem@,
            staging,
        ) && are_read_from(named, texts(trust.trusted_ca_certificates@), files) && files_answer(
            named,
            parsed,
        ) && roots == #[trigger] trusted_roots(
            trust.include_official_tzap_root,
            production,
            official.production.sha256@,
            staging,
            official.staging.sha256@,
            certificates_of(named, parsed),
        );
    assert(texts(trust.trusted_ca_certificates@).len() == trust.trusted_ca_certificates@.len());
    if trust.include_official_tzap_root {
        assert(production is Ok && staging is Ok);
        assert(production == Ok::<Seq<u8>, Seq<char>>((roots->Ok_0)[0]));
        assert(staging == Ok::<Seq<u8>, Seq<char>>((roots->Ok_0)[1]));
    }
}

/// The time that a signature claims is the one that the check of that signature tells.
pub proof fn law_claimed_times_are_those_of_the_signature(outcome: Result<SignatureReport, String>)
    ensures
        outcome matches Ok(report) ==> claimed_by(outcome) == Ok::<i64, TzapFault>(
            report.signed_at_unix_seconds,
        ),
        outcome matches Err(message) ==> claimed_by(outcome) == Err::<i64, TzapFault>(
            TzapFault::X509RootAuth(message@),
        ),
{
}

/// A signature leads to an official root only where these are trusted and both could be
/// read, and it is judged under what was read of them.
pub proof fn law_official_anchors_need_official_roots(
    footer: RootAuthFooter,
    archive_root: Seq<u8>,
    trust: TzapX509TrustOptions,
    official: OfficialRoots,
    time: i64,
    anchor: TzapX509TrustAnchor,
)
    requires
        classified(footer, archive_root, trust, official, time, anchor),
    ensures
        !trust.include_official_tzap_root ==> anchor is Untrusted,
        !(anchor is Untrusted) ==> exists|production: Seq<u8>, staging: Seq<u8>|
            certificate_said(official.production.pem@, Ok(production)) && certificate_said(
                official.staging.pem@,
                Ok(staging),
            ) && #[trigger] judged_anchor(
                footer,
                archive_root,
                production,
                staging,
                time,
                anchor,
            ),
{
    if !(anchor is Untrusted) {
        let (production, staging) = choose|
            production: Result<Seq<u8>, Seq<char>>,
            staging: Result<Seq<u8>, Seq<char>>,
        |
            #[trigger] certificate_said(official.production.pem@, production)
                && #[trigger] certificate_said(official.staging.pem@, staging) && (match (
                production,
                staging,
            ) {
                (Ok(first), Ok(second)) => judged_anchor(
                    footer,
                    archive_root,
                    first,
                    second,
                    time,
                    anchor,
                ),
                _ => anchor == TzapX509TrustAnchor::Untrusted,
            });
        assert(production == Ok::<Seq<u8>, Seq<char>>(production->Ok_0));
        assert(staging == Ok::<Seq<u8>, Seq<char>>(staging->Ok_0));
        assert(judged_anchor(
            footer,
            archive_root,
            production->Ok_0,
            staging->Ok_0,
            time,
            anchor,
        ));
    }
}

} // verus!
