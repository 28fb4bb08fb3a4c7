//! Checking and showing the signature of an archive whose volumes are in memory.
//!
//! The archive format's own reader makes sure that the footer commits to what the
//! volumes hold, and then hands the footer and the archive root out to be judged.
//! So what is handed out is read first, and the reader is then told the verdict.
#[allow(unused_imports)]
use crate::text::texts;
use crate::tzap::error::{FormatFault, TzapError, own_fault, own_result};
#[allow(unused_imports)]
use crate::tzap::error::{FormatFaultView, TzapFault, fault_told};
use crate::tzap::inventory::TzapX509TrustOptions;
#[allow(unused_imports)]
use crate::tzap::inventory::byte_strings;
#[allow(unused_imports)]
use crate::tzap::keys::password_view;
use crate::tzap::reader::{find_volumes_key, open_volumes};
#[allow(unused_imports)]
use crate::tzap::reader::{archive_opens, is_open_fault, opened_from, volumes_key};
use crate::tzap::root_auth::{
    CertificateFile, FooterOutcome, OfficialRoots, RootAuthFacts, RootAuthFooter,
    TzapX509SignerInspection, TzapX509VerificationReport, check_footer, check_public_profile,
    inspect_x509_root_auth_footer, load_x509_trusted_roots, settle_signer, settle_verification,
};
#[allow(unused_imports)]
use crate::tzap::root_auth::{
    FooterView, X509_AUTHENTICATOR_ID, are_roots_of, certificate_list_result, checks_footer,
    inspects_footer, settles, settles_signer,
};
use tzap_core::{FormatError, OpenedArchive, public_no_key_verify_volumes_with};
use vstd::prelude::*;

verus! {

/// What the reader hands out of a signed archive.
pub struct SignedFooter {
    /// The footer.
    pub footer: RootAuthFooter,
    /// The root that the reader computed.
    pub archive_root: [u8; 32],
}

/// What the reader hands out, with its bytes taken as sequences.
pub open spec fn footer_option(shown: Option<SignedFooter>) -> Option<(FooterView, Seq<u8>)> {
    match shown {
        Some(signed) => Some((signed.footer@, signed.archive_root@)),
        None => None,
    }
}

/// What the reader says of a signed archive, with its bytes and texts taken as
/// sequences.
pub struct FactsView {
    pub archive_root: Seq<u8>,
    pub authenticator_id: u16,
    pub signer_identity_type: u16,
    pub total_data_block_count: u64,
    pub diagnostics: Seq<Seq<char>>,
}

impl View for RootAuthFacts {
    type V = FactsView;

    open spec fn view(&self) -> FactsView {
        FactsView {
            archive_root: self.archive_root@,
            authenticator_id: self.authenticator_id,
            signer_identity_type: self.signer_identity_type,
            total_data_block_count: self.total_data_block_count,
            diagnostics: texts(self.diagnostics@),
        }
    }
}

/// The footer and the archive root that `verify_root_auth_with` of tzap-core hands out for
/// an archive that was opened from some volumes and a key, if it gets that far on a
/// machine whose largest `usize` is `largest`.
pub uninterp spec fn signed_footer(volumes: Seq<Seq<u8>>, key: Seq<u8>, largest: nat) -> Option<
    (FooterView, Seq<u8>),
>;

/// Calls `tzap_core::OpenedArchive::verify_root_auth_with` and keeps what that hands out to
/// be judged; `None` where it does not get that far. Claimed: what it hands out is a
/// function of the volumes and the key that the archive was opened from and of the width
/// of `usize`.
#[verifier::external_body]
fn read_signed_footer(archive: &OpenedArchive) -> (shown: Option<SignedFooter>)
    ensures
        footer_option(shown) == signed_footer(
            opened_from(*archive).0,
            opened_from(*archive).1,
            usize::MAX as nat,
        ),
{
    let mut shown = None;
    let _ = archive.verify_root_auth_with(|f, root| {
        shown = Some(SignedFooter { archive_root: *root, footer: RootAuthFooter {
            archive_uuid: f.archive_uuid, session_id: f.session_id, format_version: f.format_version,
            volume_format_rev: f.volume_format_rev, authenticator_id: f.authenticator_id, signer_identity_type: f.signer_identity_type,
            signer_identity_bytes: f.signer_identity_bytes.clone(), authenticator_value: f.authenticator_value.clone(),
            total_data_block_count: f.total_data_block_count, critical_metadata_digest: f.critical_metadata_digest, index_digest: f.index_digest,
            fec_layout_digest: f.fec_layout_digest, data_block_merkle_root: f.data_block_merkle_root,
            signer_identity_digest: f.signer_identity_digest, archive_root: f.archive_root, footer_crc32c: f.footer_crc32c } });
        Ok(false)
    });
    shown
}

/// What `verify_root_auth_with` of tzap-core says of an archive that was opened from some
/// volumes and a key on a machine whose largest `usize` is `largest`, if it is told
/// whether the signature is good; `None` where it refuses.
pub uninterp spec fn signed_verdict(
    volumes: Seq<Seq<u8>>,
    key: Seq<u8>,
    good: bool,
    largest: nat,
) -> Option<FactsView>;

/// Whether `verify_root_auth_with` of tzap-core can refuse an archive with this fault.
/// Blocks are checked side by side, and which of several faults is told depends on how
/// many at a time.
pub uninterp spec fn signed_refusal(
    volumes: Seq<Seq<u8>>,
    key: Seq<u8>,
    good: bool,
    largest: nat,
    fault: FormatFaultView,
) -> bool;

/// Calls `tzap_core::OpenedArchive::verify_root_auth_with` and tells that whether the
/// signature is good. Claimed: whether it succeeds, and what is said then, is a function
/// of the volumes and the key that the archive was opened from, of that, and of the width
/// of `usize`; a fault answers for these.
#[verifier::external_body]
fn read_signed_verdict(archive: &OpenedArchive, good: bool) -> (facts: Result<
    RootAuthFacts,
    FormatError,
>)
    ensures
        ({
            let (volumes, key) = opened_from(*archive);
            match facts {
                Ok(facts) => signed_verdict(volumes, key, good, usize::MAX as nat) == Some(facts@),
                Err(e) => signed_verdict(volumes, key, good, usize::MAX as nat) is None
                    && signed_refusal(volumes, key, good, usize::MAX as nat, fault_told(e)),
            }
        }),
{
    let facts = archive.verify_root_auth_with(|_, _| Ok(good))?;
    Ok(RootAuthFacts {
        archive_root: facts.archive_root,
        authenticator_id: facts.authenticator_id,
        signer_identity_type: facts.signer_identity_type,
        total_data_block_count: facts.total_data_block_count,
        diagnostics: facts.diagnostics.iter().map(|d| d.label().to_owned()).collect(),
    })
}

/// The footer and the archive root that `public_no_key_verify_volumes_with` of
/// tzap-core hands out for some volumes, if it gets that far on a machine whose largest
/// `usize` is `largest`.
pub uninterp spec fn public_footer(volumes: Seq<Seq<u8>>, largest: nat) -> Option<
    (FooterView, Seq<u8>),
>;

/// Calls `tzap_core::public_no_key_verify_volumes_with`, and keeps what that hands out
/// to be judged; `None` where it does not get that far. Claimed: what it hands out is a
/// function of the volumes and the width of `usize`.
#[verifier::external_body]
fn read_public_footer(volumes: &Vec<Vec<u8>>) -> (shown: Option<SignedFooter>)
    ensures
        footer_option(shown) == public_footer(byte_strings(volumes@), usize::MAX as nat),
{
    let slices: Vec<&[u8]> = volumes.iter().map(Vec::as_slice).collect();
    let mut shown = None;
    let _ = public_no_key_verify_volumes_with(&slices, |f, root| {
        shown = Some(SignedFooter { archive_root: *root, footer: RootAuthFooter {
            archive_uuid: f.archive_uuid, session_id: f.session_id, format_version: f.format_version,
            volume_format_rev: f.volume_format_rev, authenticator_id: f.authenticator_id, signer_identity_type: f.signer_identity_type,
            signer_identity_bytes: f.signer_identity_bytes.clone(), authenticator_value: f.authenticator_value.clone(),
            total_data_block_count: f.total_data_block_count, critical_metadata_digest: f.critical_metadata_digest, index_digest: f.index_digest,
            fec_layout_digest: f.fec_layout_digest, data_block_merkle_root: f.data_block_merkle_root,
            signer_identity_digest: f.signer_identity_digest, archive_root: f.archive_root, footer_crc32c: f.footer_crc32c } });
        Ok(false)
    });
    shown
}

/// What `public_no_key_verify_volumes_with` of tzap-core says of some volumes on a
/// machine whose largest `usize` is `largest`, if it is told whether the signature is
/// good; `None` where it refuses.
pub uninterp spec fn public_verdict(volumes: Seq<Seq<u8>>, good: bool, largest: nat) -> Option<
    FactsView,
>;

/// Whether `public_no_key_verify_volumes_with` of tzap-core can refuse some volumes with
/// this fault.
pub uninterp spec fn public_refusal(
    volumes: Seq<Seq<u8>>,
    good: bool,
    largest: nat,
    fault: FormatFaultView,
) -> bool;

/// Calls `tzap_core::public_no_key_verify_volumes_with`, and tells that whether the
/// signature is good. Claimed: whether it succeeds, and what it says then, is a function
/// of the volumes, that, and the width of `usize`; a fault answers for these.
#[verifier::external_body]
fn read_public_verdict(volumes: &Vec<Vec<u8>>, good: bool) -> (facts: Result<
    RootAuthFacts,
    FormatError,
>)
    ensures
        match facts {
            Ok(facts) => public_verdict(byte_strings(volumes@), good, usize::MAX as nat) == Some(
                facts@,
            ),
            Err(e) => public_verdict(byte_strings(volumes@), good, usize::MAX as nat) is None
                && public_refusal(byte_strings(volumes@), good, usize::MAX as nat, fault_told(e)),
        },
{
    let slices: Vec<&[u8]> = volumes.iter().map(Vec::as_slice).collect();
    let facts = public_no_key_verify_volumes_with(&slices, |_, _| Ok(good))?;
    Ok(RootAuthFacts {
        archive_root: facts.archive_root,
        authenticator_id: facts.authenticator_id,
        signer_identity_type: facts.signer_identity_type,
        total_data_block_count: facts.total_data_block_count,
        diagnostics: facts.diagnostics.iter().map(|d| d.label().to_owned()).collect(),
    })
}

/// Whether `verification` is what the reader says of an archive under its key, told
/// whether the signature is good.
pub open spec fn said(
    verification: Result<RootAuthFacts, FormatFault>,
    volumes: Seq<Seq<u8>>,
    key: Seq<u8>,
    good: bool,
    largest: nat,
) -> bool {
    match (verification, signed_verdict(volumes, key, good, largest)) {
        (Ok(facts), Some(wanted)) => facts@ == wanted,
        (Err(fault), None) => signed_refusal(volumes, key, good, largest, fault@),
        _ => false,
    }
}

/// Whether `verification` is what the reader says of an archive without its key, told
/// whether the signature is good.
pub open spec fn said_publicly(
    verification: Result<RootAuthFacts, FormatFault>,
    volumes: Seq<Seq<u8>>,
    good: bool,
    largest: nat,
) -> bool {
    match (verification, public_verdict(volumes, good, largest)) {
        (Ok(facts), Some(wanted)) => facts@ == wanted,
        (Err(fault), None) => public_refusal(volumes, good, largest, fault@),
        _ => false,
    }
}

/// Whether `outcome` is what judging the footer that was handed out comes to, if one
/// was.
pub open spec fn judged(
    outcome: Option<FooterOutcome>,
    shown: Option<(FooterView, Seq<u8>)>,
    trust: TzapX509TrustOptions,
    official: OfficialRoots,
    roots: Seq<Seq<u8>>,
) -> bool {
    match (outcome, shown) {
        (Some(outcome), Some((footer, archive_root))) => judged_footer(
            outcome,
            footer,
            archive_root,
            trust,
            official,
            roots,
        ),
        (None, None) => true,
        _ => false,
    }
}

/// Whether `outcome` is what judging a footer comes to.
pub open spec fn judged_footer(
    outcome: FooterOutcome,
    footer: FooterView,
    archive_root: Seq<u8>,
    trust: TzapX509TrustOptions,
    official: OfficialRoots,
    roots: Seq<Seq<u8>>,
) -> bool {
    exists|own: RootAuthFooter|
        #[trigger] own@ == footer && checks_footer(
            outcome,
            own,
            archive_root,
            trust,
            official,
            roots,
        )
}

fn judge(
    shown: &Option<SignedFooter>,
    trust: &TzapX509TrustOptions,
    official: &OfficialRoots,
    roots: &Vec<Vec<u8>>,
) -> (outcome: Option<FooterOutcome>)
    ensures
        judged(outcome, footer_option(*shown), *trust, *official, byte_strings(roots@)),
{
    match shown {
        Some(signed) => {
            let outcome: FooterOutcome = check_footer(
                &signed.footer,
                &signed.archive_root,
                trust,
                official,
                roots,
            );
            assert(judged_footer(
                outcome,
                signed.footer@,
                signed.archive_root@,
                *trust,
                *official,
                byte_strings(roots@),
            ));
            Some(outcome)
        },
        None => None,
    }
}

/// Whether a footer was found good.
pub open spec fn found_good(outcome: Option<FooterOutcome>) -> bool {
    outcome matches Some(outcome) && outcome is Verified
}

fn is_good(outcome: &Option<FooterOutcome>) -> (r: bool)
    ensures
        r == found_good(*outcome),
{
    match outcome {
        Some(FooterOutcome::Verified { .. }) => true,
        _ => false,
    }
}

/// Whether `result` is what verifying the signature of an archive under its key comes
/// to, with the given roots, on a machine whose largest `usize` is `largest`.
pub open spec fn verifies_signed(
    result: Result<TzapX509VerificationReport, TzapError>,
    volumes: Seq<Seq<u8>>,
    key: Seq<u8>,
    trust: TzapX509TrustOptions,
    official: OfficialRoots,
    roots: Seq<Seq<u8>>,
    largest: nat,
) -> bool {
    exists|verification: Result<RootAuthFacts, FormatFault>, outcome: Option<FooterOutcome>|
        judged(outcome, signed_footer(volumes, key, largest), trust, official, roots) && said(
            verification,
            volumes,
            key,
            found_good(outcome),
            largest,
        ) && #[trigger] settles(
            result,
            verification,
            outcome,
            "missing X.509 RootAuth verification report"@,
        )
}

/// Verifies the X.509 signature of an archive whose volumes are in memory. The trusted CA
/// certificates that `trust` names are among `files`.
pub fn verify_tzap_volumes_x509(
    archive: &str,
    volumes: &Vec<Vec<u8>>,
    password: Option<&str>,
    trust: &TzapX509TrustOptions,
    official: &OfficialRoots,
    files: &Vec<CertificateFile>,
) -> (result: Result<TzapX509VerificationReport, TzapError>)
    ensures
        match volumes_key(archive@, byte_strings(volumes@), password_view(password)) {
            Err(fault) => result matches Err(e) && e@ == fault,
            Ok(key) => if !archive_opens(byte_strings(volumes@), key, usize::MAX as nat) {
                result matches Err(e) && is_open_fault(
                    e@,
                    byte_strings(volumes@),
                    key,
                    usize::MAX as nat,
                )
            } else {
                exists|roots: Result<Seq<Seq<u8>>, TzapFault>| #[trigger]
                    are_roots_of(roots, *trust, *official, files@) && match roots {
                        Err(fault) => result matches Err(e) && e@ == fault,
                        Ok(roots) => verifies_signed(
                            result,
                            byte_strings(volumes@),
                            key,
                            *trust,
                            *official,
                            roots,
                            usize::MAX as nat,
                        ),
                    }
            },
        },
{
    let key: [u8; 32] = match find_volumes_key(archive, volumes, password) {
        Ok(key) => key,
        Err(e) => {
            return Err(e);
        },
    };
    let reader: OpenedArchive = match open_volumes(volumes, &key) {
        Ok(reader) => reader,
        Err(e) => {
            return Err(TzapError::Format(own_fault(e)));
        },
    };
    let loaded: Result<Vec<Vec<u8>>, TzapError> = load_x509_trusted_roots(trust, official, files);
    assert(are_roots_of(certificate_list_result(loaded), *trust, *official, files@));
    let roots: Vec<Vec<u8>> = match loaded {
        Ok(roots) => roots,
        Err(e) => {
            return Err(e);
        },
    };
    let shown: Option<SignedFooter> = read_signed_footer(&reader);
    let outcome: Option<FooterOutcome> = judge(&shown, trust, official, &roots);
    let verification: Result<RootAuthFacts, FormatFault> = own_result(
        read_signed_verdict(&reader, is_good(&outcome)),
    );
    let ghost seen = verification;
    let ghost judgement = outcome;
    let result: Result<TzapX509VerificationReport, TzapError> = settle_verification(
        verification,
        outcome,
        "missing X.509 RootAuth verification report",
    );
    assert(settles(result, seen, judgement, "missing X.509 RootAuth verification report"@));
    result
}

/// Whether `outcome` and `verification` are what judging an archive without its key
/// comes to. A footer of another profile is not judged, and the reader stops there.
pub open spec fn judges_public(
    outcome: Option<FooterOutcome>,
    verification: Result<RootAuthFacts, FormatFault>,
    volumes: Seq<Seq<u8>>,
    trust: TzapX509TrustOptions,
    official: OfficialRoots,
    roots: Seq<Seq<u8>>,
    largest: nat,
) -> bool {
    if public_footer(volumes, largest) matches Some((footer, _)) && footer.authenticator_id
        != X509_AUTHENTICATOR_ID {
        outcome is None && (verification matches Err(fault) && fault@
            == FormatFaultView::ReaderUnsupported("X.509 trust can only verify X.509 RootAuth"@))
    } else {
        judged(outcome, public_footer(volumes, largest), trust, official, roots) && said_publicly(
            verification,
            volumes,
            found_good(outcome),
            largest,
        )
    }
}

/// Verifies the X.509 signature of an archive whose volumes are in memory, without its
/// key. The trusted CA certificates that `trust` names are among `files`.
pub fn verify_tzap_volumes_x509_public_no_key(
    volumes: &Vec<Vec<u8>>,
    trust: &TzapX509TrustOptions,
    official: &OfficialRoots,
    files: &Vec<CertificateFile>,
) -> (result: Result<TzapX509VerificationReport, TzapError>)
    ensures
        if !trust.has_source() {
            result matches Err(e) && e@ == TzapFault::X509RootAuth(
                "X.509 verification requires trusted roots"@,
            )
        } else {
            exists|roots: Result<Seq<Seq<u8>>, TzapFault>| #[trigger]
                are_roots_of(roots, *trust, *official, files@) && match roots {
                    Err(fault) => result matches Err(e) && e@ == fault,
                    Ok(roots) => exists|
                        verification: Result<RootAuthFacts, FormatFault>,
                        outcome: Option<FooterOutcome>,
                    |
                        judges_public(
                            outcome,
                            verification,
                            byte_strings(volumes@),
                            *trust,
                            *official,
                            roots,
                            usize::MAX as nat,
                        ) && #[trigger] settles(
                            result,
                            verification,
                            outcome,
                            "missing X.509 public no-key verification report"@,
                        ),
                }
        },
{
    if !trust.has_trust_source() {
        return Err(
            TzapError::X509RootAuth("X.509 verification requires trusted roots".to_owned()),
        );
    }
    let loaded: Result<Vec<Vec<u8>>, TzapError> = load_x509_trusted_roots(trust, official, files);
    assert(are_roots_of(certificate_list_result(loaded), *trust, *official, files@));
    let roots: Vec<Vec<u8>> = match loaded {
        Ok(roots) => roots,
        Err(e) => {
            return Err(e);
        },
    };
    let shown: Option<SignedFooter> = read_public_footer(volumes);
    let profile: Result<(), FormatFault> = match &shown {
        Some(signed) => check_public_profile(&signed.footer),
        None => Ok(()),
    };
    let (verification, outcome): (Result<RootAuthFacts, FormatFault>, Option<FooterOutcome>) =
        match profile {
        Err(fault) => (Err(fault), None),
        Ok(_) => {
            let outcome: Option<FooterOutcome> = judge(&shown, trust, official, &roots);
            let verification: Result<RootAuthFacts, FormatFault> = own_result(
                read_public_verdict(volumes, is_good(&outcome)),
            );
            (verification, outcome)
        },
    };
    let ghost seen = verification;
    let ghost judgement = outcome;
    assert(judges_public(
        judgement,
        seen,
        byte_strings(volumes@),
        *trust,
        *official,
        byte_strings(roots@),
        usize::MAX as nat,
    ));
    let result: Result<TzapX509VerificationReport, TzapError> = settle_verification(
        verification,
        outcome,
        "missing X.509 public no-key verification report",
    );
    assert(settles(result, seen, judgement, "missing X.509 public no-key verification report"@));
    result
}

/// Whether `inspection` is what showing the signer of the footer that was handed out
/// comes to, if one was.
pub open spec fn shown_signer(
    inspection: Option<Result<TzapX509SignerInspection, TzapError>>,
    shown: Option<(FooterView, Seq<u8>)>,
) -> bool {
    match (inspection, shown) {
        (Some(inspection), Some((footer, archive_root))) => exists|
            own: RootAuthFooter,
            root: [u8; 32],
        |
            own@ == footer && root@ == archive_root && #[trigger] inspects_footer(
                inspection,
                own,
                root,
            ),
        (None, None) => true,
        _ => false,
    }
}

fn show(shown: &Option<SignedFooter>) -> (inspection: Option<
    Result<TzapX509SignerInspection, TzapError>,
>)
    ensures
        shown_signer(inspection, footer_option(*shown)),
{
    match shown {
        Some(signed) => {
            let inspection: Result<TzapX509SignerInspection, TzapError> =
                inspect_x509_root_auth_footer(&signed.footer, &signed.archive_root);
            assert(inspects_footer(inspection, signed.footer, signed.archive_root));
            Some(inspection)
        },
        None => None,
    }
}

/// Whether a signer could be shown.
pub open spec fn found_signer(
    inspection: Option<Result<TzapX509SignerInspection, TzapError>>,
) -> bool {
    inspection matches Some(inspection) && inspection is Ok
}

fn is_shown(inspection: &Option<Result<TzapX509SignerInspection, TzapError>>) -> (r: bool)
    ensures
        r == found_signer(*inspection),
{
    match inspection {
        Some(Ok(_)) => true,
        _ => false,
    }
}

/// Whether `notes` is what the reader noted, or why it refused the archive.
pub open spec fn noted(
    notes: Result<Vec<String>, FormatFault>,
    verification: Result<RootAuthFacts, FormatFault>,
) -> bool {
    match (notes, verification) {
        (Ok(notes), Ok(facts)) => texts(notes@) == facts@.diagnostics,
        (Err(fault), Err(refusal)) => fault@ == refusal@,
        _ => false,
    }
}

fn as_notes(facts: Result<RootAuthFacts, FormatFault>) -> (notes: Result<Vec<String>, FormatFault>)
    ensures
        noted(notes, facts),
{
    match facts {
        Ok(facts) => Ok(facts.diagnostics),
        Err(fault) => Err(fault),
    }
}

/// Whether `result` is what showing the signer of an archive under its key comes to, on a
/// machine whose largest `usize` is `largest`.
pub open spec fn shows_signed(
    result: Result<TzapX509SignerInspection, TzapError>,
    volumes: Seq<Seq<u8>>,
    key: Seq<u8>,
    largest: nat,
) -> bool {
    exists|
        verification: Result<RootAuthFacts, FormatFault>,
        notes: Result<Vec<String>, FormatFault>,
        inspection: Option<Result<TzapX509SignerInspection, TzapError>>,
    |
        shown_signer(inspection, signed_footer(volumes, key, largest)) && said(
            verification,
            volumes,
            key,
            found_signer(inspection),
            largest,
        ) && #[trigger] noted(notes, verification) && #[trigger] settles_signer(
            result,
            notes,
            inspection,
            "missing X.509 signer inspection report"@,
        )
}

/// Whether `result` is what showing the signer of an archive without its key comes to, on
/// a machine whose largest `usize` is `largest`.
pub open spec fn shows_publicly(
    result: Result<TzapX509SignerInspection, TzapError>,
    volumes: Seq<Seq<u8>>,
    largest: nat,
) -> bool {
    exists|
        verification: Result<RootAuthFacts, FormatFault>,
        notes: Result<Vec<String>, FormatFault>,
        inspection: Option<Result<TzapX509SignerInspection, TzapError>>,
    |
        shown_signer(inspection, public_footer(volumes, largest)) && said_publicly(
            verification,
            volumes,
            found_signer(inspection),
            largest,
        ) && #[trigger] noted(notes, verification) && #[trigger] settles_signer(
            result,
            notes,
            inspection,
            "missing X.509 public no-key signer inspection report"@,
        )
}

/// Shows the X.509 signer of an archive whose volumes are in memory. Nobody has to
/// vouch for the certificate.
pub fn inspect_tzap_volumes_x509_signer(
    archive: &str,
    volumes: &Vec<Vec<u8>>,
    password: Option<&str>,
) -> (result: Result<TzapX509SignerInspection, TzapError>)
    ensures
        match volumes_key(archive@, byte_strings(volumes@), password_view(password)) {
            Err(fault) => result matches Err(e) && e@ == fault,
            Ok(key) => if !archive_opens(byte_strings(volumes@), key, usize::MAX as nat) {
                result matches Err(e) && is_open_fault(
                    e@,
                    byte_strings(volumes@),
                    key,
                    usize::MAX as nat,
                )
            } else {
                shows_signed(result, byte_strings(volumes@), key, usize::MAX as nat)
            },
        },
{
    let key: [u8; 32] = match find_volumes_key(archive, volumes, password) {
        Ok(key) => key,
        Err(e) => {
            return Err(e);
        },
    };
    let reader: OpenedArchive = match open_volumes(volumes, &key) {
        Ok(reader) => reader,
        Err(e) => {
            return Err(TzapError::Format(own_fault(e)));
        },
    };
    let shown: Option<SignedFooter> = read_signed_footer(&reader);
    let inspection: Option<Result<TzapX509SignerInspection, TzapError>> = show(&shown);
    let verification: Result<RootAuthFacts, FormatFault> = own_result(
        read_signed_verdict(&reader, is_shown(&inspection)),
    );
    let ghost told = verification;
    let notes: Result<Vec<String>, FormatFault> = as_notes(verification);
    let ghost seen = notes;
    assert(noted(seen, told));
    let ghost signer = inspection;
    let result: Result<TzapX509SignerInspection, TzapError> = settle_signer(
        notes,
        inspection,
        "missing X.509 signer inspection report",
    );
    assert(settles_signer(result, seen, signer, "missing X.509 signer inspection report"@));
    result
}

/// Shows the X.509 signer of an archive whose volumes are in memory, without its key.
/// Nobody has to vouch for the certificate.
pub fn inspect_tzap_volumes_x509_public_no_key_signer(volumes: &Vec<Vec<u8>>) -> (result: Result<
    TzapX509SignerInspection,
    TzapError,
>)
    ensures
        shows_publicly(result, byte_strings(volumes@), usize::MAX as nat),
{
    let shown: Option<SignedFooter> = read_public_footer(volumes);
    let inspection: Option<Result<TzapX509SignerInspection, TzapError>> = show(&shown);
    let verification: Result<RootAuthFacts, FormatFault> = own_result(
        read_public_verdict(volumes, is_shown(&inspection)),
    );
    let ghost told = verification;
    let notes: Result<Vec<String>, FormatFault> = as_notes(verification);
    let ghost seen = notes;
    assert(noted(seen, told));
    let ghost signer = inspection;
    let result: Result<TzapX509SignerInspection, TzapError> = settle_signer(
        notes,
        inspection,
        "missing X.509 public no-key signer inspection report",
    );
    assert(settles_signer(
        result,
        seen,
        signer,
        "missing X.509 public no-key signer inspection report"@,
    ));
    result
}

/// The signature of an archive is reported as verified only where the reader handed a
/// footer out, the check of that footer found it good, and the reader accepted the
/// archive with that verdict.
pub proof fn law_reported_signatures_were_judged(
    result: Result<TzapX509VerificationReport, TzapError>,
    volumes: Seq<Seq<u8>>,
    key: Seq<u8>,
    trust: TzapX509TrustOptions,
    official: OfficialRoots,
    roots: Seq<Seq<u8>>,
    largest: nat,
)
    requires
        verifies_signed(result, volumes, key, trust, official, roots, largest),
        result is Ok,
    ensures
        signed_footer(volumes, key, largest) is Some,
        signed_verdict(volumes, key, true, largest) is Some,
        exists|outcome: FooterOutcome|
            outcome is Verified && #[trigger] judged_footer(
                outcome,
                (signed_footer(volumes, key, largest)->0).0,
                (signed_footer(volumes, key, largest)->0).1,
                trust,
                official,
                roots,
            ),
{
    let missing = "missing X.509 RootAuth verification report"@;
    let (verification, outcome) = choose|
        verification: Result<RootAuthFacts, FormatFault>,
        outcome: Option<FooterOutcome>,
    |
        judged(outcome, signed_footer(volumes, key, largest), trust, official, roots) && said(
            verification,
            volumes,
            key,
            found_good(outcome),
            largest,
        ) && #[trigger] settles(result, verification, outcome, missing);
    assert(found_good(outcome));
}

/// What the reader says of a signature is asked with the verdict of the check: a signature
/// that was not found good is never vouched for as if it had been.
pub proof fn law_readers_are_told_the_verdict(
    result: Result<TzapX509VerificationReport, TzapError>,
    volumes: Seq<Seq<u8>>,
    key: Seq<u8>,
    trust: TzapX509TrustOptions,
    official: OfficialRoots,
    roots: Seq<Seq<u8>>,
    largest: nat,
)
    requires
        verifies_signed(result, volumes, key, trust, official, roots, largest),
    ensures
        signed_footer(volumes, key, largest) is None ==> result is Err,
        signed_verdict(volumes, key, true, largest) is None ==> result is Err,
        result matches Ok(report) ==> {
            let facts = signed_verdict(volumes, key, true, largest)->0;
            &&& report.archive_root@ == facts.archive_root
            &&& report.authenticator_id == facts.authenticator_id
            &&& report.signer_identity_type == facts.signer_identity_type
            &&& report.total_data_block_count == facts.total_data_block_count
            &&& texts(report.diagnostics@) == facts.diagnostics
        },
{
    let missing = "missing X.509 RootAuth verification report"@;
    let (verification, outcome) = choose|
        verification: Result<RootAuthFacts, FormatFault>,
        outcome: Option<FooterOutcome>,
    |
        judged(outcome, signed_footer(volumes, key, largest), trust, official, roots) && said(
            verification,
            volumes,
            key,
            found_good(outcome),
            largest,
        ) && #[trigger] settles(result, verification, outcome, missing);
}

/// Without a key, a footer of another profile is never judged and never verified; any
/// other is judged, and the reader is told the verdict.
pub proof fn law_other_profiles_are_not_judged_without_a_key(
    outcome: Option<FooterOutcome>,
    verification: Result<RootAuthFacts, FormatFault>,
    volumes: Seq<Seq<u8>>,
    trust: TzapX509TrustOptions,
    official: OfficialRoots,
    roots: Seq<Seq<u8>>,
    largest: nat,
)
    requires
        judges_public(outcome, verification, volumes, trust, official, roots, largest),
        public_footer(volumes, largest) is Some,
    ensures
        (public_footer(volumes, largest)->0).0.authenticator_id != 3 ==> outcome is None
            && verification is Err,
        (public_footer(volumes, largest)->0).0.authenticator_id == 3 ==> outcome is Some
            && judged_footer(
            outcome->0,
            (public_footer(volumes, largest)->0).0,
            (public_footer(volumes, largest)->0).1,
            trust,
            official,
            roots,
        ) && (verification is Ok <==> public_verdict(
            volumes,
            outcome->0 is Verified,
            largest,
        ) is Some),
{
}

/// A signer is shown only where the reader handed a footer out, the inspection of that
/// footer succeeded, and the reader accepted the archive with that.
pub proof fn law_shown_signers_were_inspected(
    result: Result<TzapX509SignerInspection, TzapError>,
    volumes: Seq<Seq<u8>>,
    key: Seq<u8>,
    largest: nat,
)
    requires
        shows_signed(result, volumes, key, largest),
        result is Ok,
    ensures
        signed_footer(volumes, key, largest) is Some,
        signed_verdict(volumes, key, true, largest) is Some,
        texts((result->Ok_0).diagnostics@) == (signed_verdict(
            volumes,
            key,
            true,
            largest,
        )->0).diagnostics,
{
    let missing = "missing X.509 signer inspection report"@;
    let (verification, notes, inspection) = choose|
        verification: Result<RootAuthFacts, FormatFault>,
        notes: Result<Vec<String>, FormatFault>,
        inspection: Option<Result<TzapX509SignerInspection, TzapError>>,
    |
        shown_signer(inspection, signed_footer(volumes, key, largest)) && said(
            verification,
            volumes,
            key,
            found_signer(inspection),
            largest,
        ) && #[trigger] noted(notes, verification) && #[trigger] settles_signer(
            result,
            notes,
            inspection,
            missing,
        );
    assert(found_signer(inspection));
}

/// The same holds of a signer who is shown without a key.
pub proof fn law_publicly_shown_signers_were_inspected(
    result: Result<TzapX509SignerInspection, TzapError>,
    volumes: Seq<Seq<u8>>,
    largest: nat,
)
    requires
        shows_publicly(result, volumes, largest),
        result is Ok,
    ensures
        public_footer(volumes, largest) is Some,
        public_verdict(volumes, true, largest) is Some,
        texts((result->Ok_0).diagnostics@) == (public_verdict(
            volumes,
            true,
            largest,
        )->0).diagnostics,
{
    let missing = "missing X.509 public no-key signer inspection report"@;
    let (verification, notes, inspection) = choose|
        verification: Result<RootAuthFacts, FormatFault>,
        notes: Result<Vec<String>, FormatFault>,
        inspection: Option<Result<TzapX509SignerInspection, TzapError>>,
    |
        shown_signer(inspection, public_footer(volumes, largest)) && said_publicly(
            verification,
            volumes,
            found_signer(inspection),
            largest,
        ) && #[trigger] noted(notes, verification) && #[trigger] settles_signer(
            result,
            notes,
            inspection,
            missing,
        );
    assert(found_signer(inspection));
}

} // verus!
