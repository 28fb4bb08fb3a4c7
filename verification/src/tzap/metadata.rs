//! What is said of metadata that could not be kept or restored as it was, and of
//! the signatures that were checked.
use crate::text::concat5;
use vstd::prelude::*;

verus! {

/// What was done with metadata.
#[derive(Debug, Clone, Copy, PartialEq, Eq, Structural)]
pub enum MetadataOperation {
    Capture,
    Parse,
    Verify,
    Plan,
    Restore,
}

/// What came of it.
#[derive(Debug, Clone, Copy, PartialEq, Eq, Structural)]
pub enum MetadataDiagnosticStatus {
    Partial,
    Unsupported,
    Skipped,
    Materialized,
    Failed,
}

/// One thing to say of metadata.
#[derive(Debug, PartialEq, Eq)]
pub struct MetadataDiagnostic {
    /// Which profile the metadata belongs to.
    pub profile: String,
    /// Which class of metadata it is.
    pub metadata_class: String,
    /// What was done.
    pub operation: MetadataOperation,
    /// What came of it.
    pub status: MetadataDiagnosticStatus,
    /// The details.
    pub message: String,
}

/// What an operation is called.
pub open spec fn operation_name(operation: MetadataOperation) -> Seq<char> {
    match operation {
        MetadataOperation::Capture => "capture"@,
        MetadataOperation::Parse => "parse"@,
        MetadataOperation::Verify => "verify"@,
        MetadataOperation::Plan => "plan"@,
        MetadataOperation::Restore => "restore"@,
    }
}

/// What a status is called.
pub open spec fn status_name(status: MetadataDiagnosticStatus) -> Seq<char> {
    match status {
        MetadataDiagnosticStatus::Partial => "partial"@,
        MetadataDiagnosticStatus::Unsupported => "unsupported"@,
        MetadataDiagnosticStatus::Skipped => "skipped"@,
        MetadataDiagnosticStatus::Materialized => "materialized"@,
        MetadataDiagnosticStatus::Failed => "failed"@,
    }
}

/// Calls `tzap_core::MetadataOperation::label`, so that every host calls an
/// operation the same. Claimed: the name of each operation.
#[verifier::external_body]
fn operation_label(operation: MetadataOperation) -> (label: &'static str)
    ensures
        label@ == operation_name(operation),
{
    match operation {
        MetadataOperation::Capture => tzap_core::MetadataOperation::Capture,
        MetadataOperation::Parse => tzap_core::MetadataOperation::Parse,
        MetadataOperation::Verify => tzap_core::MetadataOperation::Verify,
        MetadataOperation::Plan => tzap_core::MetadataOperation::Plan,
        MetadataOperation::Restore => tzap_core::MetadataOperation::Restore,
    }.label()
}

/// Calls `tzap_core::MetadataDiagnosticStatus::label`, so that every host calls a
/// status the same. Claimed: the name of each status.
#[verifier::external_body]
fn status_label(status: MetadataDiagnosticStatus) -> (label: &'static str)
    ensures
        label@ == status_name(status),
{
    match status {
        MetadataDiagnosticStatus::Partial => tzap_core::MetadataDiagnosticStatus::Partial,
        MetadataDiagnosticStatus::Unsupported => tzap_core::MetadataDiagnosticStatus::Unsupported,
        MetadataDiagnosticStatus::Skipped => tzap_core::MetadataDiagnosticStatus::Skipped,
        MetadataDiagnosticStatus::Materialized => tzap_core::MetadataDiagnosticStatus::Materialized,
        MetadataDiagnosticStatus::Failed => tzap_core::MetadataDiagnosticStatus::Failed,
    }.label()
}

/// What a user reads of a diagnostic.
pub open spec fn diagnostic_text(d: MetadataDiagnostic) -> Seq<char> {
    "profile="@ + d.profile@ + " class="@ + d.metadata_class@ + " operation="@ + (operation_name(
        d.operation,
    ) + " status="@ + status_name(d.status) + ": "@ + d.message@)
}

/// Renders diagnostics for display.
pub fn metadata_diagnostic_labels(diagnostics: &Vec<MetadataDiagnostic>) -> (labels: Vec<String>)
    ensures
        labels@.len() == diagnostics@.len(),
        forall|i: int|
            0 <= i < labels@.len() ==> (#[trigger] labels@[i])@ == diagnostic_text(diagnostics@[i]),
{
    let mut labels: Vec<String> = Vec::new();
    let mut i: usize = 0;
    while i < diagnostics.len()
        invariant
            i == labels@.len(),
            i <= diagnostics@.len(),
            forall|k: int|
                0 <= k < i ==> (#[trigger] labels@[k])@ == diagnostic_text(diagnostics@[k]),
        decreases diagnostics@.len() - i,
    {
        let d: &MetadataDiagnostic = &diagnostics[i];
        let tail: String = concat5(
            operation_label(d.operation),
            " status=",
            status_label(d.status),
            ": ",
            d.message.as_str(),
        );
        let mut label: String = concat5(
            "profile=",
            d.profile.as_str(),
            " class=",
            d.metadata_class.as_str(),
            " operation=",
        );
        label.append(tail.as_str());
        labels.push(label);
        i = i + 1;
    }
    labels
}

/// What checking a signature tells.
#[derive(Debug, Clone, Copy, PartialEq, Eq, Structural)]
pub enum RootAuthDiagnostic {
    RootAuthContentVerified,
    RootAuthDeferredFullArchiveScanRequired,
    AuthenticatedMetadataNotRootSigned,
    RecoveryMarginNotRootAuthenticated,
    ReplicatedGlobalCopyUncheckedDueToVolumeLoss,
    RecoveryMarginChecked,
    RecoveryMarginFailed,
    RecoveryMarginUnchecked,
}

/// What a diagnostic of checking a signature is called.
pub open spec fn root_auth_name(diagnostic: RootAuthDiagnostic) -> Seq<char> {
    match diagnostic {
        RootAuthDiagnostic::RootAuthContentVerified => "root_auth_content_verified"@,
        RootAuthDiagnostic::RootAuthDeferredFullArchiveScanRequired => "root_auth_deferred_full_archive_scan_required"@,
        RootAuthDiagnostic::AuthenticatedMetadataNotRootSigned => "authenticated_metadata_not_root_signed"@,
        RootAuthDiagnostic::RecoveryMarginNotRootAuthenticated => "recovery_margin_not_root_authenticated"@,
        RootAuthDiagnostic::ReplicatedGlobalCopyUncheckedDueToVolumeLoss => "replicated_global_copy_unchecked_due_to_volume_loss"@,
        RootAuthDiagnostic::RecoveryMarginChecked => "recovery_margin_checked"@,
        RootAuthDiagnostic::RecoveryMarginFailed => "recovery_margin_failed"@,
        RootAuthDiagnostic::RecoveryMarginUnchecked => "recovery_margin_unchecked"@,
    }
}

/// Calls `tzap_core::RootAuthDiagnostic::label`. Claimed: the name of each
/// diagnostic.
#[verifier::external_body]
fn root_auth_label(diagnostic: RootAuthDiagnostic) -> (label: &'static str)
    ensures
        label@ == root_auth_name(diagnostic),
{
    match diagnostic {
        RootAuthDiagnostic::RootAuthContentVerified => tzap_core::RootAuthDiagnostic::RootAuthContentVerified,
        RootAuthDiagnostic::RootAuthDeferredFullArchiveScanRequired => tzap_core::RootAuthDiagnostic::RootAuthDeferredFullArchiveScanRequired,
        RootAuthDiagnostic::AuthenticatedMetadataNotRootSigned => tzap_core::RootAuthDiagnostic::AuthenticatedMetadataNotRootSigned,
        RootAuthDiagnostic::RecoveryMarginNotRootAuthenticated => tzap_core::RootAuthDiagnostic::RecoveryMarginNotRootAuthenticated,
        RootAuthDiagnostic::ReplicatedGlobalCopyUncheckedDueToVolumeLoss => tzap_core::RootAuthDiagnostic::ReplicatedGlobalCopyUncheckedDueToVolumeLoss,
        RootAuthDiagnostic::RecoveryMarginChecked => tzap_core::RootAuthDiagnostic::RecoveryMarginChecked,
        RootAuthDiagnostic::RecoveryMarginFailed => tzap_core::RootAuthDiagnostic::RecoveryMarginFailed,
        RootAuthDiagnostic::RecoveryMarginUnchecked => tzap_core::RootAuthDiagnostic::RecoveryMarginUnchecked,
    }.label()
}

/// The names of the diagnostics of checking a signature.
pub fn root_auth_diagnostic_labels(diagnostics: &Vec<RootAuthDiagnostic>) -> (labels: Vec<
    String,
>)
    ensures
        labels@.len() == diagnostics@.len(),
        forall|i: int|
            0 <= i < labels@.len() ==> (#[trigger] labels@[i])@ == root_auth_name(
                diagnostics@[i],
            ),
{
    let mut labels: Vec<String> = Vec::new();
    let mut i: usize = 0;
    while i < diagnostics.len()
        invariant
            i == labels@.len(),
            i <= diagnostics@.len(),
            forall|k: int|
                0 <= k < i ==> (#[trigger] labels@[k])@ == root_auth_name(diagnostics@[k]),
        decreases diagnostics@.len() - i,
    {
        labels.push(root_auth_label(diagnostics[i]).to_owned());
        i = i + 1;
    }
    labels
}

/// What checking a signature without a key tells.
#[derive(Debug, Clone, Copy, PartialEq, Eq, Structural)]
pub enum PublicNoKeyDiagnostic {
    PublicDataBlockCommitmentVerified,
    PublicPhysicalCompletenessUnverified,
    PublicRecoveryMarginUnchecked,
}

/// What a diagnostic of checking a signature without a key is called.
pub open spec fn public_no_key_name(diagnostic: PublicNoKeyDiagnostic) -> Seq<char> {
    match diagnostic {
        PublicNoKeyDiagnostic::PublicDataBlockCommitmentVerified => "public_data_block_commitment_verified"@,
        PublicNoKeyDiagnostic::PublicPhysicalCompletenessUnverified => "public_physical_completeness_unverified"@,
        PublicNoKeyDiagnostic::PublicRecoveryMarginUnchecked => "public_recovery_margin_unchecked"@,
    }
}

/// Calls `tzap_core::PublicNoKeyDiagnostic::label`. Claimed: the name of each
/// diagnostic.
#[verifier::external_body]
fn public_no_key_label(diagnostic: PublicNoKeyDiagnostic) -> (label: &'static str)
    ensures
        label@ == public_no_key_name(diagnostic),
{
    match diagnostic {
        PublicNoKeyDiagnostic::PublicDataBlockCommitmentVerified => tzap_core::PublicNoKeyDiagnostic::PublicDataBlockCommitmentVerified,
        PublicNoKeyDiagnostic::PublicPhysicalCompletenessUnverified => tzap_core::PublicNoKeyDiagnostic::PublicPhysicalCompletenessUnverified,
        PublicNoKeyDiagnostic::PublicRecoveryMarginUnchecked => tzap_core::PublicNoKeyDiagnostic::PublicRecoveryMarginUnchecked,
    }.label()
}

/// The names of the diagnostics of checking a signature without a key.
pub fn public_no_key_diagnostic_labels(diagnostics: &Vec<PublicNoKeyDiagnostic>) -> (labels: Vec<
    String,
>)
    ensures
        labels@.len() == diagnostics@.len(),
        forall|i: int|
            0 <= i < labels@.len() ==> (#[trigger] labels@[i])@ == public_no_key_name(
                diagnostics@[i],
            ),
{
    let mut labels: Vec<String> = Vec::new();
    let mut i: usize = 0;
    while i < diagnostics.len()
        invariant
            i == labels@.len(),
            i <= diagnostics@.len(),
            forall|k: int|
                0 <= k < i ==> (#[trigger] labels@[k])@ == public_no_key_name(diagnostics@[k]),
        decreases diagnostics@.len() - i,
    {
        labels.push(public_no_key_label(diagnostics[i]).to_owned());
        i = i + 1;
    }
    labels
}

/// A note tells its profile, its class, what was done and how that went, each behind its
/// own label, and then its message.
pub proof fn law_notes_tell_every_part(d: MetadataDiagnostic)
    ensures
        diagnostic_text(d) == "profile="@ + d.profile@ + " class="@ + d.metadata_class@
            + " operation="@ + operation_name(d.operation) + " status="@ + status_name(d.status)
            + ": "@ + d.message@,
{
    assert(diagnostic_text(d) =~= "profile="@ + d.profile@ + " class="@ + d.metadata_class@
        + " operation="@ + operation_name(d.operation) + " status="@ + status_name(d.status) + ": "@
        + d.message@);
}

/// What was done, and how it went, is told in small letters.
pub proof fn law_operations_and_statuses_are_told_by_name(
    operation: MetadataOperation,
    status: MetadataDiagnosticStatus,
)
    ensures
        operation is Capture ==> operation_name(operation) == "capture"@,
        operation is Parse ==> operation_name(operation) == "parse"@,
        operation is Verify ==> operation_name(operation) == "verify"@,
        operation is Plan ==> operation_name(operation) == "plan"@,
        operation is Restore ==> operation_name(operation) == "restore"@,
        status is Partial ==> status_name(status) == "partial"@,
        status is Unsupported ==> status_name(status) == "unsupported"@,
        status is Skipped ==> status_name(status) == "skipped"@,
        status is Materialized ==> status_name(status) == "materialized"@,
        status is Failed ==> status_name(status) == "failed"@,
{
}

/// Two notes on a signature that are told alike are the same note.
pub proof fn law_notes_on_signatures_are_told_apart(a: RootAuthDiagnostic, b: RootAuthDiagnostic)
    ensures
        root_auth_name(a) == root_auth_name(b) ==> a == b,
        a is RootAuthContentVerified ==> root_auth_name(a) == "root_auth_content_verified"@,
        a is RootAuthDeferredFullArchiveScanRequired ==> root_auth_name(a)
            == "root_auth_deferred_full_archive_scan_required"@,
        a is AuthenticatedMetadataNotRootSigned ==> root_auth_name(a)
            == "authenticated_metadata_not_root_signed"@,
        a is RecoveryMarginNotRootAuthenticated ==> root_auth_name(a)
            == "recovery_margin_not_root_authenticated"@,
        a is ReplicatedGlobalCopyUncheckedDueToVolumeLoss ==> root_auth_name(a)
            == "replicated_global_copy_unchecked_due_to_volume_loss"@,
        a is RecoveryMarginChecked ==> root_auth_name(a) == "recovery_margin_checked"@,
        a is RecoveryMarginFailed ==> root_auth_name(a) == "recovery_margin_failed"@,
        a is RecoveryMarginUnchecked ==> root_auth_name(a) == "recovery_margin_unchecked"@,
{
    reveal_strlit("root_auth_content_verified");
    reveal_strlit("root_auth_deferred_full_archive_scan_required");
    reveal_strlit("authenticated_metadata_not_root_signed");
    reveal_strlit("recovery_margin_not_root_authenticated");
    reveal_strlit("replicated_global_copy_unchecked_due_to_volume_loss");
    reveal_strlit("recovery_margin_checked");
    reveal_strlit("recovery_margin_failed");
    reveal_strlit("recovery_margin_unchecked");
    assert("root_auth_content_verified"@.len() == 26);
    assert("root_auth_deferred_full_archive_scan_required"@.len() == 45);
    assert("authenticated_metadata_not_root_signed"@.len() == 38);
    assert("recovery_margin_not_root_authenticated"@.len() == 38);
    assert("replicated_global_copy_unchecked_due_to_volume_loss"@.len() == 51);
    assert("recovery_margin_checked"@.len() == 23);
    assert("recovery_margin_failed"@.len() == 22);
    assert("recovery_margin_unchecked"@.len() == 25);
    assert("authenticated_metadata_not_root_signed"@[0] == 'a');
    assert("recovery_margin_not_root_authenticated"@[0] == 'r');
}

/// Two notes on an archive without a key that are told alike are the same note.
pub proof fn law_notes_without_a_key_are_told_apart(
    a: PublicNoKeyDiagnostic,
    b: PublicNoKeyDiagnostic,
)
    ensures
        public_no_key_name(a) == public_no_key_name(b) ==> a == b,
        a is PublicDataBlockCommitmentVerified ==> public_no_key_name(a)
            == "public_data_block_commitment_verified"@,
        a is PublicPhysicalCompletenessUnverified ==> public_no_key_name(a)
            == "public_physical_completeness_unverified"@,
        a is PublicRecoveryMarginUnchecked ==> public_no_key_name(a)
            == "public_recovery_margin_unchecked"@,
{
    reveal_strlit("public_data_block_commitment_verified");
    reveal_strlit("public_physical_completeness_unverified");
    reveal_strlit("public_recovery_margin_unchecked");
    assert("public_data_block_commitment_verified"@.len() == 37);
    assert("public_physical_completeness_unverified"@.len() == 39);
    assert("public_recovery_margin_unchecked"@.len() == 32);
}

} // verus!
