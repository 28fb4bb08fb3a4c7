//! Preparing an archive to be written: its sources, its key, whom the key is
//! wrapped for, where the volumes go, and who signs.
use crate::failure::IoFailure;
#[allow(unused_imports)]
use crate::text::texts;
use crate::tzap::create::{
    ArchiveManifest, CollectedSources, TzapCreateOptions, TzapKeySource, WriterPlan, check_split,
    collect_archive_sources, create_key_material, writer_plan,
};
#[allow(unused_imports)]
use crate::tzap::create::{
    CollectedView, SourceScope, collected, is_material_of, plan_of, split_fault,
};
use crate::tzap::error::TzapError;
#[allow(unused_imports)]
use crate::tzap::error::TzapFault;
use crate::tzap::inventory::{TzapX509SigningOptions, copy_byte_strings, copy_bytes};
#[allow(unused_imports)]
use crate::tzap::inventory::byte_strings;
use crate::tzap::keys::KdfParams;
#[allow(unused_imports)]
use crate::tzap::keys::random_answer;
use crate::tzap::recipients::{
    RecipientRecord, SigningParts, SigningSource, build_recipient_records, load_x509_signer,
};
#[allow(unused_imports)]
use crate::tzap::recipients::{
    is_signer_of, recipient_count, recipients_fault, signer_outcome, wraps_for_recipients,
};
use crate::tzap::root_auth::{CertificateFile, ClockReading, read_file, read_files};
#[allow(unused_imports)]
use crate::tzap::root_auth::{are_read_from, read_result};
use crate::tzap::sink::TzapArchiveFileSink;
use crate::tzap::volumes::{SiblingFile, VolumeCandidate, existing_tzap_volume_paths};
#[allow(unused_imports)]
use crate::tzap::volumes::{FileView, candidate_views, existing_volumes};
use vstd::prelude::*;

verus! {

/// What the caller found before the archive is written.
pub struct PrepareInputs {
    /// Whether the job was cancelled before it began.
    pub cancelled_at_start: bool,
    /// The entry at which the job is found cancelled.
    pub cancelled_from: Option<usize>,
    /// Whether the metadata of each entry could be read.
    pub captured: Vec<Result<(), TzapError>>,
    /// Whether the job was cancelled when the sources were collected.
    pub cancelled_after_collecting: bool,
    /// The certificate files of the recipients.
    pub recipient_files: Vec<CertificateFile>,
    /// The listing of the directory that the archive goes to.
    pub listing: Result<Vec<SiblingFile>, IoFailure>,
    /// The files that the signing options name.
    pub signing_files: Vec<CertificateFile>,
    /// What the clock says.
    pub clock: ClockReading,
}

/// An archive that is ready to be written.
pub struct PreparedArchive {
    /// What is written.
    pub sources: CollectedSources,
    /// What the writer is told.
    pub plan: WriterPlan,
    /// The key of the archive.
    pub master_key: [u8; 32],
    /// How the key is made from a passphrase.
    pub kdf: KdfParams,
    /// The key, wrapped for each recipient.
    pub records: Option<Vec<RecipientRecord>>,
    /// Where the volumes go.
    pub sink: TzapArchiveFileSink,
    /// Who signs.
    pub signer: Option<tzap_plugin_signing::x509_chain::X509RootAuthSigner>,
}

/// Whether a list holds the certificate files that a key source names, in order.
pub open spec fn are_files_of(
    list: Seq<CertificateFile>,
    source: TzapKeySource,
    files: Seq<CertificateFile>,
) -> bool {
    match source {
        TzapKeySource::RecipientCertificate(path) => list.len() == 1 && list[0].path@ == path@
            && crate::codec::data_view(list[0].bytes) == read_result(files, path@),
        TzapKeySource::RecipientCertificates(paths) => are_read_from(list, texts(paths@), files),
        _ => list.len() == 0,
    }
}

/// The certificate files that a key source names.
pub fn recipient_files_of(source: &TzapKeySource, files: &Vec<CertificateFile>) -> (list: Vec<
    CertificateFile,
>)
    ensures
        are_files_of(list@, *source, files@),
{
    match source {
        TzapKeySource::RecipientCertificate(path) => {
            let mut list: Vec<CertificateFile> = Vec::new();
            list.push(read_file(files, path.as_str()));
            list
        },
        TzapKeySource::RecipientCertificates(paths) => read_files(files, paths),
        _ => Vec::new(),
    }
}

/// Whether a source is the one that signing options name.
pub open spec fn is_source_of(
    source: SigningSource,
    options: TzapX509SigningOptions,
    files: Seq<CertificateFile>,
) -> bool {
    match (options, source) {
        (
            TzapX509SigningOptions::Pkcs12 { identity, password },
            SigningSource::Pkcs12 { identity: file, password: given },
        ) => file.path@ == identity@ && given@ == password@ && crate::codec::data_view(file.bytes)
            == read_result(files, identity@),
        (
            TzapX509SigningOptions::CertificateAndKey {
                certificate_path,
                private_key_path,
                chain_paths,
            },
            SigningSource::CertificateAndKey { certificate, private_key, chain },
        ) => {
            &&& certificate.path@ == certificate_path@
            &&& crate::codec::data_view(certificate.bytes) == read_result(files, certificate_path@)
            &&& private_key.path@ == private_key_path@
            &&& crate::codec::data_view(private_key.bytes) == read_result(files, private_key_path@)
            &&& are_read_from(chain@, texts(chain_paths@), files)
        },
        (
            TzapX509SigningOptions::InMemory {
                signing_certificate,
                signing_private_key,
                signing_chain,
            },
            SigningSource::InMemory { parts },
        ) => parts.leaf@ == signing_certificate@ && parts.private_key@ == signing_private_key@
            && byte_strings(parts.chain@) == byte_strings(signing_chain@),
        _ => false,
    }
}

/// The source that signing options name.
pub fn signing_source(options: &TzapX509SigningOptions, files: &Vec<CertificateFile>) -> (source:
    SigningSource)
    ensures
        is_source_of(source, *options, files@),
{
    match options {
        TzapX509SigningOptions::Pkcs12 { identity, password } => SigningSource::Pkcs12 {
            identity: read_file(files, identity.as_str()),
            password: password.clone(),
        },
        TzapX509SigningOptions::CertificateAndKey {
            certificate_path,
            private_key_path,
            chain_paths,
        } => SigningSource::CertificateAndKey {
            certificate: read_file(files, certificate_path.as_str()),
            private_key: read_file(files, private_key_path.as_str()),
            chain: read_files(files, chain_paths),
        },
        TzapX509SigningOptions::InMemory {
            signing_certificate,
            signing_private_key,
            signing_chain,
        } => SigningSource::InMemory {
            parts: SigningParts {
                leaf: copy_bytes(signing_certificate),
                private_key: copy_bytes(signing_private_key),
                chain: copy_byte_strings(signing_chain),
            },
        },
    }
}

/// What collecting the sources of a job comes to.
pub open spec fn collected_for(
    manifest: ArchiveManifest,
    options: TzapCreateOptions,
    inputs: PrepareInputs,
) -> Result<CollectedView, TzapFault> {
    collected(
        manifest.entries@,
        options.preserve_metadata,
        SourceScope::AllEntries,
        inputs.captured@,
        inputs.cancelled_from,
        manifest.entries@.len(),
    )
}

/// Why a job ends before its key is made, if it does.
pub open spec fn early_fault(
    manifest: ArchiveManifest,
    options: TzapCreateOptions,
    inputs: PrepareInputs,
) -> Option<TzapFault> {
    if inputs.cancelled_at_start {
        Some(TzapFault::Cancelled)
    } else if split_fault(options) is Some {
        split_fault(options)
    } else {
        match collected_for(manifest, options, inputs) {
            Err(fault) => Some(fault),
            Ok(_) => if inputs.cancelled_after_collecting {
                Some(TzapFault::Cancelled)
            } else {
                None
            },
        }
    }
}

fn collect(manifest: &ArchiveManifest, options: &TzapCreateOptions, inputs: &PrepareInputs) -> (r:
    Result<CollectedSources, TzapError>)
    requires
        inputs.captured@.len() == manifest.entries@.len(),
    ensures
        match r {
            Ok(sources) => early_fault(*manifest, *options, *inputs) is None && collected_for(
                *manifest,
                *options,
                *inputs,
            ) == Ok::<CollectedView, TzapFault>(sources@),
            Err(e) => early_fault(*manifest, *options, *inputs) == Some(e@),
        },
{
    if inputs.cancelled_at_start {
        return Err(TzapError::Cancelled);
    }
    match check_split(options) {
        Ok(_) => {},
        Err(e) => {
            return Err(e);
        },
    }
    let sources: CollectedSources = match collect_archive_sources(
        manifest,
        options,
        &inputs.captured,
        inputs.cancelled_from,
    ) {
        Ok(sources) => sources,
        Err(e) => {
            return Err(e);
        },
    };
    if inputs.cancelled_after_collecting {
        return Err(TzapError::Cancelled);
    }
    Ok(sources)
}

/// The paths of a list of files.
pub open spec fn names_of(files: Seq<FileView>) -> Seq<Seq<char>> {
    files.map_values(|f: FileView| f.name)
}

fn candidate_paths(list: &Vec<VolumeCandidate>) -> (paths: Vec<String>)
    ensures
        texts(paths@) == names_of(candidate_views(list@)),
{
    let mut paths: Vec<String> = Vec::new();
    let mut i: usize = 0;
    while i < list.len()
        invariant
            i == paths@.len(),
            i <= list@.len(),
            forall|k: int| 0 <= k < i ==> (#[trigger] paths@[k])@ == list@[k].path@,
        decreases list@.len() - i,
    {
        let path: String = list[i].path.clone();
        paths.push(path);
        i = i + 1;
    }
    assert(texts(paths@) =~= names_of(candidate_views(list@)));
    paths
}

/// Where the volumes of a new archive go.
pub fn prepare_sink(
    destination: &str,
    options: &TzapCreateOptions,
    listing: &Result<Vec<SiblingFile>, IoFailure>,
) -> (sink: Result<TzapArchiveFileSink, TzapError>)
    ensures
        match (sink, existing_volumes(destination@, *listing)) {
            (Err(e), existing) => existing == Err::<Seq<FileView>, TzapFault>(e@),
            (Ok(sink), Ok(files)) => {
                &&& sink.destination@ == destination@
                &&& sink.replace_existing == options.replace_existing
                &&& sink.emit_bootstrap_sidecar == options.emit_bootstrap_sidecar
                &&& texts(sink.existing_volume_paths@) == names_of(files)
                &&& sink.volume_paths@.len() == 0
                &&& sink.outputs == 0
                &&& sink.bootstrap_sidecar is None
            },
            (Ok(_), Err(_)) => false,
        },
{
    let existing: Result<Vec<String>, TzapError> = match existing_tzap_volume_paths(
        destination,
        listing,
    ) {
        Ok(found) => Ok(candidate_paths(&found)),
        Err(e) => Err(e),
    };
    TzapArchiveFileSink::new(
        destination,
        options.replace_existing,
        options.emit_bootstrap_sidecar,
        existing,
    )
}

/// Whether an archive that was made ready holds what its options, its sources and
/// its files say, with the given key, and its records are what wrapping the key for
/// the recipients comes to.
pub open spec fn is_ready(
    prepared: PreparedArchive,
    manifest: ArchiveManifest,
    destination: Seq<char>,
    options: TzapCreateOptions,
    inputs: PrepareInputs,
) -> bool {
    &&& collected_for(manifest, options, inputs) == Ok::<CollectedView, TzapFault>(
        prepared.sources@,
    )
    &&& is_material_of(
        options.key_source,
        Ok((prepared.master_key@, prepared.kdf@)),
    )
    &&& prepared.plan.same_settings(plan_of(options))
    &&& exists|files: Seq<CertificateFile>| #[trigger]
        are_files_of(files, options.key_source, inputs.recipient_files@) && wraps_for_recipients(
            Ok(prepared.records),
            options,
            prepared.master_key@,
            prepared.plan,
            files,
        )
    &&& recipient_count(options.key_source) is None ==> prepared.plan == plan_of(options)
    &&& recipient_count(options.key_source) is Some ==> random_answer(
        16,
        (prepared.plan.archive_uuid->0)@,
    ) && random_answer(16, (prepared.plan.session_id->0)@)
    &&& prepared.sink.destination@ == destination
    &&& prepared.sink.replace_existing == options.replace_existing
    &&& prepared.sink.emit_bootstrap_sidecar == options.emit_bootstrap_sidecar
    &&& existing_volumes(destination, inputs.listing) matches Ok(files) && texts(
        prepared.sink.existing_volume_paths@,
    ) == names_of(files)
    &&& prepared.sink.volume_paths@.len() == 0
    &&& prepared.sink.outputs == 0
    &&& prepared.sink.bootstrap_sidecar is None
    &&& prepared.signer is Some <==> options.x509_signing is Some
    &&& options.x509_signing matches Some(signing) ==> signs(signing, inputs, None)
        && (prepared.signer matches Some(signer) ==> signs_with(signing, inputs, signer))
}

/// Whether a signer was made of the material that some options name.
pub open spec fn signs_with(
    signing: TzapX509SigningOptions,
    inputs: PrepareInputs,
    signer: tzap_plugin_signing::x509_chain::X509RootAuthSigner,
) -> bool {
    exists|source: SigningSource| #[trigger]
        is_source_of(source, signing, inputs.signing_files@) && is_signer_of(
            signer,
            source,
            inputs.clock,
        )
}

/// Whether making the signer that some options name can come to `fault`, or to a
/// signer where there is none.
pub open spec fn signs(
    signing: TzapX509SigningOptions,
    inputs: PrepareInputs,
    fault: Option<TzapFault>,
) -> bool {
    exists|source: SigningSource| #[trigger]
        is_source_of(source, signing, inputs.signing_files@) && signer_outcome(
            source,
            inputs.clock,
            fault,
        )
}

/// Whether a job can end with `fault` after its sources were collected. The key is
/// made first, and then come the recipients, the files that are in the way, and the
/// signer.
pub open spec fn fails_with(
    fault: TzapFault,
    destination: Seq<char>,
    options: TzapCreateOptions,
    inputs: PrepareInputs,
) -> bool {
    ||| is_material_of(options.key_source, Err(fault))
    ||| exists|key: Seq<u8>, plan: WriterPlan, files: Seq<CertificateFile>, e: TzapError|
        are_files_of(files, options.key_source, inputs.recipient_files@) && e@ == fault
            && #[trigger] wraps_for_recipients(Err(e), options, key, plan, files)
    ||| existing_volumes(destination, inputs.listing) == Err::<Seq<FileView>, TzapFault>(fault)
    ||| existing_volumes(destination, inputs.listing) is Ok && (options.x509_signing matches Some(
        signing,
    ) && signs(signing, inputs, Some(fault)))
}

/// Makes everything ready that an archive is written from.
///
/// Keys and identifiers are random, certificates and signing keys are for OpenSSL
/// to judge, and so the contract says what was asked of it, what the parts hold
/// apart from that, and which failures come first. A job without a password and
/// without a signer fails for none of these reasons.
pub fn prepare_tzap_create(
    manifest: &ArchiveManifest,
    destination: &str,
    options: &TzapCreateOptions,
    inputs: &PrepareInputs,
) -> (prepared: Result<PreparedArchive, TzapError>)
    requires
        inputs.captured@.len() == manifest.entries@.len(),
    ensures
        early_fault(*manifest, *options, *inputs) matches Some(fault) ==> (prepared matches Err(e)
            && e@ == fault),
        early_fault(*manifest, *options, *inputs) is None && !(options.key_source is Passphrase)
            ==> (recipients_fault(*options) matches Some(fault) ==> (prepared matches Err(e) && e@
            == fault)),
        early_fault(*manifest, *options, *inputs) is None && options.key_source is NoPassword ==> (
        existing_volumes(destination@, inputs.listing) matches Err(fault) ==> (prepared matches Err(
            e,
        ) && e@ == fault)),
        early_fault(*manifest, *options, *inputs) is None && options.key_source is NoPassword
            && existing_volumes(destination@, inputs.listing) is Ok && options.x509_signing is None
            ==> prepared is Ok,
        match prepared {
            Ok(p) => is_ready(p, *manifest, destination@, *options, *inputs),
            Err(e) => early_fault(*manifest, *options, *inputs) is Some || fails_with(
                e@,
                destination@,
                *options,
                *inputs,
            ),
        },
{
    let sources: CollectedSources = match collect(manifest, options, inputs) {
        Ok(sources) => sources,
        Err(e) => {
            return Err(e);
        },
    };
    let mut plan: WriterPlan = writer_plan(options);
    let (master_key, kdf) = match create_key_material(&options.key_source) {
        Ok(material) => material,
        Err(e) => {
            return Err(e);
        },
    };
    let files: Vec<CertificateFile> = recipient_files_of(
        &options.key_source,
        &inputs.recipient_files,
    );
    let records: Option<Vec<RecipientRecord>> = match build_recipient_records(
        options,
        &master_key,
        &mut plan,
        &files,
    ) {
        Ok(records) => records,
        Err(e) => {
            assert(wraps_for_recipients(Err(e), *options, master_key@, plan, files@));
            return Err(e);
        },
    };
    let sink: TzapArchiveFileSink = match prepare_sink(destination, options, &inputs.listing) {
        Ok(sink) => sink,
        Err(e) => {
            return Err(e);
        },
    };
    let signer: Option<tzap_plugin_signing::x509_chain::X509RootAuthSigner> =
        match &options.x509_signing {
        Some(signing) => {
            let source: SigningSource = signing_source(signing, &inputs.signing_files);
            assert(is_source_of(source, *signing, inputs.signing_files@));
            match load_x509_signer(&source, &inputs.clock) {
                Ok(signer) => Some(signer),
                Err(e) => {
                    return Err(e);
                },
            }
        },
        None => None,
    };
    Ok(PreparedArchive { sources, plan, master_key, kdf, records, sink, signer })
}

/// An archive is signed with the files that were named for it: the certificate from the
/// path of the certificate, the key from the path of the key, and the chain in order.
pub proof fn law_signing_files_are_read_from_their_paths(
    source: SigningSource,
    certificate_path: String,
    private_key_path: String,
    chain_paths: Vec<String>,
    files: Seq<CertificateFile>,
)
    requires
        is_source_of(
            source,
            TzapX509SigningOptions::CertificateAndKey {
                certificate_path,
                private_key_path,
                chain_paths,
            },
            files,
        ),
    ensures
        source matches SigningSource::CertificateAndKey { certificate, private_key, chain } && {
            &&& certificate.path@ == certificate_path@
            &&& crate::codec::data_view(certificate.bytes) == read_result(files, certificate_path@)
            &&& private_key.path@ == private_key_path@
            &&& crate::codec::data_view(private_key.bytes) == read_result(files, private_key_path@)
            &&& chain@.len() == chain_paths@.len()
            &&& forall|k: int|
                0 <= k < chain@.len() ==> (#[trigger] chain@[k]).path@ == chain_paths@[k]@
                    && crate::codec::data_view(chain@[k].bytes) == read_result(
                    files,
                    chain_paths@[k]@,
                )
        },
{
    let paths = texts(chain_paths@);
    assert forall|k: int| 0 <= k < chain_paths@.len() implies #[trigger] paths[k]
        == chain_paths@[k]@ by {}
}

/// An archive is signed with the parts that were given for it: each part is used as what
/// it was given as.
pub proof fn law_signing_parts_are_used_as_given(
    source: SigningSource,
    signing_certificate: Vec<u8>,
    signing_private_key: Vec<u8>,
    signing_chain: Vec<Vec<u8>>,
    files: Seq<CertificateFile>,
)
    requires
        is_source_of(
            source,
            TzapX509SigningOptions::InMemory {
                signing_certificate,
                signing_private_key,
                signing_chain,
            },
            files,
        ),
    ensures
        source matches SigningSource::InMemory { parts } && {
            &&& parts.leaf@ == signing_certificate@
            &&& parts.private_key@ == signing_private_key@
            &&& parts.chain@.len() == signing_chain@.len()
            &&& forall|k: int|
                0 <= k < parts.chain@.len() ==> (#[trigger] parts.chain@[k])@ == signing_chain@[k]@
        },
{
    if let SigningSource::InMemory { parts } = source {
        let own = byte_strings(parts.chain@);
        let given = byte_strings(signing_chain@);
        assert(own.len() == parts.chain@.len() && given.len() == signing_chain@.len());
        assert forall|k: int| 0 <= k < parts.chain@.len() implies (#[trigger] parts.chain@[k])@
            == signing_chain@[k]@ by {
            assert(own[k] == parts.chain@[k]@ && given[k] == signing_chain@[k]@);
        }
    }
}

/// Identities in a file are read from its path and opened with the password that was
/// given.
pub proof fn law_identities_are_opened_with_their_password(
    source: SigningSource,
    identity: String,
    password: String,
    files: Seq<CertificateFile>,
)
    requires
        is_source_of(source, TzapX509SigningOptions::Pkcs12 { identity, password }, files),
    ensures
        source matches SigningSource::Pkcs12 { identity: file, password: given } && file.path@
            == identity@ && given@ == password@ && crate::codec::data_view(file.bytes)
            == read_result(files, identity@),
{
}

/// A job that is cancelled before it begins does nothing else; one that is cancelled when
/// its sources are collected ends there.
pub proof fn law_cancelled_jobs_end(
    manifest: ArchiveManifest,
    options: TzapCreateOptions,
    inputs: PrepareInputs,
)
    ensures
        inputs.cancelled_at_start ==> early_fault(manifest, options, inputs) == Some(
            TzapFault::Cancelled,
        ),
        inputs.cancelled_after_collecting ==> early_fault(manifest, options, inputs) is Some,
        early_fault(manifest, options, inputs) is None <==> {
            &&& !inputs.cancelled_at_start
            &&& !inputs.cancelled_after_collecting
            &&& split_fault(options) is None
            &&& collected(
                manifest.entries@,
                options.preserve_metadata,
                SourceScope::AllEntries,
                inputs.captured@,
                inputs.cancelled_from,
                manifest.entries@.len(),
            ) is Ok
        },
{
}

/// A prepared archive holds every source of the manifest, has a signer where signing was
/// asked for, and is to be written to its destination, where nothing has been written.
pub proof fn law_prepared_archives_hold_what_was_asked_for(
    prepared: PreparedArchive,
    manifest: ArchiveManifest,
    destination: Seq<char>,
    options: TzapCreateOptions,
    inputs: PrepareInputs,
)
    requires
        is_ready(prepared, manifest, destination, options, inputs),
    ensures
        collected(
            manifest.entries@,
            options.preserve_metadata,
            SourceScope::AllEntries,
            inputs.captured@,
            inputs.cancelled_from,
            manifest.entries@.len(),
        ) == Ok::<CollectedView, TzapFault>(prepared.sources@),
        is_material_of(options.key_source, Ok((prepared.master_key@, prepared.kdf@))),
        prepared.sink.destination@ == destination,
        prepared.sink.replace_existing == options.replace_existing,
        prepared.sink.emit_bootstrap_sidecar == options.emit_bootstrap_sidecar,
        prepared.sink.volume_paths@.len() == 0,
        prepared.sink.outputs == 0,
        prepared.signer is Some <==> options.x509_signing is Some,
        existing_volumes(destination, inputs.listing) matches Ok(files) && files.len()
            == prepared.sink.existing_volume_paths@.len() && forall|k: int|
            0 <= k < files.len() ==> (#[trigger] prepared.sink.existing_volume_paths@[k])@
                == files[k].name,
{
    let files = existing_volumes(destination, inputs.listing)->Ok_0;
    let paths = prepared.sink.existing_volume_paths@;
    assert(texts(paths).len() == paths.len());
    assert(names_of(files).len() == files.len());
    assert forall|k: int| 0 <= k < files.len() implies (#[trigger] paths[k])@ == files[k].name by {
        assert(texts(paths)[k] == paths[k]@);
        assert(names_of(files)[k] == files[k].name);
    }
}

/// The certificates of the recipients are read from the paths that the key source names,
/// in order; other key sources name none.
pub proof fn law_recipient_files_are_read_from_their_paths(
    list: Seq<CertificateFile>,
    source: TzapKeySource,
    files: Seq<CertificateFile>,
)
    requires
        are_files_of(list, source, files),
    ensures
        source matches TzapKeySource::RecipientCertificate(path) ==> list.len() == 1
            && list[0].path@ == path@ && crate::codec::data_view(list[0].bytes) == read_result(
            files,
            path@,
        ),
        source matches TzapKeySource::RecipientCertificates(paths) ==> list.len() == paths@.len()
            && forall|k: int|
            0 <= k < list.len() ==> (#[trigger] list[k]).path@ == paths@[k]@
                && crate::codec::data_view(list[k].bytes) == read_result(files, paths@[k]@),
        !(source is RecipientCertificate) && !(source is RecipientCertificates) ==> list.len() == 0,
{
    if let TzapKeySource::RecipientCertificates(paths) = source {
        assert forall|k: int| 0 <= k < paths@.len() implies #[trigger] texts(paths@)[k]
            == paths@[k]@ by {}
    }
}

} // verus!
