//! Creating an archive: what is written, how it is split and protected, and what
//! the job reports.
use crate::text::{concat3, same_text};
#[allow(unused_imports)]
use crate::text::texts;
use crate::tzap::error::{FormatFault, TzapError, writer_invariant, writer_unsupported};
#[allow(unused_imports)]
use crate::tzap::error::{FormatFaultView, TzapFault};
use crate::tzap::inventory::{TzapX509SigningOptions, copy_bytes};
use crate::tzap::keys::{
    KdfParams, create_kdf_params, derive_from_passphrase, placeholder_master_key, random_bytes,
};
#[allow(unused_imports)]
use crate::tzap::keys::{
    DEFAULT_ARGON2_SALT_LEN, KdfView, new_kdf, open_plan, passphrase_key, placeholder_key, random_answer,
};
use crate::tzap::progress::{JobEvent, TzapEntryProgress, push_event};
#[allow(unused_imports)]
use crate::tzap::progress::{
    EventView, SlotView, closed_slots, closing_events, event_views, pair_views, slots_for,
};
use crate::tzap::sink::{WriteFault, tzap_write_error};
#[allow(unused_imports)]
use crate::tzap::sink::from_write_fault;
use vstd::prelude::*;

verus! {

/// Key source for `.tzap` creation and opening.
#[derive(Debug, PartialEq, Eq)]
pub enum TzapKeySource {
    /// Derive the archive master key from a passphrase with Argon2id.
    Passphrase(String),
    /// Wrap a random archive master key to one X.509 recipient certificate.
    RecipientCertificate(String),
    /// Wrap a random archive master key to multiple X.509 recipient certificates.
    RecipientCertificates(Vec<String>),
    /// Wrap a random archive master key to multiple recipient public keys.
    RecipientPublicKeys(Vec<Vec<u8>>),
    /// Create the archive without password-based encryption.
    NoPassword,
}

impl TzapKeySource {
    /// Returns whether this key source uses secret user input.
    pub fn uses_secret(&self) -> (secret: bool)
        ensures
            secret == (self is Passphrase),
    {
        match self {
            TzapKeySource::Passphrase(_) => true,
            _ => false,
        }
    }
}

/// Options for creating an archive.
#[derive(Debug, PartialEq, Eq)]
pub struct TzapCreateOptions {
    /// Archive key source.
    pub key_source: TzapKeySource,
    /// Zstd compression level.
    pub level: i32,
    /// Preserve portable metadata such as mode bits and modification time.
    pub preserve_metadata: bool,
    /// Replace an existing destination archive at commit time.
    pub replace_existing: bool,
    /// Split output into TZAP volumes of this size when present. Mutually
    /// exclusive with `volume_count`.
    pub volume_size: Option<u64>,
    /// Split output into exactly this many TZAP volumes (striped rather than
    /// size-targeted) when present. Mutually exclusive with `volume_size`.
    pub volume_count: Option<u32>,
    /// Percent of archive data reserved for bit-rot recovery structures.
    pub recovery_percentage: u8,
    /// Number of missing output volumes the archive should tolerate.
    pub volume_loss_tolerance: u8,
    /// X.509 `RootAuth` signing configuration.
    pub x509_signing: Option<TzapX509SigningOptions>,
    /// Emit bootstrap sidecar file beside output.
    pub emit_bootstrap_sidecar: bool,
}

/// What the archive writer is told.
#[derive(Clone, Copy, Debug, PartialEq, Eq)]
pub struct WriterPlan {
    /// How many volumes the data is spread over.
    pub stripe_width: u32,
    pub volume_loss_tolerance: u8,
    pub bit_rot_buffer_pct: u8,
    pub target_volume_size: Option<u64>,
    pub zstd_level: i32,
    /// Whether the closing time is left out.
    pub without_closing_time: bool,
    /// Whether the contents are left unencrypted.
    pub unencrypted: bool,
    /// The identifiers of the archive, once they are chosen.
    pub archive_uuid: Option<[u8; 16]>,
    pub session_id: Option<[u8; 16]>,
}

impl WriterPlan {
    /// Whether two plans differ in the identifiers at most.
    pub open spec fn same_settings(&self, other: WriterPlan) -> bool {
        &&& self.stripe_width == other.stripe_width
        &&& self.volume_loss_tolerance == other.volume_loss_tolerance
        &&& self.bit_rot_buffer_pct == other.bit_rot_buffer_pct
        &&& self.target_volume_size == other.target_volume_size
        &&& self.zstd_level == other.zstd_level
        &&& self.without_closing_time == other.without_closing_time
        &&& self.unencrypted == other.unencrypted
    }
}

/// Why an archive cannot be split as asked, if it cannot.
pub open spec fn split_fault(options: TzapCreateOptions) -> Option<TzapFault> {
    if options.volume_size is Some && (options.volume_count matches Some(count) && count > 1) {
        Some(
            TzapFault::Format(
                FormatFaultView::WriterUnsupported(
                    "volume_size and volume_count are mutually exclusive"@,
                ),
            ),
        )
    } else {
        None
    }
}

/// Checks that an archive can be split as asked.
pub fn check_split(options: &TzapCreateOptions) -> (r: Result<(), TzapError>)
    ensures
        match r {
            Ok(_) => split_fault(*options) is None,
            Err(e) => split_fault(*options) == Some(e@),
        },
{
    let sized: bool = match options.volume_size {
        Some(_) => true,
        None => false,
    };
    let split: bool = match options.volume_count {
        Some(count) => count > 1,
        None => false,
    };
    if sized && split {
        return Err(writer_unsupported("volume_size and volume_count are mutually exclusive"));
    }
    Ok(())
}

/// What the archive writer is told for some options, before any identifier was
/// chosen: one volume unless more are asked for, no closing time where metadata is
/// left out, and no encryption without a password.
pub open spec fn plan_of(options: TzapCreateOptions) -> WriterPlan {
    WriterPlan {
        stripe_width: match options.volume_count {
            Some(count) => if count == 0 {
                1u32
            } else {
                count
            },
            None => 1u32,
        },
        volume_loss_tolerance: options.volume_loss_tolerance,
        bit_rot_buffer_pct: options.recovery_percentage,
        target_volume_size: options.volume_size,
        zstd_level: options.level,
        without_closing_time: !options.preserve_metadata,
        unencrypted: options.key_source is NoPassword,
        archive_uuid: None,
        session_id: None,
    }
}

/// What the archive writer is told for some options.
pub fn writer_plan(options: &TzapCreateOptions) -> (plan: WriterPlan)
    ensures
        plan == plan_of(*options),
{
    let stripe_width: u32 = match options.volume_count {
        Some(count) => if count == 0 {
            1
        } else {
            count
        },
        None => 1,
    };
    let unencrypted: bool = match &options.key_source {
        TzapKeySource::NoPassword => true,
        _ => false,
    };
    WriterPlan {
        stripe_width,
        volume_loss_tolerance: options.volume_loss_tolerance,
        bit_rot_buffer_pct: options.recovery_percentage,
        target_volume_size: options.volume_size,
        zstd_level: options.level,
        without_closing_time: !options.preserve_metadata,
        unencrypted,
        archive_uuid: None,
        session_id: None,
    }
}

/// A random master key: all that the generator gave, in order.
pub fn generate_random_master_key() -> (key: [u8; 32])
    ensures
        random_answer(32, key@),
{
    let drawn: Vec<u8> = random_bytes(32);
    let mut key: [u8; 32] = [0;32];
    let mut i: usize = 0;
    while i < 32
        invariant
            i <= 32,
            drawn@.len() == 32,
            forall|k: int| 0 <= k < i ==> key@[k] == drawn@[k],
        decreases 32 - i,
    {
        key[i] = drawn[i];
        i = i + 1;
    }
    assert(key@ =~= drawn@);
    key
}

/// A key with its parameters, and an error, taken by their views.
pub open spec fn material_result(r: Result<([u8; 32], KdfParams), TzapError>) -> Result<
    (Seq<u8>, KdfView),
    TzapFault,
> {
    match r {
        Ok((key, kdf)) => Ok((key@, kdf@)),
        Err(e) => Err(e@),
    }
}

/// Whether a key and its parameters are those of a new archive: a passphrase gives
/// the key with some fresh salt, recipients get a random key of thirty-two bytes, and
/// without a password it is the placeholder.
pub open spec fn is_material_of(
    source: TzapKeySource,
    material: Result<(Seq<u8>, KdfView), TzapFault>,
) -> bool {
    match source {
        TzapKeySource::Passphrase(passphrase) => exists|salt: Seq<u8>|
            salt.len() == DEFAULT_ARGON2_SALT_LEN && random_answer(DEFAULT_ARGON2_SALT_LEN, salt)
                && material == #[trigger] passphrase_material(salt, passphrase@),
        TzapKeySource::NoPassword => material == Ok::<(Seq<u8>, KdfView), TzapFault>(
            (placeholder_key(), KdfView::Unencrypted),
        ),
        _ => material matches Ok((key, kdf)) && key.len() == 32 && random_answer(32, key) && kdf
            == KdfView::Unencrypted,
    }
}

/// The key that a passphrase gives with some salt.
pub open spec fn passphrase_material(salt: Seq<u8>, passphrase: Seq<char>) -> Result<
    (Seq<u8>, KdfView),
    TzapFault,
> {
    match passphrase_key(new_kdf(salt), passphrase) {
        Ok(key) => Ok((key, new_kdf(salt))),
        Err(fault) => Err(fault),
    }
}

/// Makes the key of a new archive, and says how it is found again: a passphrase
/// gives it with fresh parameters, recipients get a random one, and without a
/// password it is the placeholder.
pub fn create_key_material(source: &TzapKeySource) -> (material: Result<
    ([u8; 32], KdfParams),
    TzapError,
>)
    ensures
        is_material_of(*source, material_result(material)),
{
    match source {
        TzapKeySource::Passphrase(passphrase) => {
            let kdf: KdfParams = create_kdf_params();
            let ghost salt = choose|salt: Seq<u8>|
                salt.len() == DEFAULT_ARGON2_SALT_LEN && random_answer(
                    DEFAULT_ARGON2_SALT_LEN,
                    salt,
                ) && kdf@ == #[trigger] new_kdf(salt);
            let material: Result<([u8; 32], KdfParams), TzapError> = match derive_from_passphrase(
                &kdf,
                passphrase.as_str(),
            ) {
                Ok(key) => Ok((key, kdf)),
                Err(e) => Err(e),
            };
            assert(material_result(material) == passphrase_material(salt, passphrase@));
            material
        },
        TzapKeySource::NoPassword => Ok((placeholder_master_key(), KdfParams::Unencrypted)),
        _ => Ok((generate_random_master_key(), KdfParams::Unencrypted)),
    }
}

/// What a manifest entry is.
#[derive(Clone, Copy, Debug, PartialEq, Eq, Structural)]
pub enum ManifestFileType {
    File,
    Directory,
    Symlink,
    Other,
}

/// A point in time.
#[derive(Clone, Copy, Debug, PartialEq, Eq, Structural)]
pub struct ArchiveTimestamp {
    pub seconds: i64,
    pub nanoseconds: u32,
}

/// One entry of a manifest.
#[derive(Debug, PartialEq, Eq)]
pub struct ManifestEntry {
    /// The path in the archive.
    pub archive_path: String,
    /// The path of the source.
    pub source_path: String,
    /// How many bytes it has.
    pub size: u64,
    /// What it is.
    pub file_type: ManifestFileType,
    /// Its permission bits, where they are known.
    pub unix_mode: Option<u32>,
    /// When it was changed, where that is known.
    pub modified: Option<ArchiveTimestamp>,
    /// What it links to, if it is a link.
    pub symlink_target: Option<Vec<u8>>,
}

/// What is archived, and what was noticed while finding it out.
#[derive(Debug, PartialEq, Eq)]
pub struct ArchiveManifest {
    pub entries: Vec<ManifestEntry>,
    pub warnings: Vec<String>,
    pub total_bytes: u64,
}

/// What an entry is in the archive.
#[derive(Clone, Copy, Debug, PartialEq, Eq, Structural)]
pub enum SourceEntryKind {
    Regular,
    Directory,
    Symlink,
}

/// One entry that is written.
#[derive(Debug, PartialEq, Eq)]
pub struct ArchiveSource {
    pub archive_path: String,
    pub source_path: String,
    pub kind: SourceEntryKind,
    pub link_target: Option<Vec<u8>>,
    pub size: u64,
    pub mode: u32,
    pub mtime: ArchiveTimestamp,
}

/// One entry that is written, with its texts and bytes taken as sequences.
pub struct SourceView {
    pub archive_path: Seq<char>,
    pub source_path: Seq<char>,
    pub kind: SourceEntryKind,
    pub link_target: Option<Seq<u8>>,
    pub size: u64,
    pub mode: u32,
    pub mtime: ArchiveTimestamp,
}

impl View for ArchiveSource {
    type V = SourceView;

    open spec fn view(&self) -> SourceView {
        SourceView {
            archive_path: self.archive_path@,
            source_path: self.source_path@,
            kind: self.kind,
            link_target: crate::tzap::keys::bytes_option(self.link_target),
            size: self.size,
            mode: self.mode,
            mtime: self.mtime,
        }
    }
}

/// The entries that are written.
pub open spec fn source_views(list: Seq<ArchiveSource>) -> Seq<SourceView> {
    list.map_values(|s: ArchiveSource| s@)
}

/// Which entries an archive takes.
#[derive(Clone, Copy, Debug, PartialEq, Eq, Structural)]
pub enum SourceScope {
    /// Files, directories and links.
    AllEntries,
    /// Files alone.
    RegularFiles,
}

/// What becomes of an entry.
pub enum Fate {
    /// It is written.
    Write,
    /// It is passed over in silence.
    Pass,
    /// It is left out with a warning.
    LeaveOut,
}

/// What becomes of an entry.
pub open spec fn fate(file_type: ManifestFileType, scope: SourceScope) -> Fate {
    match (file_type, scope) {
        (ManifestFileType::File, _) => Fate::Write,
        (ManifestFileType::Other, _) => Fate::LeaveOut,
        (_, SourceScope::AllEntries) => Fate::Write,
        (ManifestFileType::Directory, SourceScope::RegularFiles) => Fate::Pass,
        (ManifestFileType::Symlink, SourceScope::RegularFiles) => Fate::LeaveOut,
    }
}

/// What is said of an entry that is left out.
pub open spec fn left_out_text(path: Seq<char>, scope: SourceScope) -> Seq<char> {
    "skipped "@ + path + (match scope {
        SourceScope::AllEntries => ": tzap backend does not write special files"@,
        SourceScope::RegularFiles => ": tzap backend currently writes regular files only"@,
    })
}

/// The permission bits that an entry has where its own are not kept.
pub open spec fn default_mode(file_type: ManifestFileType) -> u32 {
    if file_type == ManifestFileType::Directory {
        0o755
    } else {
        0o644
    }
}

/// The permission bits that are written for an entry.
pub open spec fn source_mode(entry: ManifestEntry, preserve: bool) -> u32 {
    if preserve {
        (match entry.unix_mode {
            Some(mode) => mode,
            None => default_mode(entry.file_type),
        }) & 0o7777
    } else {
        default_mode(entry.file_type)
    }
}

/// The beginning of the Unix epoch.
pub open spec fn epoch() -> ArchiveTimestamp {
    ArchiveTimestamp { seconds: 0, nanoseconds: 0 }
}

/// What is written for an entry.
pub open spec fn source_of(entry: ManifestEntry, preserve: bool) -> SourceView {
    SourceView {
        archive_path: entry.archive_path@,
        source_path: entry.source_path@,
        kind: match entry.file_type {
            ManifestFileType::Directory => SourceEntryKind::Directory,
            ManifestFileType::Symlink => SourceEntryKind::Symlink,
            _ => SourceEntryKind::Regular,
        },
        link_target: crate::tzap::keys::bytes_option(entry.symlink_target),
        size: if entry.file_type == ManifestFileType::File {
            entry.size
        } else {
            0
        },
        mode: source_mode(entry, preserve),
        mtime: match (preserve, entry.modified) {
            (true, Some(time)) => time,
            _ => epoch(),
        },
    }
}

fn make_source(entry: &ManifestEntry, preserve: bool) -> (source: ArchiveSource)
    ensures
        source@ == source_of(*entry, preserve),
{
    let kind: SourceEntryKind = match entry.file_type {
        ManifestFileType::Directory => SourceEntryKind::Directory,
        ManifestFileType::Symlink => SourceEntryKind::Symlink,
        _ => SourceEntryKind::Regular,
    };
    let fallback: u32 = if entry.file_type == ManifestFileType::Directory {
        0o755
    } else {
        0o644
    };
    let mode: u32 = if preserve {
        (match entry.unix_mode {
            Some(mode) => mode,
            None => fallback,
        }) & 0o7777
    } else {
        fallback
    };
    let mtime: ArchiveTimestamp = if preserve {
        match entry.modified {
            Some(time) => time,
            None => ArchiveTimestamp { seconds: 0, nanoseconds: 0 },
        }
    } else {
        ArchiveTimestamp { seconds: 0, nanoseconds: 0 }
    };
    let link_target: Option<Vec<u8>> = match &entry.symlink_target {
        Some(target) => Some(copy_bytes(target)),
        None => None,
    };
    ArchiveSource {
        archive_path: entry.archive_path.clone(),
        source_path: entry.source_path.clone(),
        kind,
        link_target,
        size: if entry.file_type == ManifestFileType::File {
            entry.size
        } else {
            0
        },
        mode,
        mtime,
    }
}

/// What was collected of a manifest so far.
pub struct CollectedView {
    pub sources: Seq<SourceView>,
    pub warnings: Seq<Seq<char>>,
    pub events: Seq<EventView>,
}

/// What was collected once one more entry was looked at. `captured` is what
/// reading its metadata came to, which is only asked for where it is kept.
pub open spec fn with_entry(
    so_far: CollectedView,
    entry: ManifestEntry,
    preserve: bool,
    scope: SourceScope,
    captured: Result<(), TzapError>,
) -> Result<CollectedView, TzapFault> {
    let path = entry.archive_path@;
    let begun = so_far.events.push(EventView::EntryStarted { path, size: entry.size });
    let ended = EventView::EntryFinished { path, bytes: 0 };
    match fate(entry.file_type, scope) {
        Fate::Write => match captured {
            Err(e) if preserve => Err(e@),
            _ => Ok(
                CollectedView {
                    sources: so_far.sources.push(source_of(entry, preserve)),
                    warnings: so_far.warnings,
                    events: begun,
                },
            ),
        },
        Fate::Pass => Ok(
            CollectedView {
                sources: so_far.sources,
                warnings: so_far.warnings,
                events: begun.push(ended),
            },
        ),
        Fate::LeaveOut => Ok(
            CollectedView {
                sources: so_far.sources,
                warnings: so_far.warnings.push(left_out_text(path, scope)),
                events: begun.push(EventView::Warning(left_out_text(path, scope))).push(ended),
            },
        ),
    }
}

/// What was collected of the first `n` entries. The job stops at the entry
/// `cancelled_from`, if it is cancelled there.
pub open spec fn collected(
    entries: Seq<ManifestEntry>,
    preserve: bool,
    scope: SourceScope,
    captured: Seq<Result<(), TzapError>>,
    cancelled_from: Option<usize>,
    n: nat,
) -> Result<CollectedView, TzapFault>
    decreases n,
{
    if n == 0 {
        Ok(
            CollectedView {
                sources: Seq::empty(),
                warnings: Seq::empty(),
                events: Seq::empty(),
            },
        )
    } else {
        match collected(entries, preserve, scope, captured, cancelled_from, (n - 1) as nat) {
            Err(fault) => Err(fault),
            Ok(so_far) => if cancelled_from matches Some(k) && k <= n - 1 {
                Err(TzapFault::Cancelled)
            } else {
                with_entry(so_far, entries[n - 1], preserve, scope, captured[n - 1])
            },
        }
    }
}

proof fn lemma_collected_fails(
    entries: Seq<ManifestEntry>,
    preserve: bool,
    scope: SourceScope,
    captured: Seq<Result<(), TzapError>>,
    cancelled_from: Option<usize>,
    k: nat,
    n: nat,
)
    requires
        k <= n,
        collected(entries, preserve, scope, captured, cancelled_from, k) is Err,
    ensures
        collected(entries, preserve, scope, captured, cancelled_from, n) == collected(
            entries,
            preserve,
            scope,
            captured,
            cancelled_from,
            k,
        ),
    decreases n,
{
    if k < n {
        lemma_collected_fails(
            entries,
            preserve,
            scope,
            captured,
            cancelled_from,
            k,
            (n - 1) as nat,
        );
    }
}

/// What was collected of a manifest.
#[derive(Debug, PartialEq, Eq)]
pub struct CollectedSources {
    /// What is written.
    pub sources: Vec<ArchiveSource>,
    /// What is said of the entries that are not.
    pub warnings: Vec<String>,
    /// What the job tells meanwhile.
    pub events: Vec<JobEvent>,
}

impl View for CollectedSources {
    type V = CollectedView;

    open spec fn view(&self) -> CollectedView {
        CollectedView {
            sources: source_views(self.sources@),
            warnings: texts(self.warnings@),
            events: event_views(self.events@),
        }
    }
}

/// What was collected and an error, taken by their views.
pub open spec fn collected_result(r: Result<CollectedSources, TzapError>) -> Result<
    CollectedView,
    TzapFault,
> {
    match r {
        Ok(c) => Ok(c@),
        Err(e) => Err(e@),
    }
}

fn leave_out(so_far: &mut CollectedSources, path: &str, scope: SourceScope)
    ensures
        final(so_far).sources == old(so_far).sources,
        texts(final(so_far).warnings@) == texts(old(so_far).warnings@).push(
            left_out_text(path@, scope),
        ),
        event_views(final(so_far).events@) == event_views(old(so_far).events@).push(
            EventView::Warning(left_out_text(path@, scope)),
        ).push(EventView::EntryFinished { path: path@, bytes: 0 }),
{
    let ghost before = so_far.warnings@;
    let warning: String = match scope {
        SourceScope::AllEntries => concat3(
            "skipped ",
            path,
            ": tzap backend does not write special files",
        ),
        SourceScope::RegularFiles => concat3(
            "skipped ",
            path,
            ": tzap backend currently writes regular files only",
        ),
    };
    so_far.warnings.push(warning.clone());
    assert(texts(so_far.warnings@) =~= texts(before).push(warning@));
    push_event(&mut so_far.events, JobEvent::Warning(warning));
    push_event(
        &mut so_far.events,
        JobEvent::EntryFinished { path: path.to_owned(), bytes: 0 },
    );
}

fn decide(file_type: ManifestFileType, scope: SourceScope) -> (r: Fate)
    ensures
        r == fate(file_type, scope),
{
    match file_type {
        ManifestFileType::File => Fate::Write,
        ManifestFileType::Other => Fate::LeaveOut,
        ManifestFileType::Directory => match scope {
            SourceScope::AllEntries => Fate::Write,
            SourceScope::RegularFiles => Fate::Pass,
        },
        ManifestFileType::Symlink => match scope {
            SourceScope::AllEntries => Fate::Write,
            SourceScope::RegularFiles => Fate::LeaveOut,
        },
    }
}

/// Collects what an archive is made of. `captured` says of each entry whether
/// its metadata could be read, and `cancelled_from` names the entry at which the
/// job is found cancelled.
pub fn collect_sources(
    entries: &Vec<ManifestEntry>,
    preserve_metadata: bool,
    scope: SourceScope,
    captured: &Vec<Result<(), TzapError>>,
    cancelled_from: Option<usize>,
) -> (r: Result<CollectedSources, TzapError>)
    requires
        captured@.len() == entries@.len(),
    ensures
        collected_result(r) == collected(
            entries@,
            preserve_metadata,
            scope,
            captured@,
            cancelled_from,
            entries@.len(),
        ),
{
    let mut so_far = CollectedSources {
        sources: Vec::new(),
        warnings: Vec::new(),
        events: Vec::new(),
    };
    let mut i: usize = 0;
    assert(source_views(so_far.sources@) =~= Seq::<SourceView>::empty());
    assert(texts(so_far.warnings@) =~= Seq::<Seq<char>>::empty());
    assert(event_views(so_far.events@) =~= Seq::<EventView>::empty());
    while i < entries.len()
        invariant
            i <= entries@.len(),
            captured@.len() == entries@.len(),
            collected(
                entries@,
                preserve_metadata,
                scope,
                captured@,
                cancelled_from,
                i as nat,
            ) == Ok::<CollectedView, TzapFault>(so_far@),
        decreases entries@.len() - i,
    {
        let ghost before = so_far@;
        let ghost next = collected(
            entries@,
            preserve_metadata,
            scope,
            captured@,
            cancelled_from,
            (i + 1) as nat,
        );
        proof {
            if next is Err {
                lemma_collected_fails(
                    entries@,
                    preserve_metadata,
                    scope,
                    captured@,
                    cancelled_from,
                    (i + 1) as nat,
                    entries@.len(),
                );
            }
        }
        match cancelled_from {
            Some(k) => {
                if k <= i {
                    return Err(TzapError::Cancelled);
                }
            },
            None => {},
        }
        let entry: &ManifestEntry = &entries[i];
        assert(next == with_entry(before, *entry, preserve_metadata, scope, captured@[i as int]));
        push_event(
            &mut so_far.events,
            JobEvent::EntryStarted { path: entry.archive_path.clone(), size: entry.size },
        );
        match decide(entry.file_type, scope) {
            Fate::Write => {
                if preserve_metadata {
                    match &captured[i] {
                        Ok(_) => {},
                        Err(e) => {
                            return Err(e.copy());
                        },
                    }
                }
                let ghost list = so_far.sources@;
                let source: ArchiveSource = make_source(entry, preserve_metadata);
                so_far.sources.push(source);
                assert(source_views(so_far.sources@) =~= source_views(list).push(source@));
            },
            Fate::Pass => {
                push_event(
                    &mut so_far.events,
                    JobEvent::EntryFinished { path: entry.archive_path.clone(), bytes: 0 },
                );
            },
            Fate::LeaveOut => {
                leave_out(&mut so_far, entry.archive_path.as_str(), scope);
            },
        }
        assert(next == Ok::<CollectedView, TzapFault>(so_far@));
        i = i + 1;
    }
    Ok(so_far)
}

/// Collects the files, directories and links that an archive is made of.
pub fn collect_archive_sources(
    manifest: &ArchiveManifest,
    options: &TzapCreateOptions,
    captured: &Vec<Result<(), TzapError>>,
    cancelled_from: Option<usize>,
) -> (r: Result<CollectedSources, TzapError>)
    requires
        captured@.len() == manifest.entries@.len(),
    ensures
        collected_result(r) == collected(
            manifest.entries@,
            options.preserve_metadata,
            SourceScope::AllEntries,
            captured@,
            cancelled_from,
            manifest.entries@.len(),
        ),
{
    collect_sources(
        &manifest.entries,
        options.preserve_metadata,
        SourceScope::AllEntries,
        captured,
        cancelled_from,
    )
}

/// Collects the files that an archive of files alone is made of.
pub fn collect_regular_file_sources(
    manifest: &ArchiveManifest,
    options: &TzapCreateOptions,
    captured: &Vec<Result<(), TzapError>>,
    cancelled_from: Option<usize>,
) -> (r: Result<CollectedSources, TzapError>)
    requires
        captured@.len() == manifest.entries@.len(),
    ensures
        collected_result(r) == collected(
            manifest.entries@,
            options.preserve_metadata,
            SourceScope::RegularFiles,
            captured@,
            cancelled_from,
            manifest.entries@.len(),
        ),
{
    collect_sources(
        &manifest.entries,
        options.preserve_metadata,
        SourceScope::RegularFiles,
        captured,
        cancelled_from,
    )
}

/// The sources of a job as its progress sees them.
pub open spec fn planned(sources: Seq<SourceView>) -> Seq<(Seq<char>, u64)> {
    sources.map_values(|s: SourceView| (s.archive_path, s.size))
}

/// The progress of a job that has these sources to write.
pub fn entry_progress(sources: &Vec<ArchiveSource>) -> (progress: TzapEntryProgress)
    ensures
        progress@ == slots_for(planned(source_views(sources@))),
{
    let ghost wanted = planned(source_views(sources@));
    let mut pairs: Vec<(String, u64)> = Vec::new();
    let mut i: usize = 0;
    while i < sources.len()
        invariant
            i <= sources@.len(),
            i == pairs@.len(),
            forall|k: int|
                0 <= k < i ==> (#[trigger] pairs@[k]).0@ == sources@[k].archive_path@ && pairs@[k].1
                    == sources@[k].size,
        decreases sources@.len() - i,
    {
        pairs.push((sources[i].archive_path.clone(), sources[i].size));
        i = i + 1;
    }
    assert(pair_views(pairs@) =~= wanted);
    TzapEntryProgress::new(&pairs)
}

/// What is told of the first `n` sources when the writer is done.
pub open spec fn closing(slots: Seq<SlotView>, sources: Seq<(Seq<char>, u64)>) -> (
    Seq<SlotView>,
    Seq<EventView>,
)
    decreases sources.len(),
{
    if sources.len() == 0 {
        (slots, Seq::empty())
    } else {
        let (before, told) = closing(slots, sources.drop_last());
        let (path, size) = sources.last();
        (closed_slots(before, path), told + closing_events(before, path, size))
    }
}

/// Tells what is still owed of the sources when the writer is done.
pub fn close_entries(
    sources: &Vec<ArchiveSource>,
    progress: &mut TzapEntryProgress,
) -> (events: Vec<JobEvent>)
    ensures
        (final(progress)@, event_views(events@)) == closing(
            old(progress)@,
            planned(source_views(sources@)),
        ),
{
    let ghost wanted = planned(source_views(sources@));
    let ghost begin = progress@;
    let mut events: Vec<JobEvent> = Vec::new();
    let mut i: usize = 0;
    assert(event_views(events@) =~= Seq::<EventView>::empty());
    assert(wanted.take(0) =~= Seq::<(Seq<char>, u64)>::empty());
    while i < sources.len()
        invariant
            i <= sources@.len(),
            wanted == planned(source_views(sources@)),
            (progress@, event_views(events@)) == closing(begin, wanted.take(i as int)),
        decreases sources@.len() - i,
    {
        assert(wanted.take(i + 1).drop_last() =~= wanted.take(i as int));
        assert(wanted.take(i + 1).last() == (
            sources@[i as int].archive_path@,
            sources@[i as int].size,
        ));
        progress.close(sources[i].archive_path.as_str(), sources[i].size, &mut events);
        i = i + 1;
    }
    assert(wanted.take(sources@.len() as int) =~= wanted);
    events
}

/// What the archive writer says when it is done.
#[derive(Clone, Copy, Debug, PartialEq, Eq, Structural)]
pub struct WriteSummary {
    /// How many volumes it wrote.
    pub volume_count: usize,
    /// How many bytes they have.
    pub archive_bytes: u64,
}

/// What the steps of a job came to.
pub struct CreateAnswers {
    /// Whether the job was cancelled before it began.
    pub cancelled_at_start: bool,
    /// The entry at which the job is found cancelled.
    pub cancelled_from: Option<usize>,
    /// Whether the metadata of each entry could be read.
    pub captured: Vec<Result<(), TzapError>>,
    /// Whether the job was cancelled when the sources were collected.
    pub cancelled_after_collecting: bool,
    /// What making the key came to.
    pub key: Result<(), TzapError>,
    /// What wrapping the key for its recipients came to.
    pub records: Result<(), TzapError>,
    /// What preparing the output came to.
    pub sink: Result<(), TzapError>,
    /// What loading the signer came to.
    pub signer: Result<(), TzapError>,
    /// What the archive writer came to.
    pub written: Result<WriteSummary, WriteFault>,
    /// Whether the job was cancelled when the writer was done.
    pub cancelled_before_commit: bool,
    /// How many volumes were committed.
    pub committed: Result<usize, TzapError>,
}

/// What creating an archive reports.
#[derive(Debug, PartialEq, Eq)]
pub struct TzapCreateReport {
    /// Number of regular file entries written.
    pub written_entries: usize,
    /// Number of archive volume bytes written.
    pub written_bytes: u64,
    /// Compression level used.
    pub level: i32,
    /// Requested split volume size, when the archive was split.
    pub volume_size: Option<u64>,
    /// Number of output volumes written.
    pub volume_count: usize,
    /// Non-fatal warnings.
    pub warnings: Vec<String>,
}

/// What creating an archive reports, with its texts taken as sequences.
pub struct CreateView {
    pub written_entries: int,
    pub written_bytes: u64,
    pub level: i32,
    pub volume_size: Option<u64>,
    pub volume_count: usize,
    pub warnings: Seq<Seq<char>>,
}

impl View for TzapCreateReport {
    type V = CreateView;

    open spec fn view(&self) -> CreateView {
        CreateView {
            written_entries: self.written_entries as int,
            written_bytes: self.written_bytes,
            level: self.level,
            volume_size: self.volume_size,
            volume_count: self.volume_count,
            warnings: texts(self.warnings@),
        }
    }
}

/// What a job whose sources are collected comes to. The first step that fails
/// decides.
pub open spec fn created(
    manifest: ArchiveManifest,
    destination: Seq<char>,
    options: TzapCreateOptions,
    answers: CreateAnswers,
    sources: CollectedView,
) -> Result<CreateView, TzapFault> {
    if answers.cancelled_after_collecting {
        Err(TzapFault::Cancelled)
    } else if answers.key is Err {
        Err((answers.key->Err_0)@)
    } else if answers.records is Err {
        Err((answers.records->Err_0)@)
    } else if answers.sink is Err {
        Err((answers.sink->Err_0)@)
    } else if answers.signer is Err {
        Err((answers.signer->Err_0)@)
    } else if answers.written is Err {
        Err(from_write_fault(destination, (answers.written->Err_0)@))
    } else if answers.cancelled_before_commit {
        Err(TzapFault::Cancelled)
    } else if answers.committed is Err {
        Err((answers.committed->Err_0)@)
    } else if (answers.written->Ok_0).volume_count != answers.committed->Ok_0 {
        Err(
            TzapFault::Format(
                FormatFaultView::WriterInvariant(
                    "TZAP writer summary did not match committed volume count"@,
                ),
            ),
        )
    } else {
        Ok(
            CreateView {
                written_entries: sources.sources.len() as int,
                written_bytes: (answers.written->Ok_0).archive_bytes,
                level: options.level,
                volume_size: options.volume_size,
                volume_count: answers.committed->Ok_0,
                warnings: sources.warnings + texts(manifest.warnings@),
            },
        )
    }
}

/// What a job comes to.
pub open spec fn create_outcome(
    manifest: ArchiveManifest,
    destination: Seq<char>,
    options: TzapCreateOptions,
    answers: CreateAnswers,
) -> Result<CreateView, TzapFault> {
    if answers.cancelled_at_start {
        Err(TzapFault::Cancelled)
    } else if split_fault(options) is Some {
        Err(split_fault(options)->0)
    } else {
        match collected(
            manifest.entries@,
            options.preserve_metadata,
            SourceScope::AllEntries,
            answers.captured@,
            answers.cancelled_from,
            manifest.entries@.len(),
        ) {
            Err(fault) => Err(fault),
            Ok(sources) => created(manifest, destination, options, answers, sources),
        }
    }
}

/// A report and an error, taken by their views.
pub open spec fn create_result(r: Result<TzapCreateReport, TzapError>) -> Result<
    CreateView,
    TzapFault,
> {
    match r {
        Ok(report) => Ok(report@),
        Err(e) => Err(e@),
    }
}

fn add_texts(list: &mut Vec<String>, more: &Vec<String>)
    ensures
        texts(final(list)@) == texts(old(list)@) + texts(more@),
{
    let ghost before = texts(list@);
    let ghost added = texts(more@);
    let mut i: usize = 0;
    assert(before + added.take(0) =~= before);
    while i < more.len()
        invariant
            i <= more@.len(),
            added == texts(more@),
            texts(list@) == before + added.take(i as int),
        decreases more@.len() - i,
    {
        let ghost so_far = list@;
        let item: String = more[i].clone();
        list.push(item);
        assert(texts(list@) =~= texts(so_far).push(item@));
        assert(before + added.take(i + 1) =~= (before + added.take(i as int)).push(
            added[i as int],
        ));
        i = i + 1;
    }
    assert(added.take(more@.len() as int) =~= added);
}

fn create_from_sources(
    manifest: &ArchiveManifest,
    destination: &str,
    options: &TzapCreateOptions,
    answers: &CreateAnswers,
    sources: CollectedSources,
) -> (report: Result<TzapCreateReport, TzapError>)
    ensures
        create_result(report) == created(*manifest, destination@, *options, *answers, sources@),
{
    if answers.cancelled_after_collecting {
        return Err(TzapError::Cancelled);
    }
    match &answers.key {
        Ok(_) => {},
        Err(e) => {
            return Err(e.copy());
        },
    }
    match &answers.records {
        Ok(_) => {},
        Err(e) => {
            return Err(e.copy());
        },
    }
    match &answers.sink {
        Ok(_) => {},
        Err(e) => {
            return Err(e.copy());
        },
    }
    match &answers.signer {
        Ok(_) => {},
        Err(e) => {
            return Err(e.copy());
        },
    }
    let summary: WriteSummary = match &answers.written {
        Ok(summary) => *summary,
        Err(fault) => {
            return Err(tzap_write_error(destination, fault.copy()));
        },
    };
    if answers.cancelled_before_commit {
        return Err(TzapError::Cancelled);
    }
    let volume_count: usize = match &answers.committed {
        Ok(count) => *count,
        Err(e) => {
            return Err(e.copy());
        },
    };
    if summary.volume_count != volume_count {
        return Err(writer_invariant("TZAP writer summary did not match committed volume count"));
    }
    assert(source_views(sources.sources@).len() == sources.sources@.len());
    let mut warnings: Vec<String> = sources.warnings;
    add_texts(&mut warnings, &manifest.warnings);
    Ok(
        TzapCreateReport {
            written_entries: sources.sources.len(),
            written_bytes: summary.archive_bytes,
            level: options.level,
            volume_size: options.volume_size,
            volume_count,
            warnings,
        },
    )
}

/// Creates a `.tzap` archive from a manifest, given what each step of the job
/// came to.
///
/// # Errors
///
/// Returns [`TzapError`] when source files cannot be read, key derivation fails,
/// tzap encoding fails, filesystem writes fail, or cancellation is requested.
pub fn create_tzap_from_manifest_with_context(
    manifest: &ArchiveManifest,
    destination: &str,
    options: &TzapCreateOptions,
    answers: &CreateAnswers,
) -> (report: Result<TzapCreateReport, TzapError>)
    requires
        answers.captured@.len() == manifest.entries@.len(),
    ensures
        create_result(report) == create_outcome(*manifest, destination@, *options, *answers),
{
    if answers.cancelled_at_start {
        return Err(TzapError::Cancelled);
    }
    match check_split(options) {
        Ok(_) => {},
        Err(e) => {
            return Err(e);
        },
    }
    match collect_archive_sources(manifest, options, &answers.captured, answers.cancelled_from) {
        Ok(sources) => create_from_sources(manifest, destination, options, answers, sources),
        Err(e) => Err(e),
    }
}

proof fn lemma_collected_counts(
    entries: Seq<ManifestEntry>,
    preserve: bool,
    scope: SourceScope,
    captured: Seq<Result<(), TzapError>>,
    cancelled_from: Option<usize>,
    n: nat,
)
    requires
        n <= entries.len(),
        collected(entries, preserve, scope, captured, cancelled_from, n) is Ok,
    ensures
        ({
            let c = collected(entries, preserve, scope, captured, cancelled_from, n)->Ok_0;
            &&& scope == SourceScope::AllEntries ==> c.sources.len() + c.warnings.len() == n
            &&& c.sources.len() + c.warnings.len() <= n
            &&& forall|k: int|
                0 <= k < c.sources.len() ==> (#[trigger] c.sources[k]).mode & 0o7777
                    == c.sources[k].mode
        }),
    decreases n,
{
    if n > 0 {
        lemma_collected_counts(
            entries,
            preserve,
            scope,
            captured,
            cancelled_from,
            (n - 1) as nat,
        );
        let entry = entries[n - 1];
        let raw = match entry.unix_mode {
            Some(mode) => mode,
            None => default_mode(entry.file_type),
        };
        assert((raw & 0o7777) & 0o7777 == raw & 0o7777) by (bit_vector);
        assert(0o755u32 & 0o7777 == 0o755u32) by (bit_vector);
        assert(0o644u32 & 0o7777 == 0o644u32) by (bit_vector);
    }
}

/// A record that goes with an entry, such as the native metadata of a system.
#[derive(Debug, PartialEq, Eq)]
pub struct AuxiliaryRecord {
    /// What it is.
    pub record_kind: String,
    /// Whether its content is read while the archive is written.
    pub streamed: bool,
    /// Its content, where it is not.
    pub payload: Vec<u8>,
}

/// Where the content of a record comes from.
#[derive(Debug, PartialEq, Eq)]
pub enum AuxiliarySource {
    /// It is there.
    Payload(Vec<u8>),
    /// It is the resource fork of the file.
    ResourceFork,
}

/// Where the content of a record comes from, with its bytes taken as a sequence.
pub enum AuxiliaryView {
    Payload(Seq<u8>),
    ResourceFork,
}

/// Where the content of record `ordinal` comes from. Content that is streamed is
/// known on macOS alone, where the identity of the file has to be known too.
pub open spec fn auxiliary(
    records: Seq<AuxiliaryRecord>,
    ordinal: int,
    macos: bool,
    identity_known: bool,
) -> Result<AuxiliaryView, FormatFaultView> {
    if !(0 <= ordinal < records.len()) {
        Err(FormatFaultView::WriterInvariant("auxiliary source ordinal is missing"@))
    } else if !records[ordinal].streamed {
        Ok(AuxiliaryView::Payload(records[ordinal].payload@))
    } else if !macos {
        Err(
            FormatFaultView::WriterUnsupported(
                "streamed auxiliary source is unsupported on this platform"@,
            ),
        )
    } else if records[ordinal].record_kind@ != "macos.resource-fork"@ {
        Err(FormatFaultView::WriterUnsupported("unsupported streamed macOS auxiliary source"@))
    } else if !identity_known {
        Err(FormatFaultView::WriterInvariant("macOS metadata identity is missing"@))
    } else {
        Ok(AuxiliaryView::ResourceFork)
    }
}

/// Where the content of a record comes from.
pub fn open_auxiliary(
    records: &Vec<AuxiliaryRecord>,
    ordinal: usize,
    macos: bool,
    identity_known: bool,
) -> (source: Result<AuxiliarySource, FormatFault>)
    ensures
        (match source {
            Ok(AuxiliarySource::Payload(bytes)) => Ok(AuxiliaryView::Payload(bytes@)),
            Ok(AuxiliarySource::ResourceFork) => Ok(AuxiliaryView::ResourceFork),
            Err(fault) => Err(fault@),
        }) == auxiliary(records@, ordinal as int, macos, identity_known),
{
    if ordinal >= records.len() {
        return Err(FormatFault::WriterInvariant("auxiliary source ordinal is missing".to_owned()));
    }
    let record: &AuxiliaryRecord = &records[ordinal];
    if !record.streamed {
        return Ok(AuxiliarySource::Payload(copy_bytes(&record.payload)));
    }
    if !macos {
        return Err(
            FormatFault::WriterUnsupported(
                "streamed auxiliary source is unsupported on this platform".to_owned(),
            ),
        );
    }
    if !same_text(record.record_kind.as_str(), "macos.resource-fork") {
        return Err(
            FormatFault::WriterUnsupported(
                "unsupported streamed macOS auxiliary source".to_owned(),
            ),
        );
    }
    if !identity_known {
        return Err(FormatFault::WriterInvariant("macOS metadata identity is missing".to_owned()));
    }
    Ok(AuxiliarySource::ResourceFork)
}

/// Every entry of a manifest is either written or reported as left out, and what
/// is written has permission bits alone for its mode.
pub proof fn law_no_entry_is_lost(
    manifest: ArchiveManifest,
    options: TzapCreateOptions,
    answers: CreateAnswers,
    sources: CollectedView,
)
    requires
        collected(
            manifest.entries@,
            options.preserve_metadata,
            SourceScope::AllEntries,
            answers.captured@,
            answers.cancelled_from,
            manifest.entries@.len(),
        ) == Ok::<CollectedView, TzapFault>(sources),
    ensures
        sources.sources.len() + sources.warnings.len() == manifest.entries@.len(),
        forall|k: int|
            0 <= k < sources.sources.len() ==> (#[trigger] sources.sources[k]).mode & 0o7777
                == sources.sources[k].mode,
{
    lemma_collected_counts(
        manifest.entries@,
        options.preserve_metadata,
        SourceScope::AllEntries,
        answers.captured@,
        answers.cancelled_from,
        manifest.entries@.len(),
    );
}

/// The entries of a manifest that are no special files.
pub open spec fn ordinary_entries(entries: Seq<ManifestEntry>) -> Seq<ManifestEntry> {
    entries.filter(|entry: ManifestEntry| entry.file_type != ManifestFileType::Other)
}

/// Whether two words have the same lowest twelve bits, and `kept` has no others.
pub open spec fn keeps_low_twelve_bits(kept: u32, word: u32) -> bool {
    forall|b: u32|
        #![trigger (kept >> b)]
        b < 32 ==> (kept >> b) & 1 == (if b < 12 {
            (word >> b) & 1
        } else {
            0u32
        })
}

proof fn lemma_low_twelve_bits(word: u32)
    ensures
        keeps_low_twelve_bits(word & 0o7777, word),
{
    assert forall|b: u32| #![trigger ((word & 0o7777) >> b)] b < 32 implies ((word & 0o7777) >> b)
        & 1 == (if b < 12 {
        (word >> b) & 1
    } else {
        0u32
    }) by {
        assert(b < 12 ==> ((word & 0o7777) >> b) & 1 == (word >> b) & 1) by (bit_vector);
        assert(12 <= b < 32 ==> ((word & 0o7777) >> b) & 1 == 0) by (bit_vector);
    }
}

/// The files, directories and links of a manifest are collected one for one and in
/// order. Each keeps its path in the archive, its source and its link; a file keeps
/// its size and the others have none. Where metadata is preserved, each keeps its
/// time and, bit for bit, the twelve permission bits that it has; where it is not,
/// directories may be entered by all, files may be read by all, and the time is the
/// beginning of the epoch.
pub proof fn law_collected_entries_keep_what_the_manifest_says(
    entries: Seq<ManifestEntry>,
    preserve: bool,
    captured: Seq<Result<(), TzapError>>,
    cancelled_from: Option<usize>,
    collection: CollectedView,
)
    requires
        collected(
            entries,
            preserve,
            SourceScope::AllEntries,
            captured,
            cancelled_from,
            entries.len(),
        ) == Ok::<CollectedView, TzapFault>(collection),
    ensures
        collection.sources.len() == ordinary_entries(entries).len(),
        forall|k: int|
            0 <= k < collection.sources.len() ==> {
                let entry = ordinary_entries(entries)[k];
                let source = #[trigger] collection.sources[k];
                &&& source.archive_path == entry.archive_path@
                &&& source.source_path == entry.source_path@
                &&& (source.kind == SourceEntryKind::Regular) == (entry.file_type
                    == ManifestFileType::File)
                &&& (source.kind == SourceEntryKind::Directory) == (entry.file_type
                    == ManifestFileType::Directory)
                &&& (source.kind == SourceEntryKind::Symlink) == (entry.file_type
                    == ManifestFileType::Symlink)
                &&& source.size == (if entry.file_type == ManifestFileType::File {
                    entry.size
                } else {
                    0u64
                })
                &&& source.link_target is Some <==> entry.symlink_target is Some
                &&& entry.symlink_target matches Some(target) ==> source.link_target == Some(
                    target@,
                )
                &&& preserve ==> {
                    &&& entry.unix_mode matches Some(mode) ==> keeps_low_twelve_bits(
                        source.mode,
                        mode,
                    )
                    &&& entry.modified matches Some(time) ==> source.mtime == time
                }
                &&& !preserve || entry.unix_mode is None ==> source.mode == (if entry.file_type
                    == ManifestFileType::Directory {
                    0o755u32
                } else {
                    0o644u32
                })
                &&& !preserve || entry.modified is None ==> source.mtime.seconds == 0
                    && source.mtime.nanoseconds == 0
            },
{
    lemma_collected_entries(entries, preserve, captured, cancelled_from, entries.len());
    assert(entries.take(entries.len() as int) =~= entries);
    assert forall|word: u32| #![trigger (word & 0o7777)] keeps_low_twelve_bits(
        word & 0o7777,
        word,
    ) by {
        lemma_low_twelve_bits(word);
    }
    assert(0o755u32 & 0o7777 == 0o755u32) by (bit_vector);
    assert(0o644u32 & 0o7777 == 0o644u32) by (bit_vector);
}

proof fn lemma_collected_entries(
    entries: Seq<ManifestEntry>,
    preserve: bool,
    captured: Seq<Result<(), TzapError>>,
    cancelled_from: Option<usize>,
    n: nat,
)
    requires
        n <= entries.len(),
        collected(
            entries,
            preserve,
            SourceScope::AllEntries,
            captured,
            cancelled_from,
            n,
        ) is Ok,
    ensures
        ({
            let c = collected(
                entries,
                preserve,
                SourceScope::AllEntries,
                captured,
                cancelled_from,
                n,
            )->Ok_0;
            let kept = ordinary_entries(entries.take(n as int));
            &&& c.sources.len() == kept.len()
            &&& forall|k: int|
                0 <= k < kept.len() ==> #[trigger] c.sources[k] == source_of(kept[k], preserve)
                    && kept[k].file_type != ManifestFileType::Other
        }),
    decreases n,
{
    reveal(Seq::filter);
    if n > 0 {
        lemma_collected_entries(entries, preserve, captured, cancelled_from, (n - 1) as nat);
        assert(entries.take(n as int).drop_last() =~= entries.take(n - 1));
        assert(entries.take(n as int).last() == entries[n - 1]);
    }
}

/// The password that an archive is made with opens it: the parameters that are stored in
/// the archive give the same key with it again. An archive without a password is opened
/// without one. A new archive derives its key with three passes over 256 MiB in four
/// lanes, and with sixteen bytes of salt.
pub proof fn law_the_password_of_an_archive_opens_it(
    source: TzapKeySource,
    key: Seq<u8>,
    kdf: KdfView,
)
    requires
        is_material_of(source, Ok((key, kdf))),
    ensures
        source matches TzapKeySource::Passphrase(password) ==> {
            &&& open_plan(kdf, 1, Some(password@), false, false) matches Ok(plan) && plan.key
                == Some(key)
            &&& kdf matches KdfView::Argon2id { t_cost, m_cost_kib, parallelism, salt } && t_cost
                == 3 && m_cost_kib == 262_144 && parallelism == 4 && salt.len() == 16
                && random_answer(16, salt)
        },
        source is NoPassword ==> (open_plan(kdf, 1, None, false, false) matches Ok(plan) && plan.key
            == Some(key)),
        !(source is Passphrase) && !(source is NoPassword) ==> key.len() == 32 && random_answer(
            32,
            key,
        ),
{
}

/// An archive is made exactly when nothing goes wrong and nobody cancels the job. The
/// report then counts what was collected, the bytes that the writer wrote and the volumes
/// that were committed, and gives the warnings of collecting before those of the manifest.
pub proof fn law_archives_are_made_when_every_step_succeeds(
    manifest: ArchiveManifest,
    destination: Seq<char>,
    options: TzapCreateOptions,
    answers: CreateAnswers,
)
    ensures
        ({
            let result = create_outcome(manifest, destination, options, answers);
            let sources = collected(
                manifest.entries@,
                options.preserve_metadata,
                SourceScope::AllEntries,
                answers.captured@,
                answers.cancelled_from,
                manifest.entries@.len(),
            );
            let split = options.volume_size is Some && options.volume_count is Some
                && options.volume_count->0 > 1;
            &&& result is Ok <==> !answers.cancelled_at_start && !split && sources is Ok
                && !answers.cancelled_after_collecting && answers.key is Ok && answers.records is Ok
                && answers.sink is Ok && answers.signer is Ok && answers.written is Ok
                && !answers.cancelled_before_commit && answers.committed is Ok
                && answers.written->Ok_0.volume_count == answers.committed->Ok_0
            &&& result matches Ok(report) ==> {
                &&& report.written_entries == sources->Ok_0.sources.len()
                &&& report.written_bytes == answers.written->Ok_0.archive_bytes
                &&& report.level == options.level
                &&& report.volume_size == options.volume_size
                &&& report.volume_count == answers.committed->Ok_0
                &&& report.warnings == sources->Ok_0.warnings + texts(manifest.warnings@)
            }
            &&& answers.cancelled_at_start ==> result == Err::<CreateView, TzapFault>(
                TzapFault::Cancelled,
            )
        }),
{
}

/// The writer is told what was asked for: one volume unless more are wanted, the size of
/// the volumes, how much loss is to be survived, and no encryption exactly where there is
/// no password.
pub proof fn law_the_writer_is_told_what_was_asked_for(options: TzapCreateOptions)
    ensures
        ({
            let plan = plan_of(options);
            &&& options.volume_count is None ==> plan.stripe_width == 1
            &&& options.volume_count matches Some(count) ==> (count > 0 ==> plan.stripe_width
                == count)
            &&& options.volume_count == Some(0u32) ==> plan.stripe_width == 1
            &&& plan.target_volume_size == options.volume_size
            &&& plan.volume_loss_tolerance == options.volume_loss_tolerance
            &&& plan.bit_rot_buffer_pct == options.recovery_percentage
            &&& plan.zstd_level == options.level
            &&& plan.without_closing_time <==> !options.preserve_metadata
            &&& plan.unencrypted <==> options.key_source is NoPassword
            &&& plan.archive_uuid is None && plan.session_id is None
        }),
{
}

/// Special files are left out, each with a warning that names it, and a cancelled job
/// collects nothing from the entry on at which it is found cancelled.
pub proof fn law_special_files_are_left_out_with_a_warning(
    entries: Seq<ManifestEntry>,
    preserve: bool,
    captured: Seq<Result<(), TzapError>>,
    cancelled_from: Option<usize>,
    n: nat,
    before: CollectedView,
)
    requires
        n < entries.len(),
        collected(
            entries,
            preserve,
            SourceScope::AllEntries,
            captured,
            cancelled_from,
            n,
        ) == Ok::<CollectedView, TzapFault>(before),
    ensures
        ({
            let entry = entries[n as int];
            let path = entry.archive_path@;
            let result = collected(
                entries,
                preserve,
                SourceScope::AllEntries,
                captured,
                cancelled_from,
                n + 1,
            );
            if cancelled_from matches Some(k) && k <= n {
                result == Err::<CollectedView, TzapFault>(TzapFault::Cancelled)
            } else if entry.file_type == ManifestFileType::Other {
                result matches Ok(after) && after.sources == before.sources && after.warnings.len()
                    == before.warnings.len() + 1 && after.warnings.drop_last() == before.warnings
                    && after.warnings.last().len() > 8 + path.len()
                    && after.warnings.last().subrange(8, 8 + path.len() as int) == path
            } else if preserve && captured[n as int] is Err {
                result == Err::<CollectedView, TzapFault>((captured[n as int]->Err_0)@)
            } else {
                result matches Ok(after) && after.warnings == before.warnings && after.sources.len()
                    == before.sources.len() + 1 && after.sources.drop_last() == before.sources
                    && after.sources.last().archive_path == path && after.events.len()
                    == before.events.len() + 1 && after.events.last() == (
                EventView::EntryStarted { path, size: entry.size })
            }
        }),
{
    reveal_strlit("skipped ");
    reveal_strlit(": tzap backend does not write special files");
    let path = entries[n as int].archive_path@;
    if let Ok(after) = collected(
        entries,
        preserve,
        SourceScope::AllEntries,
        captured,
        cancelled_from,
        n + 1,
    ) {
        if after.warnings.len() > before.warnings.len() {
            assert(after.warnings.drop_last() =~= before.warnings);
            assert(after.warnings.last().subrange(8, 8 + path.len() as int) =~= path);
        }
        if after.sources.len() > before.sources.len() {
            assert(after.sources.drop_last() =~= before.sources);
        }
    }
}

/// The sources of an archive are closed one after the other: closing some and then others
/// tells what closing all of them tells.
pub proof fn law_sources_are_closed_one_after_the_other(
    slots: Seq<SlotView>,
    first: Seq<(Seq<char>, u64)>,
    path: Seq<char>,
    size: u64,
)
    ensures
        closing(slots, Seq::empty()) == (slots, Seq::<EventView>::empty()),
        closing(slots, first.push((path, size))).0 == closed_slots(closing(slots, first).0, path),
        closing(slots, first.push((path, size))).1 == closing(slots, first).1 + closing_events(
            closing(slots, first).0,
            path,
            size,
        ),
{
    assert(first.push((path, size)).drop_last() =~= first);
}

/// What a record carries itself is handed out as it is. What is streamed can be had only
/// of the resource fork of a known file, and only where there are such forks.
pub proof fn law_auxiliary_records_hand_out_their_payload(
    records: Seq<AuxiliaryRecord>,
    ordinal: int,
    macos: bool,
    identity_known: bool,
)
    ensures
        !(0 <= ordinal < records.len()) ==> auxiliary(
            records,
            ordinal,
            macos,
            identity_known,
        ) is Err,
        0 <= ordinal < records.len() && !records[ordinal].streamed ==> auxiliary(
            records,
            ordinal,
            macos,
            identity_known,
        ) == Ok::<AuxiliaryView, FormatFaultView>(
            AuxiliaryView::Payload(records[ordinal].payload@),
        ),
        0 <= ordinal < records.len() && records[ordinal].streamed ==> (auxiliary(
            records,
            ordinal,
            macos,
            identity_known,
        ) is Ok <==> macos && records[ordinal].record_kind@ == "macos.resource-fork"@
            && identity_known),
        0 <= ordinal < records.len() && records[ordinal].streamed ==> (auxiliary(
            records,
            ordinal,
            macos,
            identity_known,
        ) matches Ok(source) ==> source is ResourceFork),
{
}

/// The key of an archive is made by its key source: a passphrase gives it through a fresh
/// salt of sixteen bytes and fixed costs, an archive without a password has the known key,
/// and one for recipients a fresh one.
pub proof fn law_keys_are_made_by_their_source(
    source: TzapKeySource,
    key: Seq<u8>,
    kdf: KdfView,
)
    requires
        is_material_of(source, Ok((key, kdf))),
    ensures
        source is NoPassword ==> key == placeholder_key() && kdf is Unencrypted,
        source matches TzapKeySource::Passphrase(passphrase) ==> {
            &&& kdf is Argon2id
            &&& kdf->t_cost == 3
            &&& kdf->m_cost_kib == 262144
            &&& kdf->parallelism == 4
            &&& kdf->salt.len() == 16
            &&& random_answer(16, kdf->salt)
            &&& passphrase_key(kdf, passphrase@) == Ok::<Seq<u8>, TzapFault>(key)
        },
        !(source is NoPassword) && !(source is Passphrase) ==> key.len() == 32 && random_answer(
            32,
            key,
        ) && kdf is Unencrypted,
{
}

/// Two plans with the same settings ask the writer for the same, whatever identifiers they
/// have.
pub proof fn law_plans_with_the_same_settings_differ_in_identifiers_only(
    one: WriterPlan,
    other: WriterPlan,
)
    ensures
        one.same_settings(other) <==> one == (WriterPlan {
            archive_uuid: one.archive_uuid,
            session_id: one.session_id,
            ..other
        }),
{
}

} // verus!
