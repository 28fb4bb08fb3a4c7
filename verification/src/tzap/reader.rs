//! Reading an archive whose volumes are in memory.
use crate::failure::IoKind;
use crate::tzap::archive::{
    ArchiveEntry, ArchiveIndexEntry, TarEntryKind, TzapArchive,
};
use crate::tzap::error::{FormatFault, TzapError, io_error, own_fault, own_result};
#[allow(unused_imports)]
use crate::tzap::error::{FormatFaultView, TzapFault, fault_told};
#[allow(unused_imports)]
use crate::tzap::inventory::byte_strings;
use crate::tzap::keys::{KdfParams, OpenPlan, plan_open, read_kdf_params};
#[allow(unused_imports)]
use crate::tzap::keys::{kdf_of, open_plan, password_view};
use tzap_core::{FormatError, OpenedArchive, TarEntryKind as MemberKind};
#[allow(unused_imports)]
use crate::tzap::error::no_volumes;
use vstd::prelude::*;

verus! {

/// An opened archive in the archive format's own form.
#[verifier::external_type_specification]
#[verifier::external_body]
pub struct ExOpenedArchive(tzap_core::OpenedArchive);

/// The volumes and the key that an archive was opened from.
pub uninterp spec fn opened_from(archive: OpenedArchive) -> (Seq<Seq<u8>>, Seq<u8>);

/// Whether `open_archive_volumes` of tzap-core opens some volumes with a key, on a
/// machine whose largest `usize` is `largest`.
pub uninterp spec fn archive_opens(volumes: Seq<Seq<u8>>, key: Seq<u8>, largest: nat) -> bool;

/// Whether `open_archive_volumes` of tzap-core can refuse some volumes and a key with
/// this fault.
pub uninterp spec fn open_refusal(
    volumes: Seq<Seq<u8>>,
    key: Seq<u8>,
    largest: nat,
    fault: FormatFaultView,
) -> bool;

/// Calls `tzap_core::open_archive_volumes`. Claimed: whether it succeeds is a function of
/// the volumes, the key and the width of `usize`, a fault answers for these, and an
/// archive was opened from the volumes and the key.
#[verifier::external_body]
pub(crate) fn open_volumes(volumes: &Vec<Vec<u8>>, key: &[u8; 32]) -> (archive: Result<
    OpenedArchive,
    FormatError,
>)
    ensures
        match archive {
            Ok(a) => archive_opens(byte_strings(volumes@), key@, usize::MAX as nat)
                && opened_from(a) == (byte_strings(volumes@), key@),
            Err(e) => !archive_opens(byte_strings(volumes@), key@, usize::MAX as nat)
                && open_refusal(byte_strings(volumes@), key@, usize::MAX as nat, fault_told(e)),
        },
{
    let slices: Vec<&[u8]> = volumes.iter().map(Vec::as_slice).collect();
    tzap_core::open_archive_volumes(&slices, &tzap_core::MasterKey(*key))
}

/// Whether a fault is that of an archive that could not be opened.
pub open spec fn is_open_fault(
    fault: TzapFault,
    volumes: Seq<Seq<u8>>,
    key: Seq<u8>,
    largest: nat,
) -> bool {
    !archive_opens(volumes, key, largest) && (fault matches TzapFault::Format(refusal)
        && open_refusal(volumes, key, largest, refusal))
}

/// What a member of an archive can be stored as.
#[derive(Clone, Copy, Debug, PartialEq, Eq, Structural)]
pub enum StoredKind {
    Regular,
    Directory,
    Symlink,
    Hardlink,
    CharacterDevice,
    BlockDevice,
    Fifo,
}

/// A member of an archive as it is stored.
#[derive(Debug, PartialEq, Eq)]
pub struct StoredMember {
    pub path: String,
    pub kind: StoredKind,
    pub size: u64,
    pub mode: u32,
    pub seconds: i64,
    pub nanoseconds: u32,
}

/// A member of an archive as it is stored, with its path taken as a sequence.
pub struct MemberView {
    pub path: Seq<char>,
    pub kind: StoredKind,
    pub size: u64,
    pub mode: u32,
    pub seconds: i64,
    pub nanoseconds: u32,
}

impl View for StoredMember {
    type V = MemberView;

    open spec fn view(&self) -> MemberView {
        MemberView {
            path: self.path@,
            kind: self.kind,
            size: self.size,
            mode: self.mode,
            seconds: self.seconds,
            nanoseconds: self.nanoseconds,
        }
    }
}

/// Members, taken by their views.
pub open spec fn member_views(list: Seq<StoredMember>) -> Seq<MemberView> {
    list.map_values(|m: StoredMember| m@)
}

/// What `list_files` of tzap-core tells of an archive that was opened from some volumes
/// and a key, on a machine whose largest `usize` is `largest`; `None` where it refuses.
pub uninterp spec fn archive_members(volumes: Seq<Seq<u8>>, key: Seq<u8>, largest: nat) -> Option<
    Seq<MemberView>,
>;

/// Whether `list_files` of tzap-core can refuse an archive with this fault.
pub uninterp spec fn members_refusal(
    volumes: Seq<Seq<u8>>,
    key: Seq<u8>,
    largest: nat,
    fault: FormatFaultView,
) -> bool;

/// Calls `tzap_core::OpenedArchive::list_files`. Claimed: whether it succeeds, and the
/// members, are a function of the volumes and the key that the archive was opened from
/// and of the width of `usize`; a fault answers for these.
#[verifier::external_body]
fn list_members(archive: &OpenedArchive) -> (members: Result<Vec<StoredMember>, FormatError>)
    ensures
        ({
            let (volumes, key) = opened_from(*archive);
            match members {
                Ok(list) => archive_members(volumes, key, usize::MAX as nat) == Some(
                    member_views(list@),
                ),
                Err(e) => archive_members(volumes, key, usize::MAX as nat) is None
                    && members_refusal(volumes, key, usize::MAX as nat, fault_told(e)),
            }
        }),
{
    let files = archive.list_files()?;
    Ok(files.into_iter().map(|f| StoredMember { kind: match f.kind {
        MemberKind::Regular => StoredKind::Regular,
        MemberKind::Directory => StoredKind::Directory,
        MemberKind::Symlink => StoredKind::Symlink,
        MemberKind::Hardlink => StoredKind::Hardlink,
        MemberKind::CharacterDevice => StoredKind::CharacterDevice,
        MemberKind::BlockDevice => StoredKind::BlockDevice,
        MemberKind::Fifo => StoredKind::Fifo,
    }, path: f.path, size: f.file_data_size, mode: f.mode, seconds: f.mtime.seconds,
        nanoseconds: f.mtime.nanoseconds,
    }).collect())
}

/// The kind of a member that can be listed and extracted: devices and pipes
/// cannot.
pub open spec fn known_kind(kind: StoredKind) -> Option<TarEntryKind> {
    match kind {
        StoredKind::Regular => Some(TarEntryKind::Regular),
        StoredKind::Directory => Some(TarEntryKind::Directory),
        StoredKind::Symlink => Some(TarEntryKind::Symlink),
        StoredKind::Hardlink => Some(TarEntryKind::Hardlink),
        _ => None,
    }
}

/// Whether an entry tells of a stored member.
pub open spec fn tells(entry: ArchiveEntry, member: MemberView) -> bool {
    &&& entry.path@ == member.path
    &&& known_kind(member.kind) == Some(entry.kind)
    &&& entry.file_data_size == member.size
    &&& entry.mode == member.mode
    &&& entry.mtime == member.seconds
    &&& entry.mtime_nanoseconds == member.nanoseconds
}

/// Whether every member can be listed.
pub open spec fn all_known(members: Seq<MemberView>) -> bool {
    forall|k: int| 0 <= k < members.len() ==> known_kind((#[trigger] members[k]).kind) is Some
}

/// Whether `files` is what the members of an archive are listed as.
pub open spec fn listed_as(
    files: Result<Vec<ArchiveEntry>, FormatFault>,
    members: Result<Seq<MemberView>, FormatFaultView>,
) -> bool {
    match members {
        Err(fault) => files matches Err(own) && own@ == fault,
        Ok(members) => if all_known(members) {
            files matches Ok(list) && list@.len() == members.len() && forall|k: int|
                0 <= k < members.len() ==> tells(#[trigger] list@[k], members[k])
        } else {
            files matches Err(fault) && fault@ == FormatFaultView::ReaderUnsupported(
                "archive holds a device or a pipe"@,
            )
        },
    }
}

/// Members, or a fault, taken by their views.
pub open spec fn members_result(r: Result<Vec<StoredMember>, FormatFault>) -> Result<
    Seq<MemberView>,
    FormatFaultView,
> {
    match r {
        Ok(list) => Ok(member_views(list@)),
        Err(fault) => Err(fault@),
    }
}

/// The members of an archive, given what was read of it.
pub fn settle_members(members: Result<Vec<StoredMember>, FormatFault>) -> (files: Result<
    Vec<ArchiveEntry>,
    FormatFault,
>)
    ensures
        listed_as(files, members_result(members)),
{
    let list: &Vec<StoredMember> = match &members {
        Ok(list) => list,
        Err(fault) => {
            return Err(fault.copy());
        },
    };
    let ghost views = member_views(list@);
    let mut files: Vec<ArchiveEntry> = Vec::new();
    let mut i: usize = 0;
    while i < list.len()
        invariant
            i == files@.len(),
            i <= list@.len(),
            views == member_views(list@),
            members_result(members) == Ok::<Seq<MemberView>, FormatFaultView>(views),
            forall|k: int| 0 <= k < i ==> tells(#[trigger] files@[k], views[k]),
        decreases list@.len() - i,
    {
        let member: &StoredMember = &list[i];
        let kind: TarEntryKind = match member.kind {
            StoredKind::Regular => TarEntryKind::Regular,
            StoredKind::Directory => TarEntryKind::Directory,
            StoredKind::Symlink => TarEntryKind::Symlink,
            StoredKind::Hardlink => TarEntryKind::Hardlink,
            _ => {
                assert(known_kind(views[i as int].kind) is None);
                return Err(
                    FormatFault::ReaderUnsupported("archive holds a device or a pipe".to_owned()),
                );
            },
        };
        files.push(
            ArchiveEntry {
                path: member.path.clone(),
                kind,
                file_data_size: member.size,
                mode: member.mode,
                mtime: member.seconds,
                mtime_nanoseconds: member.nanoseconds,
            },
        );
        i = i + 1;
    }
    assert(forall|k: int| 0 <= k < views.len() ==> tells(files@[k], #[trigger] views[k]));
    Ok(files)
}

/// An entry of the index, with its path taken as a sequence.
pub struct IndexView {
    pub path: Seq<char>,
    pub size: u64,
}

/// Entries of the index, taken by their views.
pub open spec fn index_views(list: Seq<ArchiveIndexEntry>) -> Seq<IndexView> {
    list.map_values(|e: ArchiveIndexEntry| IndexView { path: e.path@, size: e.file_data_size })
}

/// What `list_index_entries` of tzap-core tells of an archive that was opened from some
/// volumes and a key, on a machine whose largest `usize` is `largest`; `None` where it
/// refuses.
pub uninterp spec fn archive_index(volumes: Seq<Seq<u8>>, key: Seq<u8>, largest: nat) -> Option<
    Seq<IndexView>,
>;

/// Whether `list_index_entries` of tzap-core can refuse an archive with this fault.
pub uninterp spec fn index_refusal(
    volumes: Seq<Seq<u8>>,
    key: Seq<u8>,
    largest: nat,
    fault: FormatFaultView,
) -> bool;

/// Calls `tzap_core::OpenedArchive::list_index_entries`. Claimed: whether it succeeds, and
/// the entries, are a function of the volumes and the key that the archive was opened
/// from and of the width of `usize`; a fault answers for these.
#[verifier::external_body]
fn list_index(archive: &OpenedArchive) -> (index: Result<Vec<ArchiveIndexEntry>, FormatError>)
    ensures
        ({
            let (volumes, key) = opened_from(*archive);
            match index {
                Ok(list) => archive_index(volumes, key, usize::MAX as nat) == Some(
                    index_views(list@),
                ),
                Err(e) => archive_index(volumes, key, usize::MAX as nat) is None && index_refusal(
                    volumes,
                    key,
                    usize::MAX as nat,
                    fault_told(e),
                ),
            }
        }),
{
    let index = archive.list_index_entries()?;
    Ok(index.into_iter().map(|entry| ArchiveIndexEntry {
        path: entry.path,
        file_data_size: entry.file_data_size,
    }).collect())
}

/// Whether `verify` of tzap-core accepts an archive that was opened from some volumes and
/// a key, on a machine whose largest `usize` is `largest`.
pub uninterp spec fn archive_check(volumes: Seq<Seq<u8>>, key: Seq<u8>, largest: nat) -> bool;

/// Whether `verify` of tzap-core can refuse an archive with this fault. Blocks are checked
/// side by side, and which of several faults is told depends on how many at a time.
pub uninterp spec fn check_refusal(
    volumes: Seq<Seq<u8>>,
    key: Seq<u8>,
    largest: nat,
    fault: FormatFaultView,
) -> bool;

/// Calls `tzap_core::OpenedArchive::verify`. Claimed: whether it succeeds is a function of
/// the volumes and the key that the archive was opened from and of the width of `usize`;
/// a fault answers for these.
#[verifier::external_body]
fn check_contents(archive: &OpenedArchive) -> (r: Result<(), FormatError>)
    ensures
        ({
            let (volumes, key) = opened_from(*archive);
            match r {
                Ok(_) => archive_check(volumes, key, usize::MAX as nat),
                Err(e) => !archive_check(volumes, key, usize::MAX as nat) && check_refusal(
                    volumes,
                    key,
                    usize::MAX as nat,
                    fault_told(e),
                ),
            }
        }),
{
    archive.verify()
}

/// The authenticator that the root-authentication footer of tzap-core names for an
/// archive that was opened from some volumes and a key on a machine whose largest
/// `usize` is `largest`, if there is one.
pub uninterp spec fn archive_authenticator(
    volumes: Seq<Seq<u8>>,
    key: Seq<u8>,
    largest: nat,
) -> Option<u16>;

/// Reads the field `root_auth_footer` of a `tzap_core::OpenedArchive`. Claimed: the
/// authenticator is a function of the volumes and the key that the archive was opened
/// from and of the width of `usize`.
#[verifier::external_body]
fn read_authenticator(archive: &OpenedArchive) -> (id: Option<u16>)
    ensures
        id == archive_authenticator(
            opened_from(*archive).0,
            opened_from(*archive).1,
            usize::MAX as nat,
        ),
{
    archive.root_auth_footer.as_ref().map(|footer| footer.authenticator_id)
}

/// Content, or nothing, taken by its view.
pub open spec fn content_view(content: Option<Vec<u8>>) -> Option<Seq<u8>> {
    match content {
        Some(bytes) => Some(bytes@),
        None => None,
    }
}

/// What `extract_file` of tzap-core gives of one path of an archive that was opened from
/// some volumes and a key, on a machine whose largest `usize` is `largest`: the content,
/// or nothing where the archive does not hold it. `None` where it refuses.
pub uninterp spec fn member_content(
    volumes: Seq<Seq<u8>>,
    key: Seq<u8>,
    path: Seq<char>,
    largest: nat,
) -> Option<Option<Seq<u8>>>;

/// Whether `extract_file` of tzap-core can refuse one path of an archive with this fault.
pub uninterp spec fn content_refusal(
    volumes: Seq<Seq<u8>>,
    key: Seq<u8>,
    path: Seq<char>,
    largest: nat,
    fault: FormatFaultView,
) -> bool;

/// Calls `tzap_core::OpenedArchive::extract_file`. Claimed: whether it succeeds, and the
/// content, are a function of the volumes and the key that the archive was opened from,
/// of the path and of the width of `usize`; a fault answers for these.
#[verifier::external_body]
fn read_member(archive: &OpenedArchive, path: &str) -> (content: Result<
    Option<Vec<u8>>,
    FormatError,
>)
    ensures
        ({
            let (volumes, key) = opened_from(*archive);
            match content {
                Ok(held) => member_content(volumes, key, path@, usize::MAX as nat) == Some(
                    content_view(held),
                ),
                Err(e) => member_content(volumes, key, path@, usize::MAX as nat) is None
                    && content_refusal(volumes, key, path@, usize::MAX as nat, fault_told(e)),
            }
        }),
{
    archive.extract_file(path)
}

/// The key of an archive whose volumes are given: the first volume says how it
/// is found.
pub open spec fn volumes_key(
    archive: Seq<char>,
    volumes: Seq<Seq<u8>>,
    password: Option<Seq<char>>,
) -> Result<Seq<u8>, TzapFault> {
    if volumes.len() == 0 {
        Err(TzapFault::Io { path: archive, source: no_volumes() })
    } else {
        match kdf_of(archive, volumes[0]) {
            Err(fault) => Err(fault),
            Ok(kdf) => match open_plan(kdf, volumes.len(), password, false, false) {
                Err(fault) => Err(fault),
                Ok(plan) => match plan.key {
                    Some(key) => Ok(key),
                    None => Err(TzapFault::RecipientKeyRequired),
                },
            },
        }
    }
}

/// Finds the key of an archive whose volumes are given.
pub fn find_volumes_key(archive: &str, volumes: &Vec<Vec<u8>>, password: Option<&str>) -> (key:
    Result<[u8; 32], TzapError>)
    ensures
        match key {
            Ok(key) => volumes_key(archive@, byte_strings(volumes@), password_view(password))
                == Ok::<Seq<u8>, TzapFault>(key@),
            Err(e) => volumes_key(archive@, byte_strings(volumes@), password_view(password))
                == Err::<Seq<u8>, TzapFault>(e@),
        },
{
    if volumes.len() == 0 {
        return Err(
            io_error(archive, IoKind::NotFound, "no TZAP input volumes found"),
        );
    }
    assert(byte_strings(volumes@)[0] == volumes@[0]@);
    let kdf: KdfParams = match read_kdf_params(archive, volumes[0].as_slice()) {
        Ok(kdf) => kdf,
        Err(e) => {
            return Err(e);
        },
    };
    let plan: OpenPlan = match plan_open(&kdf, volumes.len(), password, false, false) {
        Ok(plan) => plan,
        Err(e) => {
            return Err(e);
        },
    };
    match plan.key {
        Some(key) => Ok(key),
        None => Err(TzapError::RecipientKeyRequired),
    }
}

/// What is known of an archive, given what was read of it.
pub fn settle_volumes(
    members: Result<Vec<StoredMember>, FormatFault>,
    index: Result<Vec<ArchiveIndexEntry>, FormatFault>,
    contents: Result<(), FormatFault>,
    authenticator_id: Option<u16>,
) -> (archive: TzapArchive)
    ensures
        listed_as(archive.files, members_result(members)),
        archive.index == index,
        archive.intact == contents,
        archive.authenticator_id == authenticator_id,
{
    TzapArchive {
        files: settle_members(members),
        index,
        intact: contents,
        authenticator_id,
    }
}

/// Whether `archive` is what the volumes hold under a key, on a machine whose largest
/// `usize` is `largest`.
pub open spec fn holds(
    archive: TzapArchive,
    volumes: Seq<Seq<u8>>,
    key: Seq<u8>,
    largest: nat,
) -> bool {
    &&& match archive_members(volumes, key, largest) {
        Some(members) => listed_as(archive.files, Ok(members)),
        None => archive.files matches Err(fault) && members_refusal(volumes, key, largest, fault@),
    }
    &&& match archive_index(volumes, key, largest) {
        Some(entries) => archive.index matches Ok(index) && index_views(index@) == entries,
        None => archive.index matches Err(fault) && index_refusal(volumes, key, largest, fault@),
    }
    &&& match archive.intact {
        Ok(_) => archive_check(volumes, key, largest),
        Err(fault) => !archive_check(volumes, key, largest) && check_refusal(
            volumes,
            key,
            largest,
            fault@,
        ),
    }
    &&& archive.authenticator_id == archive_authenticator(volumes, key, largest)
}

/// Opens an archive whose volumes are in memory.
pub fn open_tzap_volumes(archive: &str, volumes: &Vec<Vec<u8>>, password: Option<&str>) -> (opened:
    Result<TzapArchive, TzapError>)
    ensures
        match volumes_key(archive@, byte_strings(volumes@), password_view(password)) {
            Err(fault) => opened matches Err(e) && e@ == fault,
            Ok(key) => match opened {
                Ok(opened) => archive_opens(byte_strings(volumes@), key, usize::MAX as nat)
                    && holds(opened, byte_strings(volumes@), key, usize::MAX as nat),
                Err(e) => is_open_fault(e@, byte_strings(volumes@), key, usize::MAX as nat),
            },
        },
{
    let key: [u8; 32] = match find_volumes_key(archive, volumes, password) {
        Ok(key) => key,
        Err(e) => {
            return Err(e);
        },
    };
    let reader: OpenedArchive = match open_volumes(volumes, &key) {
        Ok(reader) => reader,
        Err(e) => {
            return Err(TzapError::Format(own_fault(e)));
        },
    };
    let members: Result<Vec<StoredMember>, FormatFault> = own_result(list_members(&reader));
    let index: Result<Vec<ArchiveIndexEntry>, FormatFault> = own_result(list_index(&reader));
    let contents: Result<(), FormatFault> = own_result(check_contents(&reader));
    let authenticator_id: Option<u16> = read_authenticator(&reader);
    Ok(settle_volumes(members, index, contents, authenticator_id))
}

/// Reads one file of an archive whose volumes are in memory; `None` where the
/// archive has no such file.
pub fn read_tzap_file(
    archive: &str,
    volumes: &Vec<Vec<u8>>,
    password: Option<&str>,
    path: &str,
) -> (content: Result<Option<Vec<u8>>, TzapError>)
    ensures
        match volumes_key(archive@, byte_strings(volumes@), password_view(password)) {
            Err(fault) => content matches Err(e) && e@ == fault,
            Ok(key) => if !archive_opens(byte_strings(volumes@), key, usize::MAX as nat) {
                content matches Err(e) && is_open_fault(
                    e@,
                    byte_strings(volumes@),
                    key,
                    usize::MAX as nat,
                )
            } else {
                match member_content(byte_strings(volumes@), key, path@, usize::MAX as nat) {
                    Some(held) => content matches Ok(read) && content_view(read) == held,
                    None => content matches Err(e) && (e@ matches TzapFault::Format(fault)
                        && content_refusal(
                        byte_strings(volumes@),
                        key,
                        path@,
                        usize::MAX as nat,
                        fault,
                    )),
                }
            },
        },
{
    let key: [u8; 32] = match find_volumes_key(archive, volumes, password) {
        Ok(key) => key,
        Err(e) => {
            return Err(e);
        },
    };
    let reader: OpenedArchive = match open_volumes(volumes, &key) {
        Ok(reader) => reader,
        Err(e) => {
            return Err(TzapError::Format(own_fault(e)));
        },
    };
    match read_member(&reader, path) {
        Ok(content) => Ok(content),
        Err(e) => Err(TzapError::Format(own_fault(e))),
    }
}

/// An archive is listed as its members, one entry for each in order, with the path, the
/// size, the mode and the time of the member.
pub proof fn law_entries_tell_their_members(
    files: Result<Vec<ArchiveEntry>, FormatFault>,
    members: Seq<MemberView>,
)
    requires
        listed_as(files, Ok(members)),
    ensures
        files is Ok <==> forall|k: int|
            0 <= k < members.len() ==> {
                ||| (#[trigger] members[k]).kind is Regular
                ||| members[k].kind is Directory
                ||| members[k].kind is Symlink
                ||| members[k].kind is Hardlink
            },
        files matches Ok(list) ==> list@.len() == members.len() && forall|k: int|
            0 <= k < members.len() ==> {
                &&& (#[trigger] list@[k]).path@ == members[k].path
                &&& list@[k].file_data_size == members[k].size
                &&& list@[k].mode == members[k].mode
                &&& list@[k].mtime == members[k].seconds
                &&& list@[k].mtime_nanoseconds == members[k].nanoseconds
                &&& list@[k].kind is Regular <==> members[k].kind is Regular
                &&& list@[k].kind is Directory <==> members[k].kind is Directory
                &&& list@[k].kind is Symlink <==> members[k].kind is Symlink
                &&& list@[k].kind is Hardlink <==> members[k].kind is Hardlink
            },
{
    if files is Err {
        let k = choose|k: int|
            0 <= k < members.len() && known_kind((#[trigger] members[k]).kind) is None;
        assert(known_kind(members[k].kind) is None);
    } else {
        let list = files->Ok_0;
        assert forall|k: int| 0 <= k < members.len() implies tells(#[trigger] list@[k], members[k]) by {}
    }
}

/// The key of an archive in volumes follows from its first volume and the password; an
/// archive for recipients has none, and one without volumes cannot be read.
pub proof fn law_the_first_volume_tells_the_key(
    archive: Seq<char>,
    volumes: Seq<Seq<u8>>,
    password: Option<Seq<char>>,
)
    ensures
        volumes.len() == 0 ==> (volumes_key(archive, volumes, password) matches Err(
            TzapFault::Io { path, source },
        ) && path == archive),
        volumes.len() > 0 ==> match kdf_of(archive, volumes[0]) {
            Err(fault) => volumes_key(archive, volumes, password) == Err::<Seq<u8>, TzapFault>(
                fault,
            ),
            Ok(kdf) => match open_plan(kdf, volumes.len(), password, false, false) {
                Err(fault) => volumes_key(archive, volumes, password) == Err::<Seq<u8>, TzapFault>(
                    fault,
                ),
                Ok(plan) => if plan.key is Some {
                    volumes_key(archive, volumes, password) == Ok::<Seq<u8>, TzapFault>(plan.key->0)
                } else {
                    volumes_key(archive, volumes, password) == Err::<Seq<u8>, TzapFault>(
                        TzapFault::RecipientKeyRequired,
                    )
                },
            },
        },
{
}

/// What an opened archive holds is what its volumes hold under its key: the members, the
/// index, whether the contents are whole, and how it is signed.
pub proof fn law_opened_archives_hold_their_volumes(
    archive: TzapArchive,
    volumes: Seq<Seq<u8>>,
    key: Seq<u8>,
    largest: nat,
)
    requires
        holds(archive, volumes, key, largest),
    ensures
        archive.files is Ok ==> archive_members(volumes, key, largest) is Some,
        archive.index is Ok <==> archive_index(volumes, key, largest) is Some,
        archive.index matches Ok(index) ==> index@.len() == archive_index(
            volumes,
            key,
            largest,
        )->0.len() && forall|k: int|
            0 <= k < index@.len() ==> (#[trigger] index@[k]).path@ == archive_index(
                volumes,
                key,
                largest,
            )->0[k].path && index@[k].file_data_size == archive_index(volumes, key, largest)->0[k].size,
        archive.intact is Ok <==> archive_check(volumes, key, largest),
        archive.authenticator_id == archive_authenticator(volumes, key, largest),
{
    if archive.index is Ok {
        let index = archive.index->Ok_0;
        assert(index_views(index@).len() == index@.len());
        assert forall|k: int| 0 <= k < index@.len() implies (#[trigger] index@[k]).path@
            == archive_index(volumes, key, largest)->0[k].path && index@[k].file_data_size
            == archive_index(volumes, key, largest)->0[k].size by {
            assert(index_views(index@)[k].path == index@[k].path@);
        }
    }
}

/// An archive is refused as the reader refuses it, and only where it does not open.
pub proof fn law_unopened_archives_are_refused_as_the_reader_refuses_them(
    fault: TzapFault,
    volumes: Seq<Seq<u8>>,
    key: Seq<u8>,
    largest: nat,
)
    requires
        is_open_fault(fault, volumes, key, largest),
    ensures
        !archive_opens(volumes, key, largest),
        fault matches TzapFault::Format(refusal) && open_refusal(volumes, key, largest, refusal),
{
}

} // verus!
