//! Opening archives in files: which key is asked for, and what the reader is told
//! and says.
//!
//! The caller opens the files and hands the format reader the key that was planned.
//! What came of it is settled here, together with what the archive stores of its
//! key.
use crate::failure::IoFailure;
use crate::tzap::archive::TzapArchive;
#[allow(unused_imports)]
use crate::tzap::archive::{TzapEntry, TzapListing, is_listing};
use crate::tzap::error::{FormatFault, TzapError};
#[allow(unused_imports)]
use crate::tzap::error::TzapFault;
use crate::tzap::keys::{
    KdfParams, OpenPlan, RecipientWrapOpenStats, TzapRecipientPrivateKeyLookup,
    choose_key_route, read_archive_kdf, recipient_wrap_open_error,
};
#[allow(unused_imports)]
use crate::tzap::keys::{
    CandidateView, KdfView, KeyPartsView, OpenPlanView, archive_kdf, candidates_of, first_unopened,
    key_route, lookup_result, mismatch, open_plan, password_view, plan_result, wrap_open_fault,
};
use crate::tzap::volumes::VolumeCandidate;
#[allow(unused_imports)]
use crate::tzap::volumes::candidate_views;
use vstd::prelude::*;

verus! {

/// An archive in files, with what opening it came to.
pub struct ArchiveInput {
    /// The path that was asked for.
    pub path: String,
    /// The volumes that were found for it.
    pub volumes: Vec<VolumeCandidate>,
    /// The start of the first volume.
    pub first_file: Result<Vec<u8>, IoFailure>,
    /// What opening each volume came to.
    pub opened: Vec<Result<(), IoFailure>>,
    /// What opening the archive with the planned key came to.
    pub archive: Result<TzapArchive, TzapError>,
}

/// An archive and an error, taken by its view.
pub open spec fn archive_result(r: Result<TzapArchive, TzapError>) -> Result<
    TzapArchive,
    TzapFault,
> {
    match r {
        Ok(archive) => Ok(archive),
        Err(e) => Err(e@),
    }
}

/// An archive that is lent, and an error, taken by its view.
pub open spec fn lent_archive(r: Result<&TzapArchive, TzapError>) -> Result<
    TzapArchive,
    TzapFault,
> {
    match r {
        Ok(archive) => Ok(*archive),
        Err(e) => Err(e@),
    }
}

impl ArchiveInput {
    /// Whether opening was tried for every volume.
    pub open spec fn is_complete(&self) -> bool {
        self.opened@.len() == self.volumes@.len()
    }

    /// The key parameters that the archive stores.
    pub open spec fn kdf(&self) -> Result<KdfView, TzapFault> {
        archive_kdf(
            self.path@,
            self.volumes@,
            crate::codec::data_view(self.first_file),
            self.opened@,
        )
    }

    /// The archive that a caller with a password, a recipient's key in a file or in
    /// memory, or nothing gets: where what the archive stores of its key asks for
    /// something else, the reader is not asked.
    pub open spec fn opened_with(
        &self,
        password: Option<Seq<char>>,
        key_file: bool,
        key_bytes: bool,
    ) -> Result<TzapArchive, TzapFault> {
        match self.kdf() {
            Err(fault) => Err(fault),
            Ok(kdf) => match key_route(kdf, password, key_file, key_bytes) {
                Err(fault) => Err(fault),
                Ok(_) => archive_result(self.archive),
            },
        }
    }

    /// The archive that a caller gets, given what it has.
    pub fn open_with(&self, password: Option<&str>, key_file: bool, key_bytes: bool) -> (archive:
        Result<&TzapArchive, TzapError>)
        requires
            self.is_complete(),
        ensures
            lent_archive(archive) == self.opened_with(password_view(password), key_file, key_bytes),
    {
        let kdf: KdfParams = match read_archive_kdf(
            self.path.as_str(),
            &self.volumes,
            &self.first_file,
            &self.opened,
        ) {
            Ok(kdf) => kdf,
            Err(e) => {
                return Err(e);
            },
        };
        match choose_key_route(&kdf, password, key_file, key_bytes) {
            Ok(_) => {},
            Err(e) => {
                return Err(e);
            },
        }
        match &self.archive {
            Ok(archive) => Ok(archive),
            Err(e) => Err(e.copy()),
        }
    }
}

/// What opening an archive comes to, given the plan, the recipient's keys where the
/// plan asks for them, and what the reader says with the key that they give.
pub open spec fn settled_archive(
    plan: Result<OpenPlanView, TzapFault>,
    lookup: Option<Result<Seq<CandidateView>, TzapFault>>,
    reader: Result<TzapArchive, FormatFault>,
    stats: RecipientWrapOpenStats,
) -> Result<TzapArchive, TzapFault> {
    match plan {
        Err(fault) => Err(fault),
        Ok(plan) => if plan.key is Some {
            match reader {
                Ok(archive) => Ok(archive),
                Err(fault) => Err(TzapFault::Format(fault@)),
            }
        } else {
            match lookup {
                None => Err(TzapFault::RecipientKeyRequired),
                Some(Err(fault)) => Err(fault),
                Some(Ok(_)) => match reader {
                    Ok(archive) => Ok(archive),
                    Err(fault) => Err(wrap_open_fault(fault@, stats)),
                },
            }
        },
    }
}

/// A recipient's keys, if they were asked for, taken by their views.
pub open spec fn lookup_option(
    lookup: Option<Result<TzapRecipientPrivateKeyLookup, TzapError>>,
) -> Option<Result<Seq<CandidateView>, TzapFault>> {
    match lookup {
        Some(lookup) => Some(lookup_result(lookup)),
        None => None,
    }
}

/// Settles what opening an archive comes to.
pub fn settle_opened_archive(
    plan: Result<OpenPlan, TzapError>,
    lookup: &Option<Result<TzapRecipientPrivateKeyLookup, TzapError>>,
    reader: Result<TzapArchive, FormatFault>,
    stats: &RecipientWrapOpenStats,
) -> (archive: Result<TzapArchive, TzapError>)
    ensures
        archive_result(archive) == settled_archive(
            plan_result(plan),
            lookup_option(*lookup),
            reader,
            *stats,
        ),
{
    let plan: OpenPlan = match plan {
        Ok(plan) => plan,
        Err(e) => {
            return Err(e);
        },
    };
    match plan.key {
        Some(_) => match reader {
            Ok(archive) => Ok(archive),
            Err(fault) => Err(TzapError::Format(fault)),
        },
        None => match lookup {
            None => Err(TzapError::RecipientKeyRequired),
            Some(Err(e)) => Err(e.copy()),
            Some(Ok(_)) => match reader {
                Ok(archive) => Ok(archive),
                Err(fault) => Err(recipient_wrap_open_error(fault, stats)),
            },
        },
    }
}

/// Without a password, an archive with a derived key asks for one, an archive for
/// recipients asks for a recipient's key, and the others are opened with the
/// all-zero key.
pub proof fn law_no_password_opens_archives_without_a_secret(input: ArchiveInput, volumes: nat)
    ensures
        input.kdf() matches Ok(kdf) ==> match kdf {
            KdfView::Argon2id { .. } => input.opened_with(None, false, false) == Err::<
                TzapArchive,
                TzapFault,
            >(TzapFault::PasswordRequired),
            KdfView::RecipientWrap => input.opened_with(None, false, false) == Err::<
                TzapArchive,
                TzapFault,
            >(TzapFault::RecipientKeyRequired),
            _ => input.opened_with(None, false, false) == archive_result(input.archive) && (
            open_plan(kdf, volumes, None, false, false) matches Ok(plan) && plan.key == Some(
                crate::tzap::keys::placeholder_key(),
            )),
        },
{
}

/// A recipient's key opens no archive that is not wrapped for recipients, whatever
/// the reader would say.
pub proof fn law_recipient_keys_need_a_wrapped_archive(
    input: ArchiveInput,
    key_file: bool,
    key_bytes: bool,
)
    requires
        key_file || key_bytes,
    ensures
        input.kdf() matches Ok(kdf) ==> (!(kdf is RecipientWrap) ==> input.opened_with(
            None,
            key_file,
            key_bytes,
        ) == Err::<TzapArchive, TzapFault>(mismatch())),
{
}

/// A recipient's key in memory does what the same key in a file does: the same
/// archives are opened with it, and whatever OpenSSL makes of its bytes, both give
/// the same keys or neither gives any.
pub proof fn law_key_in_memory_is_key_in_file(
    input: ArchiveInput,
    key: Vec<u8>,
    parsed: Seq<Result<KeyPartsView, Seq<char>>>,
    path: Seq<char>,
    description: Seq<char>,
)
    requires
        parsed.len() == 1,
    ensures
        input.opened_with(None, true, false) == input.opened_with(None, false, true),
        candidates_of(seq![key], parsed, path) is Ok <==> candidates_of(
            seq![key],
            parsed,
            description,
        ) is Ok,
        candidates_of(seq![key], parsed, path) is Ok ==> candidates_of(seq![key], parsed, path)
            == candidates_of(seq![key], parsed, description),
{
    assert(seq![key].drop_last() =~= Seq::<Vec<u8>>::empty());
    reveal_with_fuel(candidates_of, 2);
}

/// Which recipient opens an archive does not show: every recipient for whose key the
/// reader opens it gets the same archive, and so the same listing.
pub proof fn law_recipients_get_the_same_archive(
    plan: OpenPlanView,
    one: Seq<CandidateView>,
    one_stats: RecipientWrapOpenStats,
    other: Seq<CandidateView>,
    other_stats: RecipientWrapOpenStats,
    archive: TzapArchive,
    listing: Result<TzapListing, TzapError>,
)
    requires
        plan.key is None,
    ensures
        settled_archive(Ok(plan), Some(Ok(one)), Ok(archive), one_stats) == Ok::<
            TzapArchive,
            TzapFault,
        >(archive),
        is_listing(listing, settled_archive(Ok(plan), Some(Ok(one)), Ok(archive), one_stats))
            <==> is_listing(
            listing,
            settled_archive(Ok(plan), Some(Ok(other)), Ok(archive), other_stats),
        ),
{
}

/// What a caller gets rests on the volumes alone, not on the path that they were found
/// by: two paths that stand for one set open alike and are listed alike.
pub proof fn law_every_path_of_a_set_opens_alike(
    one: ArchiveInput,
    other: ArchiveInput,
    password: Option<Seq<char>>,
    key_file: bool,
    key_bytes: bool,
    first: Result<TzapListing, TzapError>,
    second: Result<TzapListing, TzapError>,
)
    requires
        one.volumes@.len() > 0,
        candidate_views(one.volumes@) == candidate_views(other.volumes@),
        one.first_file == other.first_file,
        one.opened@ == other.opened@,
        one.is_complete(),
        one.archive == other.archive,
        is_listing(first, one.opened_with(password, key_file, key_bytes)),
        is_listing(second, other.opened_with(password, key_file, key_bytes)),
    ensures
        one.opened_with(password, key_file, key_bytes) == other.opened_with(
            password,
            key_file,
            key_bytes,
        ),
        first is Ok <==> second is Ok,
        first matches Ok(x) ==> (second matches Ok(y) ==> x.entries@.len() == y.entries@.len()
            && forall|k: int|
            0 <= k < x.entries@.len() ==> same_entry(#[trigger] x.entries@[k], y.entries@[k])),
        first matches Err(e) ==> (second matches Err(f) ==> e@ == f@),
{
    let views = candidate_views(one.volumes@);
    assert(views.len() == one.volumes@.len());
    assert(candidate_views(other.volumes@).len() == other.volumes@.len());
    assert forall|k: int| 0 <= k < one.volumes@.len() implies (#[trigger] one.volumes@[k]).path@
        == other.volumes@[k].path@ by {
        assert(views[k].name == one.volumes@[k].path@);
        assert(candidate_views(other.volumes@)[k].name == other.volumes@[k].path@);
    }
    assert(one.volumes@[0].path@ == other.volumes@[0].path@);
    lemma_first_unopened(one.opened@);
    let at = first_unopened(one.opened@);
    if at < one.opened@.len() {
        assert(one.volumes@[at].path@ == other.volumes@[at].path@);
    }
    assert(one.kdf() == other.kdf());
}

/// Whether two listed entries tell the same.
pub open spec fn same_entry(one: TzapEntry, other: TzapEntry) -> bool {
    &&& one.path@ == other.path@
    &&& one.kind == other.kind
    &&& one.size == other.size
    &&& one.mode == other.mode
    &&& one.mtime == other.mtime
    &&& one.mtime_nanoseconds == other.mtime_nanoseconds
}

proof fn lemma_first_unopened(opened: Seq<Result<(), IoFailure>>)
    ensures
        0 <= first_unopened(opened) <= opened.len(),
    decreases opened.len(),
{
    if opened.len() > 0 {
        lemma_first_unopened(opened.drop_last());
    }
}

/// An archive with a known key is opened as the reader opens it; one for recipients needs
/// somebody's key to be looked up first.
pub proof fn law_archives_open_as_the_reader_opens_them(
    plan: OpenPlanView,
    lookup: Option<Result<Seq<CandidateView>, TzapFault>>,
    archive: TzapArchive,
    fault: FormatFault,
    stats: RecipientWrapOpenStats,
)
    ensures
        plan.key is Some ==> settled_archive(Ok(plan), lookup, Ok(archive), stats) == Ok::<
            TzapArchive,
            TzapFault,
        >(archive),
        plan.key is Some ==> settled_archive(Ok(plan), lookup, Err(fault), stats) == Err::<
            TzapArchive,
            TzapFault,
        >(TzapFault::Format(fault@)),
        plan.key is None && lookup is None ==> settled_archive(
            Ok(plan),
            lookup,
            Ok(archive),
            stats,
        ) == Err::<TzapArchive, TzapFault>(TzapFault::RecipientKeyRequired),
        plan.key is None ==> (lookup matches Some(Err(reason)) ==> settled_archive(
            Ok(plan),
            lookup,
            Ok(archive),
            stats,
        ) == Err::<TzapArchive, TzapFault>(reason)),
        plan.key is None ==> (lookup matches Some(Ok(_)) ==> settled_archive(
            Ok(plan),
            lookup,
            Err(fault),
            stats,
        ) == Err::<TzapArchive, TzapFault>(wrap_open_fault(fault@, stats))),
        forall|reason: TzapFault, reader: Result<TzapArchive, FormatFault>| #[trigger]
            settled_archive(Err(reason), lookup, reader, stats) == Err::<TzapArchive, TzapFault>(
                reason,
            ),
{
}

} // verus!
