//! Keys: how an archive protects its contents, which key opens it, and which
//! key a new archive gets.
use crate::failure::{IoFailure, IoKind};
#[allow(unused_imports)]
use crate::failure::IoFailureView;
use crate::bytes::same_bytes;
use crate::text::{concat2, concat3, concat4, decimal_text};
#[allow(unused_imports)]
use crate::text::decimal;
use crate::tzap::error::{
    FormatFault, TzapError, io_error, io_failed, oversized_message, own_result,
};
use crate::tzap::inventory::copy_bytes;
#[allow(unused_imports)]
use crate::tzap::error::{
    FormatFaultView, TzapFault, faulted, format_message, oversized_text, told,
};
use crate::tzap::headers::{PublicTzapHeader, read_public_tzap_header_from};
#[allow(unused_imports)]
use crate::tzap::headers::{HeaderView, public_header};
use crate::tzap::volumes::VolumeCandidate;
#[allow(unused_imports)]
use crate::tzap::error::no_volumes;
use vstd::prelude::*;

verus! {

/// How the key of an archive is found.
#[derive(Debug, PartialEq, Eq)]
pub enum KdfParams {
    /// The contents are not encrypted.
    Unencrypted,
    /// The key is given as it is.
    Raw,
    /// The key is derived from a passphrase.
    Argon2id {
        /// How many passes are made over the memory.
        t_cost: u32,
        /// How much memory is filled, in KiB.
        m_cost_kib: u32,
        /// How many lanes there are.
        parallelism: u32,
        /// What the passphrase is mixed with.
        salt: Vec<u8>,
    },
    /// The key is wrapped for its recipients.
    RecipientWrap,
}

/// How the key of an archive is found, with the salt taken as a sequence.
pub enum KdfView {
    Unencrypted,
    Raw,
    Argon2id { t_cost: u32, m_cost_kib: u32, parallelism: u32, salt: Seq<u8> },
    RecipientWrap,
}

impl View for KdfParams {
    type V = KdfView;

    open spec fn view(&self) -> KdfView {
        match self {
            KdfParams::Unencrypted => KdfView::Unencrypted,
            KdfParams::Raw => KdfView::Raw,
            KdfParams::Argon2id { t_cost, m_cost_kib, parallelism, salt } => KdfView::Argon2id {
                t_cost: *t_cost,
                m_cost_kib: *m_cost_kib,
                parallelism: *parallelism,
                salt: salt@,
            },
            KdfParams::RecipientWrap => KdfView::RecipientWrap,
        }
    }
}

/// A result with its parameters taken by their view.
pub open spec fn kdf_result(r: Result<KdfParams, FormatFaultView>) -> Result<
    KdfView,
    FormatFaultView,
> {
    match r {
        Ok(kdf) => Ok(kdf@),
        Err(fault) => Err(fault),
    }
}

/// The key parameters that `CryptoHeader::parse` of tzap-core reads from a whole
/// crypto header whose length the volume header gives, or the fault that it finds.
pub uninterp spec fn parsed_kdf_params(bytes: Seq<u8>, length: u32) -> Result<
    KdfView,
    FormatFaultView,
>;

/// Calls `tzap_core::wire::CryptoHeader::parse` and keeps its key parameters.
/// The result is a function of the two arguments.
#[verifier::external_body]
pub(crate) fn parse_kdf_params(bytes: &[u8], length: u32) -> (kdf: Result<
    KdfParams,
    tzap_core::FormatError,
>)
    ensures
        kdf_result(told(kdf)) == parsed_kdf_params(bytes@, length),
{
    let header = tzap_core::wire::CryptoHeader::parse(bytes, length)?;
    Ok(match header.kdf_params {
        tzap_core::KdfParams::None => KdfParams::Unencrypted,
        tzap_core::KdfParams::Raw => KdfParams::Raw,
        tzap_core::KdfParams::Argon2id { t_cost, m_cost_kib, parallelism, salt } => {
            KdfParams::Argon2id { t_cost, m_cost_kib, parallelism, salt }
        }
        tzap_core::KdfParams::RecipientWrap { .. } => KdfParams::RecipientWrap,
    })
}

/// The key parameters of a volume, given its public headers and what was made of
/// its crypto header.
pub open spec fn settled_kdf(
    header: Result<HeaderView, TzapFault>,
    parsed: Result<KdfView, FormatFaultView>,
) -> Result<KdfView, TzapFault> {
    match (header, parsed) {
        (Err(fault), _) => Err(fault),
        (Ok(_), Err(fault)) => Err(TzapFault::Format(fault)),
        (Ok(_), Ok(kdf)) => Ok(kdf),
    }
}

/// The key parameters at the start of a volume file.
pub open spec fn kdf_of(path: Seq<char>, file: Seq<u8>) -> Result<KdfView, TzapFault> {
    let header = public_header(path, file);
    settled_kdf(
        header,
        parsed_kdf_params(header->Ok_0.bytes, header->Ok_0.volume.crypto_header_length),
    )
}

/// A result with its parameters and its error taken by their views.
pub open spec fn kdf_outcome(r: Result<KdfParams, TzapError>) -> Result<KdfView, TzapFault> {
    match r {
        Ok(kdf) => Ok(kdf@),
        Err(e) => Err(e@),
    }
}

/// The key parameters of a volume whose headers were accepted.
pub fn settle_kdf_params(parsed: Result<KdfParams, FormatFault>) -> (kdf: Result<
    KdfParams,
    TzapError,
>)
    ensures
        forall|header: HeaderView|
            kdf_outcome(kdf) == #[trigger] settled_kdf(Ok(header), kdf_result(faulted(parsed))),
{
    match parsed {
        Ok(kdf) => Ok(kdf),
        Err(fault) => Err(TzapError::Format(fault)),
    }
}

/// Reads the key parameters at the start of a volume file.
pub fn read_kdf_params(path: &str, file: &[u8]) -> (kdf: Result<KdfParams, TzapError>)
    ensures
        kdf_outcome(kdf) == kdf_of(path@, file@),
{
    let header: PublicTzapHeader = match read_public_tzap_header_from(path, file) {
        Ok(header) => header,
        Err(e) => {
            return Err(e);
        },
    };
    let parsed: Result<KdfParams, FormatFault> = own_result(
        parse_kdf_params(
            header.crypto_header_bytes.as_slice(),
            header.volume_header.crypto_header_length,
        ),
    );
    let ghost seen = kdf_result(faulted(parsed));
    let kdf: Result<KdfParams, TzapError> = settle_kdf_params(parsed);
    assert(kdf_outcome(kdf) == settled_kdf(Ok(header@), seen));
    kdf
}

/// Where the key that opens an archive comes from.
#[derive(Clone, Copy, Debug, PartialEq, Eq, Structural)]
pub enum KeyRoute {
    /// A recipient's private key in a file.
    RecipientFile,
    /// A recipient's private keys in memory.
    RecipientBytes,
    /// The all-zero key of archives without a secret.
    Placeholder,
    /// A passphrase.
    Passphrase,
}

/// The fault of a key that does not fit the archive.
pub open spec fn mismatch() -> TzapFault {
    TzapFault::Format(FormatFaultView::KeyMaterialMismatch)
}

/// Where the key that opens an archive comes from, given what the caller has.
/// An empty password counts as none for an archive with a raw key.
pub open spec fn key_route(
    kdf: KdfView,
    password: Option<Seq<char>>,
    key_file: bool,
    key_bytes: bool,
) -> Result<KeyRoute, TzapFault> {
    match kdf {
        KdfView::RecipientWrap => if password is Some {
            Err(mismatch())
        } else if key_file && key_bytes {
            Err(mismatch())
        } else if key_file {
            Ok(KeyRoute::RecipientFile)
        } else if key_bytes {
            Ok(KeyRoute::RecipientBytes)
        } else {
            Err(TzapFault::RecipientKeyRequired)
        },
        _ => if key_file || key_bytes {
            Err(mismatch())
        } else {
            match (kdf, password) {
                (KdfView::Unencrypted, _) => Ok(KeyRoute::Placeholder),
                (KdfView::Raw, Some(password)) => if password.len() == 0 {
                    Ok(KeyRoute::Placeholder)
                } else {
                    Err(mismatch())
                },
                (KdfView::Raw, None) => Ok(KeyRoute::Placeholder),
                (_, Some(_)) => Ok(KeyRoute::Passphrase),
                (_, None) => Err(TzapFault::PasswordRequired),
            }
        },
    }
}

/// A password with its text taken as a sequence.
pub open spec fn password_view(password: Option<&str>) -> Option<Seq<char>> {
    match password {
        Some(p) => Some(p@),
        None => None,
    }
}

/// A result with its error taken by its view.
pub open spec fn route_result(r: Result<KeyRoute, TzapError>) -> Result<KeyRoute, TzapFault> {
    match r {
        Ok(route) => Ok(route),
        Err(e) => Err(e@),
    }
}

fn mismatch_error() -> (error: TzapError)
    ensures
        error@ == mismatch(),
{
    TzapError::Format(FormatFault::KeyMaterialMismatch)
}

/// Decides where the key that opens an archive comes from.
pub fn choose_key_route(
    kdf: &KdfParams,
    password: Option<&str>,
    key_file: bool,
    key_bytes: bool,
) -> (route: Result<KeyRoute, TzapError>)
    ensures
        route_result(route) == key_route(kdf@, password_view(password), key_file, key_bytes),
{
    match kdf {
        KdfParams::RecipientWrap => {
            match password {
                Some(_) => {
                    return Err(mismatch_error());
                },
                None => {},
            }
            if !key_file && !key_bytes {
                return Err(TzapError::RecipientKeyRequired);
            }
            if key_file && key_bytes {
                return Err(mismatch_error());
            }
            if key_file {
                Ok(KeyRoute::RecipientFile)
            } else {
                Ok(KeyRoute::RecipientBytes)
            }
        },
        KdfParams::Unencrypted => {
            if key_file || key_bytes {
                return Err(mismatch_error());
            }
            Ok(KeyRoute::Placeholder)
        },
        KdfParams::Raw => {
            if key_file || key_bytes {
                return Err(mismatch_error());
            }
            match password {
                Some(p) => if p.unicode_len() == 0 {
                    Ok(KeyRoute::Placeholder)
                } else {
                    Err(mismatch_error())
                },
                None => Ok(KeyRoute::Placeholder),
            }
        },
        KdfParams::Argon2id { .. } => {
            if key_file || key_bytes {
                return Err(mismatch_error());
            }
            match password {
                Some(_) => Ok(KeyRoute::Passphrase),
                None => Err(TzapError::PasswordRequired),
            }
        },
    }
}

/// What `MasterKey::derive_from_passphrase` of tzap-core derives with Argon2id,
/// or the fault that it finds.
pub uninterp spec fn derived_key(
    t_cost: u32,
    m_cost_kib: u32,
    parallelism: u32,
    salt: Seq<u8>,
    passphrase: Seq<char>,
) -> Result<Seq<u8>, FormatFaultView>;

/// A result with its key taken as a sequence.
pub open spec fn key_result(r: Result<[u8; 32], FormatFaultView>) -> Result<
    Seq<u8>,
    FormatFaultView,
> {
    match r {
        Ok(key) => Ok(key@),
        Err(fault) => Err(fault),
    }
}

/// Calls `tzap_core::MasterKey::derive_from_passphrase` for Argon2id parameters.
/// The key is a function of the parameters, the salt and the passphrase.
#[verifier::external_body]
pub(crate) fn derive_key(
    t_cost: u32,
    m_cost_kib: u32,
    parallelism: u32,
    salt: &Vec<u8>,
    passphrase: &str,
) -> (key: Result<[u8; 32], tzap_core::FormatError>)
    ensures
        key_result(told(key)) == derived_key(t_cost, m_cost_kib, parallelism, salt@, passphrase@),
{
    let params = tzap_core::KdfParams::Argon2id { t_cost, m_cost_kib, parallelism, salt: salt.clone() };
    tzap_core::MasterKey::derive_from_passphrase(&params, passphrase).map(|key| key.0)
}

/// The master key of archives without a secret.
pub open spec fn placeholder_key() -> Seq<u8> {
    crate::bytes::zeros(32)
}

/// The master key of archives without a secret.
pub fn placeholder_master_key() -> (key: [u8; 32])
    ensures
        key@ == placeholder_key(),
{
    let key: [u8; 32] = [0;32];
    assert(key@ =~= placeholder_key());
    key
}

/// A key that was derived, or the fault of one that could not be.
pub open spec fn settled_key(derived: Result<Seq<u8>, FormatFaultView>) -> Result<
    Seq<u8>,
    TzapFault,
> {
    match derived {
        Ok(key) => Ok(key),
        Err(fault) => Err(TzapFault::Format(fault)),
    }
}

/// The key that a passphrase gives under the parameters of an archive.
pub open spec fn passphrase_key(kdf: KdfView, passphrase: Seq<char>) -> Result<Seq<u8>, TzapFault> {
    match kdf {
        KdfView::Argon2id { t_cost, m_cost_kib, parallelism, salt } => settled_key(
            derived_key(t_cost, m_cost_kib, parallelism, salt, passphrase),
        ),
        _ => Err(mismatch()),
    }
}

/// A result with its key and its error taken by their views.
pub open spec fn key_outcome(r: Result<[u8; 32], TzapError>) -> Result<Seq<u8>, TzapFault> {
    match r {
        Ok(key) => Ok(key@),
        Err(e) => Err(e@),
    }
}

/// A key that was derived, or the error of one that could not be.
pub fn settle_key(derived: Result<[u8; 32], FormatFault>) -> (key: Result<[u8; 32], TzapError>)
    ensures
        key_outcome(key) == settled_key(key_result(faulted(derived))),
{
    match derived {
        Ok(key) => Ok(key),
        Err(fault) => Err(TzapError::Format(fault)),
    }
}

/// Derives the key that a passphrase gives under the parameters of an archive.
pub fn derive_from_passphrase(kdf: &KdfParams, passphrase: &str) -> (key: Result<
    [u8; 32],
    TzapError,
>)
    ensures
        key_outcome(key) == passphrase_key(kdf@, passphrase@),
{
    match kdf {
        KdfParams::Argon2id { t_cost, m_cost_kib, parallelism, salt } => settle_key(
            own_result(derive_key(*t_cost, *m_cost_kib, *parallelism, salt, passphrase)),
        ),
        _ => Err(mismatch_error()),
    }
}

/// What has to be done to open an archive.
#[derive(Debug, PartialEq, Eq)]
pub struct OpenPlan {
    /// Where the key comes from.
    pub route: KeyRoute,
    /// The key, unless a recipient's private key has to unwrap it.
    pub key: Option<[u8; 32]>,
    /// Whether the archive is in one file.
    pub single_volume: bool,
}

/// The plan to open an archive, with the key taken as a sequence.
pub struct OpenPlanView {
    pub route: KeyRoute,
    pub key: Option<Seq<u8>>,
    pub single_volume: bool,
}

impl View for OpenPlan {
    type V = OpenPlanView;

    open spec fn view(&self) -> OpenPlanView {
        OpenPlanView {
            route: self.route,
            key: match self.key {
                Some(key) => Some(key@),
                None => None,
            },
            single_volume: self.single_volume,
        }
    }
}

/// A result with its plan and its error taken by their views.
pub open spec fn plan_result(r: Result<OpenPlan, TzapError>) -> Result<OpenPlanView, TzapFault> {
    match r {
        Ok(plan) => Ok(plan@),
        Err(e) => Err(e@),
    }
}

/// The first volume that could not be opened, or the number of volumes.
pub open spec fn first_unopened(opened: Seq<Result<(), IoFailure>>) -> int
    decreases opened.len(),
{
    if opened.len() == 0 {
        0
    } else {
        let earlier = first_unopened(opened.drop_last());
        if earlier < opened.len() - 1 || opened.last() is Err {
            earlier
        } else {
            opened.len() as int
        }
    }
}

/// The plan to open an archive of some volumes whose key parameters are known.
pub open spec fn open_plan(
    kdf: KdfView,
    volume_count: nat,
    password: Option<Seq<char>>,
    key_file: bool,
    key_bytes: bool,
) -> Result<OpenPlanView, TzapFault> {
    let single_volume = volume_count == 1;
    match key_route(kdf, password, key_file, key_bytes) {
        Err(fault) => Err(fault),
        Ok(KeyRoute::Placeholder) => Ok(
            OpenPlanView {
                route: KeyRoute::Placeholder,
                key: Some(placeholder_key()),
                single_volume,
            },
        ),
        Ok(KeyRoute::Passphrase) => match passphrase_key(kdf, password->0) {
            Ok(key) => Ok(
                OpenPlanView { route: KeyRoute::Passphrase, key: Some(key), single_volume },
            ),
            Err(fault) => Err(fault),
        },
        Ok(route) => Ok(OpenPlanView { route, key: None, single_volume }),
    }
}

/// The key parameters of an archive: its first volume names them, and every volume
/// has to open.
pub open spec fn archive_kdf(
    archive: Seq<char>,
    volumes: Seq<VolumeCandidate>,
    first_file: Result<Seq<u8>, IoFailureView>,
    opened: Seq<Result<(), IoFailure>>,
) -> Result<KdfView, TzapFault> {
    if volumes.len() == 0 {
        Err(TzapFault::Io { path: archive, source: no_volumes() })
    } else {
        match first_file {
            Err(failure) => Err(TzapFault::Io { path: volumes[0].path@, source: failure }),
            Ok(bytes) => match kdf_of(volumes[0].path@, bytes) {
                Err(fault) => Err(fault),
                Ok(kdf) => {
                    let at = first_unopened(opened);
                    if at < opened.len() {
                        Err(
                            TzapFault::Io {
                                path: volumes[at].path@,
                                source: (opened[at]->Err_0)@,
                            },
                        )
                    } else {
                        Ok(kdf)
                    }
                },
            },
        }
    }
}

/// The plan to open an archive.
pub open spec fn archive_plan(
    archive: Seq<char>,
    volumes: Seq<VolumeCandidate>,
    first_file: Result<Seq<u8>, IoFailureView>,
    opened: Seq<Result<(), IoFailure>>,
    password: Option<Seq<char>>,
    key_file: bool,
    key_bytes: bool,
) -> Result<OpenPlanView, TzapFault> {
    match archive_kdf(archive, volumes, first_file, opened) {
        Err(fault) => Err(fault),
        Ok(kdf) => open_plan(kdf, volumes.len(), password, key_file, key_bytes),
    }
}

/// Plans how an archive of `volume_count` volumes is opened.
pub fn plan_open(
    kdf: &KdfParams,
    volume_count: usize,
    password: Option<&str>,
    key_file: bool,
    key_bytes: bool,
) -> (plan: Result<OpenPlan, TzapError>)
    ensures
        plan_result(plan) == open_plan(
            kdf@,
            volume_count as nat,
            password_view(password),
            key_file,
            key_bytes,
        ),
{
    let single_volume: bool = volume_count == 1;
    let route: KeyRoute = match choose_key_route(kdf, password, key_file, key_bytes) {
        Ok(route) => route,
        Err(e) => {
            return Err(e);
        },
    };
    match route {
        KeyRoute::Placeholder => Ok(
            OpenPlan { route, key: Some(placeholder_master_key()), single_volume },
        ),
        KeyRoute::Passphrase => match password {
            Some(passphrase) => match derive_from_passphrase(kdf, passphrase) {
                Ok(key) => Ok(OpenPlan { route, key: Some(key), single_volume }),
                Err(e) => Err(e),
            },
            None => Err(TzapError::PasswordRequired),
        },
        _ => Ok(OpenPlan { route, key: None, single_volume }),
    }
}

/// The first volume that could not be opened, or the number of volumes.
pub fn find_unopened(opened: &Vec<Result<(), IoFailure>>) -> (at: usize)
    ensures
        at as int == first_unopened(opened@),
        at <= opened@.len(),
        at < opened@.len() ==> opened@[at as int] is Err,
{
    let mut i: usize = 0;
    while i < opened.len()
        invariant
            i <= opened@.len(),
            first_unopened(opened@.take(i as int)) == i,
        decreases opened@.len() - i,
    {
        assert(opened@.take(i + 1).drop_last() =~= opened@.take(i as int));
        match &opened[i] {
            Ok(_) => {},
            Err(_) => {
                proof {
                    lemma_unopened(opened@, i as int);
                }
                return i;
            },
        }
        i = i + 1;
    }
    assert(opened@.take(opened@.len() as int) =~= opened@);
    i
}

proof fn lemma_unopened(opened: Seq<Result<(), IoFailure>>, at: int)
    requires
        0 <= at < opened.len(),
        first_unopened(opened.take(at)) == at,
        opened[at] is Err,
    ensures
        first_unopened(opened) == at,
    decreases opened.len(),
{
    if at == opened.len() - 1 {
        assert(opened.drop_last() =~= opened.take(at));
    } else {
        assert(opened.drop_last().take(at) =~= opened.take(at));
        lemma_unopened(opened.drop_last(), at);
    }
}

/// Reads the key parameters of an archive. `first_file` is the start of the first
/// volume, and `opened` says of each volume whether it could be opened.
pub fn read_archive_kdf(
    archive: &str,
    volumes: &Vec<VolumeCandidate>,
    first_file: &Result<Vec<u8>, IoFailure>,
    opened: &Vec<Result<(), IoFailure>>,
) -> (kdf: Result<KdfParams, TzapError>)
    requires
        opened@.len() == volumes@.len(),
    ensures
        kdf_outcome(kdf) == archive_kdf(
            archive@,
            volumes@,
            crate::codec::data_view(*first_file),
            opened@,
        ),
{
    if volumes.len() == 0 {
        return Err(io_error(archive, IoKind::NotFound, "no TZAP input volumes found"));
    }
    let first_path: &String = &volumes[0].path;
    let kdf: KdfParams = match first_file {
        Ok(bytes) => match read_kdf_params(first_path.as_str(), bytes.as_slice()) {
            Ok(kdf) => kdf,
            Err(e) => {
                return Err(e);
            },
        },
        Err(failure) => {
            return Err(io_failed(first_path.as_str(), failure));
        },
    };
    let at: usize = find_unopened(opened);
    if at < opened.len() {
        match &opened[at] {
            Err(failure) => {
                return Err(io_failed(volumes[at].path.as_str(), failure));
            },
            Ok(_) => {},
        }
    }
    Ok(kdf)
}

/// Plans how an archive is opened. `first_file` is the start of the first
/// volume, `opened` says of each volume whether it could be opened, and the
/// flags say which recipient keys the caller has.
pub fn open_tzap_archive_with_key_options_multi(
    archive: &str,
    volumes: &Vec<VolumeCandidate>,
    first_file: &Result<Vec<u8>, IoFailure>,
    opened: &Vec<Result<(), IoFailure>>,
    password: Option<&str>,
    key_file: bool,
    key_bytes: bool,
) -> (plan: Result<OpenPlan, TzapError>)
    requires
        opened@.len() == volumes@.len(),
    ensures
        plan_result(plan) == archive_plan(
            archive@,
            volumes@,
            crate::codec::data_view(*first_file),
            opened@,
            password_view(password),
            key_file,
            key_bytes,
        ),
{
    let kdf: KdfParams = match read_archive_kdf(archive, volumes, first_file, opened) {
        Ok(kdf) => kdf,
        Err(e) => {
            return Err(e);
        },
    };
    plan_open(&kdf, volumes.len(), password, key_file, key_bytes)
}

/// The costs of a new archive's key derivation, before any limit.
pub const DEFAULT_ARGON2_T_COST: u32 = 3;

pub const DEFAULT_ARGON2_M_COST_KIB: u32 = 262_144;

pub const DEFAULT_ARGON2_PARALLELISM: u32 = 4;

/// How long the salt of a new archive is.
pub const DEFAULT_ARGON2_SALT_LEN: usize = 16;

/// The highest costs that a reader accepts.
#[derive(Clone, Copy, Debug)]
pub struct Argon2Limits {
    pub t_cost: u32,
    pub m_cost_kib: u32,
    pub parallelism: u32,
}

/// The constants `READER_MAX_ARGON2ID_T_COST`, `READER_MAX_ARGON2ID_M_COST_KIB`
/// and `READER_MAX_ARGON2ID_PARALLELISM` of `tzap_core::format`: one hundred
/// passes, four GiB and sixty-four lanes.
#[verifier::external_body]
pub(crate) fn reader_limits() -> (limits: Argon2Limits)
    ensures
        limits.t_cost == 100,
        limits.m_cost_kib == 4_194_304,
        limits.parallelism == 64,
{
    Argon2Limits {
        t_cost: tzap_core::format::READER_MAX_ARGON2ID_T_COST,
        m_cost_kib: tzap_core::format::READER_MAX_ARGON2ID_M_COST_KIB,
        parallelism: tzap_core::format::READER_MAX_ARGON2ID_PARALLELISM,
    }
}

/// Whether `rand`'s thread generator can fill a buffer of a length with these bytes.
pub uninterp spec fn random_answer(len: usize, bytes: Seq<u8>) -> bool;

/// Calls `fill_bytes` of `rand`'s thread generator on a buffer of `len` bytes.
/// Claimed: there are that many, and they are what the generator gave. Which ones
/// they are is left to chance.
#[verifier::external_body]
pub(crate) fn random_bytes(len: usize) -> (bytes: Vec<u8>)
    ensures
        bytes@.len() == len,
        random_answer(len, bytes@),
{
    let mut bytes = vec![0u8; len];
    rand::RngCore::fill_bytes(&mut rand::rng(), bytes.as_mut_slice());
    bytes
}

/// Sixteen random bytes: all that the generator gave, in order.
pub fn random_16_bytes() -> (bytes: [u8; 16])
    ensures
        random_answer(16, bytes@),
{
    let drawn: Vec<u8> = random_bytes(16);
    let mut bytes: [u8; 16] = [0;16];
    let mut i: usize = 0;
    while i < 16
        invariant
            i <= 16,
            drawn@.len() == 16,
            forall|k: int| 0 <= k < i ==> bytes@[k] == drawn@[k],
        decreases 16 - i,
    {
        bytes[i] = drawn[i];
        i = i + 1;
    }
    assert(bytes@ =~= drawn@);
    bytes
}

fn lesser(a: u32, b: u32) -> (r: u32)
    ensures
        r == (if a <= b {
            a
        } else {
            b
        }),
{
    if a <= b {
        a
    } else {
        b
    }
}

/// The key derivation of a new archive: fixed costs and a given salt.
pub open spec fn new_kdf(salt: Seq<u8>) -> KdfView {
    KdfView::Argon2id {
        t_cost: DEFAULT_ARGON2_T_COST,
        m_cost_kib: DEFAULT_ARGON2_M_COST_KIB,
        parallelism: DEFAULT_ARGON2_PARALLELISM,
        salt,
    }
}

/// The key derivation of a new archive, with a random salt. The costs stay
/// within what a reader accepts.
pub fn create_kdf_params() -> (kdf: KdfParams)
    ensures
        exists|salt: Seq<u8>|
            salt.len() == DEFAULT_ARGON2_SALT_LEN && random_answer(DEFAULT_ARGON2_SALT_LEN, salt)
                && kdf@ == #[trigger] new_kdf(salt),
{
    let limits: Argon2Limits = reader_limits();
    let salt: Vec<u8> = random_bytes(DEFAULT_ARGON2_SALT_LEN);
    let ghost drawn = salt@;
    let kdf = KdfParams::Argon2id {
        t_cost: lesser(DEFAULT_ARGON2_T_COST, limits.t_cost),
        m_cost_kib: lesser(DEFAULT_ARGON2_M_COST_KIB, limits.m_cost_kib),
        parallelism: lesser(DEFAULT_ARGON2_PARALLELISM, limits.parallelism),
        salt,
    };
    assert(kdf@ == new_kdf(drawn));
    kdf
}

/// One private key that may unwrap the key of an archive.
#[derive(Debug, PartialEq, Eq)]
pub struct RecipientPrivateKeyCandidate {
    /// The private key.
    pub private_key_bytes: Vec<u8>,
    /// Its public key, where that could be derived.
    pub private_key_spki_der: Option<Vec<u8>>,
}

/// A candidate key with its bytes taken as sequences.
pub struct CandidateView {
    pub key: Seq<u8>,
    pub spki: Option<Seq<u8>>,
}

/// Optional bytes taken as a sequence.
pub open spec fn bytes_option(bytes: Option<Vec<u8>>) -> Option<Seq<u8>> {
    match bytes {
        Some(bytes) => Some(bytes@),
        None => None,
    }
}

impl View for RecipientPrivateKeyCandidate {
    type V = CandidateView;

    open spec fn view(&self) -> CandidateView {
        CandidateView {
            key: self.private_key_bytes@,
            spki: bytes_option(self.private_key_spki_der),
        }
    }
}

/// A private key that was parsed: its normal form, or why there is none, and its
/// public key, if any.
pub struct KeyParts {
    pub private_der: Result<Vec<u8>, String>,
    pub spki_der: Option<Vec<u8>>,
}

/// A parsed private key with its bytes taken as sequences.
pub struct KeyPartsView {
    pub private_der: Result<Seq<u8>, Seq<char>>,
    pub spki_der: Option<Seq<u8>>,
}

impl View for KeyParts {
    type V = KeyPartsView;

    open spec fn view(&self) -> KeyPartsView {
        KeyPartsView {
            private_der: crate::codec::data_view(self.private_der),
            spki_der: bytes_option(self.spki_der),
        }
    }
}

/// A result with its key and its message taken by their views.
pub open spec fn parts_result(r: Result<KeyParts, String>) -> Result<KeyPartsView, Seq<char>> {
    match r {
        Ok(parts) => Ok(parts@),
        Err(message) => Err(message@),
    }
}

/// Whether `openssl::pkey::PKey::private_key_from_pem` can make this of some
/// bytes.
pub uninterp spec fn pem_key_answer(
    bytes: Seq<u8>,
    parts: Result<KeyPartsView, Seq<char>>,
) -> bool;

/// Whether `openssl::pkey::PKey::private_key_from_der` can make this of some
/// bytes.
pub uninterp spec fn der_key_answer(
    bytes: Seq<u8>,
    parts: Result<KeyPartsView, Seq<char>>,
) -> bool;

/// Calls `openssl::pkey::PKey::private_key_from_pem` and writes the key that it
/// parsed, and its public half, as DER. Claimed: the result answers for these
/// bytes. What is accepted rests on the installed OpenSSL, which may ask for the
/// passphrase of an encrypted key, and is not stated. The bytes may be no more than C
/// can count.
#[verifier::external_body]
pub(crate) fn parse_pem_private_key(bytes: &[u8]) -> (parts: Result<KeyParts, String>)
    requires
        bytes@.len() <= i32::MAX,
    ensures
        pem_key_answer(bytes@, parts_result(parts)),
{
    let key = openssl::pkey::PKey::private_key_from_pem(bytes).map_err(|e| e.to_string())?;
    Ok(KeyParts {
        private_der: key.private_key_to_der().map_err(|e| e.to_string()),
        spki_der: key.public_key_to_der().ok(),
    })
}

/// Calls `openssl::pkey::PKey::private_key_from_der` and writes the key that it
/// parsed, and its public half, as DER. Claimed: the result answers for these
/// bytes. What is accepted rests on the installed OpenSSL and is not stated.
#[verifier::external_body]
pub(crate) fn parse_der_private_key(bytes: &[u8]) -> (parts: Result<KeyParts, String>)
    ensures
        der_key_answer(bytes@, parts_result(parts)),
{
    let key = openssl::pkey::PKey::private_key_from_der(bytes).map_err(|e| e.to_string())?;
    Ok(KeyParts {
        private_der: key.private_key_to_der().map_err(|e| e.to_string()),
        spki_der: key.public_key_to_der().ok(),
    })
}

/// The candidate that some key bytes give, with what was made of them: thirty-two
/// bytes are a raw key and are taken as they are.
pub open spec fn key_candidate(
    bytes: Seq<u8>,
    parsed: Result<KeyPartsView, Seq<char>>,
    description: Seq<char>,
) -> Result<CandidateView, TzapFault> {
    if bytes.len() == 32 {
        Ok(CandidateView { key: bytes, spki: None })
    } else {
        match parsed {
            Err(message) => Err(
                TzapFault::KeyWrap(
                    "failed to parse recipient private key "@ + description + ": "@ + message,
                ),
            ),
            Ok(parts) => match parts.private_der {
                Err(message) => Err(
                    TzapFault::KeyWrap(
                        "failed to normalize recipient private key "@ + description + ": "@
                            + message,
                    ),
                ),
                Ok(key) => Ok(CandidateView { key, spki: parts.spki_der }),
            },
        }
    }
}

/// A result with its candidate and its error taken by their views.
pub open spec fn candidate_result(r: Result<RecipientPrivateKeyCandidate, TzapError>) -> Result<
    CandidateView,
    TzapFault,
> {
    match r {
        Ok(candidate) => Ok(candidate@),
        Err(e) => Err(e@),
    }
}

/// Whether bytes are in PEM form.
pub open spec fn is_pem(bytes: Seq<u8>) -> bool {
    bytes.len() >= 10 && bytes.take(10) == seq![
        45u8, 45, 45, 45, 45, 66, 69, 71, 73, 78,
    ]
}

/// Whether bytes are in PEM form: they begin with `-----BEGIN`.
pub fn looks_like_pem(bytes: &[u8]) -> (r: bool)
    ensures
        r == is_pem(bytes@),
{
    if bytes.len() < 10 {
        return false;
    }
    let r: bool = bytes[0] == 45 && bytes[1] == 45 && bytes[2] == 45 && bytes[3] == 45 && bytes[4]
        == 45 && bytes[5] == 66 && bytes[6] == 69 && bytes[7] == 71 && bytes[8] == 73 && bytes[9]
        == 78;
    let ghost wanted = seq![45u8, 45, 45, 45, 45, 66, 69, 71, 73, 78];
    proof {
        let head = bytes@.take(10);
        if r {
            assert(head =~= wanted);
        } else if head == wanted {
            assert(head[0] == 45 && head[1] == 45 && head[2] == 45 && head[3] == 45 && head[4] == 45
                && head[5] == 66 && head[6] == 69 && head[7] == 71 && head[8] == 73 && head[9]
                == 78);
        }
    }
    r
}

/// The candidate that some key bytes give, with what was made of them.
pub fn recipient_key_candidate(
    bytes: &[u8],
    parsed: Result<KeyParts, String>,
    description: &str,
) -> (candidate: Result<RecipientPrivateKeyCandidate, TzapError>)
    ensures
        candidate_result(candidate) == key_candidate(
            bytes@,
            parts_result(parsed),
            description@,
        ),
{
    if bytes.len() == 32 {
        let copy: Vec<u8> = crate::bytes::copy_range(bytes, 0, 32);
        assert(copy@ =~= bytes@);
        return Ok(
            RecipientPrivateKeyCandidate { private_key_bytes: copy, private_key_spki_der: None },
        );
    }
    match parsed {
        Err(message) => Err(
            TzapError::KeyWrap(
                concat4(
                    "failed to parse recipient private key ",
                    description,
                    ": ",
                    message.as_str(),
                ),
            ),
        ),
        Ok(parts) => match parts.private_der {
            Err(message) => Err(
                TzapError::KeyWrap(
                    concat4(
                        "failed to normalize recipient private key ",
                        description,
                        ": ",
                        message.as_str(),
                    ),
                ),
            ),
            Ok(key) => Ok(
                RecipientPrivateKeyCandidate {
                    private_key_bytes: key,
                    private_key_spki_der: parts.spki_der,
                },
            ),
        },
    }
}

/// Whether `parsed` is what is made of some key bytes. A raw key is not shown to
/// OpenSSL, nor a PEM file that is too long for it; the others are in PEM form or taken
/// for DER.
pub open spec fn key_answer(bytes: Seq<u8>, parsed: Result<KeyPartsView, Seq<char>>) -> bool {
    if bytes.len() == 32 {
        true
    } else if is_pem(bytes) {
        if bytes.len() > i32::MAX {
            parsed == Err::<KeyPartsView, Seq<char>>(oversized_text())
        } else {
            pem_key_answer(bytes, parsed)
        }
    } else {
        der_key_answer(bytes, parsed)
    }
}

/// Parses one recipient private key.
pub fn parse_recipient_private_key_candidate(bytes: &[u8], description: &str) -> (candidate: Result<
    RecipientPrivateKeyCandidate,
    TzapError,
>)
    ensures
        exists|parsed: Result<KeyPartsView, Seq<char>>|
            key_answer(bytes@, parsed) && candidate_result(candidate) == #[trigger] key_candidate(
                bytes@,
                parsed,
                description@,
            ),
{
    let parsed: Result<KeyParts, String> = if bytes.len() == 32 {
        Err(String::new())
    } else if looks_like_pem(bytes) {
        if bytes.len() > i32::MAX as usize {
            Err(oversized_message())
        } else {
            parse_pem_private_key(bytes)
        }
    } else {
        parse_der_private_key(bytes)
    };
    let ghost seen = parts_result(parsed);
    let candidate: Result<RecipientPrivateKeyCandidate, TzapError> = recipient_key_candidate(
        bytes,
        parsed,
        description,
    );
    assert(candidate_result(candidate) == key_candidate(bytes@, seen, description@));
    candidate
}

/// The private keys of a recipient.
#[derive(Debug, PartialEq, Eq)]
pub struct TzapRecipientPrivateKeyLookup {
    /// The keys, the preferred ones first.
    pub candidates: Vec<RecipientPrivateKeyCandidate>,
}

/// The candidates of a lookup.
pub open spec fn candidate_list(list: Seq<RecipientPrivateKeyCandidate>) -> Seq<CandidateView> {
    list.map_values(|c: RecipientPrivateKeyCandidate| c@)
}

/// How the key number `index` of a list is called in messages.
pub open spec fn key_description(description: Seq<char>, index: int) -> Seq<char> {
    description + " #"@ + decimal(index as nat)
}

/// The candidates that a list of keys gives, if `parsed` is what was made of
/// each.
pub open spec fn candidates_of(
    keys: Seq<Vec<u8>>,
    parsed: Seq<Result<KeyPartsView, Seq<char>>>,
    description: Seq<char>,
) -> Result<Seq<CandidateView>, TzapFault>
    decreases keys.len(),
{
    if keys.len() == 0 {
        Ok(Seq::empty())
    } else {
        let last = keys.len() - 1;
        match candidates_of(keys.drop_last(), parsed, description) {
            Err(fault) => Err(fault),
            Ok(list) => match key_candidate(
                keys.last()@,
                parsed[last],
                key_description(description, last),
            ) {
                Err(fault) => Err(fault),
                Ok(candidate) => Ok(list.push(candidate)),
            },
        }
    }
}

/// Whether `parsed` is what OpenSSL says of each key of a list that is reached: the
/// first key that is no good ends the reading.
pub open spec fn keys_answer(
    keys: Seq<Vec<u8>>,
    parsed: Seq<Result<KeyPartsView, Seq<char>>>,
    description: Seq<char>,
) -> bool {
    &&& parsed.len() == keys.len()
    &&& forall|k: int|
        0 <= k < keys.len() && candidates_of(keys.take(k), parsed, description) is Ok
            ==> key_answer(keys[k]@, #[trigger] parsed[k])
}

/// A result with its keys and its error taken by their views.
pub open spec fn lookup_result(r: Result<TzapRecipientPrivateKeyLookup, TzapError>) -> Result<
    Seq<CandidateView>,
    TzapFault,
> {
    match r {
        Ok(lookup) => Ok(candidate_list(lookup.candidates@)),
        Err(e) => Err(e@),
    }
}

proof fn lemma_candidates_fail(
    keys: Seq<Vec<u8>>,
    parsed: Seq<Result<KeyPartsView, Seq<char>>>,
    description: Seq<char>,
    k: int,
)
    requires
        0 <= k <= keys.len(),
        candidates_of(keys.take(k), parsed, description) is Err,
    ensures
        candidates_of(keys, parsed, description) == candidates_of(
            keys.take(k),
            parsed,
            description,
        ),
    decreases keys.len(),
{
    if k == keys.len() {
        assert(keys.take(k) =~= keys);
    } else {
        assert(keys.drop_last().take(k) =~= keys.take(k));
        lemma_candidates_fail(keys.drop_last(), parsed, description, k);
    }
}

proof fn lemma_candidates_agree(
    keys: Seq<Vec<u8>>,
    one: Seq<Result<KeyPartsView, Seq<char>>>,
    other: Seq<Result<KeyPartsView, Seq<char>>>,
    description: Seq<char>,
)
    requires
        keys.len() <= one.len(),
        keys.len() <= other.len(),
        forall|k: int| 0 <= k < keys.len() ==> #[trigger] one[k] == other[k],
    ensures
        candidates_of(keys, one, description) == candidates_of(keys, other, description),
    decreases keys.len(),
{
    if keys.len() > 0 {
        lemma_candidates_agree(keys.drop_last(), one, other, description);
        assert(one[keys.len() - 1] == other[keys.len() - 1]);
    }
}

/// Parses the recipient private keys of a device that holds several: its active
/// key and the ones that it used before.
pub fn load_recipient_private_key_lookup_from_bytes_list(
    keys: &Vec<Vec<u8>>,
    description: &str,
) -> (lookup: Result<TzapRecipientPrivateKeyLookup, TzapError>)
    ensures
        keys@.len() == 0 ==> lookup_result(lookup) == Err::<Seq<CandidateView>, TzapFault>(
            TzapFault::KeyWrap(
                "no recipient private key candidates supplied for "@ + description@,
            ),
        ),
        keys@.len() > 0 ==> exists|parsed: Seq<Result<KeyPartsView, Seq<char>>>|
            keys_answer(keys@, parsed, description@) && lookup_result(lookup)
                == #[trigger] candidates_of(keys@, parsed, description@),
{
    if keys.len() == 0 {
        return Err(
            TzapError::KeyWrap(
                concat2("no recipient private key candidates supplied for ", description),
            ),
        );
    }
    let mut candidates: Vec<RecipientPrivateKeyCandidate> = Vec::new();
    let ghost mut parsed: Seq<Result<KeyPartsView, Seq<char>>> = Seq::empty();
    let mut i: usize = 0;
    assert(candidate_list(candidates@) =~= Seq::<CandidateView>::empty());
    while i < keys.len()
        invariant
            i <= keys@.len(),
            parsed.len() == i,
            forall|k: int| 0 <= k < i ==> key_answer(keys@[k]@, #[trigger] parsed[k]),
            candidates_of(keys@.take(i as int), parsed, description@) == Ok::<
                Seq<CandidateView>,
                TzapFault,
            >(candidate_list(candidates@)),
        decreases keys@.len() - i,
    {
        let number: String = decimal_text(i as u64);
        let name: String = concat3(description, " #", number.as_str());
        let outcome: Result<RecipientPrivateKeyCandidate, TzapError> =
            parse_recipient_private_key_candidate(keys[i].as_slice(), name.as_str());
        let ghost before = parsed;
        proof {
            let seen = choose|p: Result<KeyPartsView, Seq<char>>|
                key_answer(keys@[i as int]@, p) && candidate_result(outcome)
                    == #[trigger] key_candidate(keys@[i as int]@, p, name@);
            parsed = parsed.push(seen);
            assert(keys@.take(i + 1).drop_last() =~= keys@.take(i as int));
            lemma_candidates_agree(keys@.take(i as int), before, parsed, description@);
        }
        match outcome {
            Ok(candidate) => {
                let ghost so_far = candidates@;
                candidates.push(candidate);
                assert(candidate_list(candidates@) =~= candidate_list(so_far).push(candidate@));
            },
            Err(e) => {
                proof {
                    let filler: Result<KeyPartsView, Seq<char>> = Err(Seq::empty());
                    let whole = parsed + Seq::new(
                        (keys@.len() - i - 1) as nat,
                        |k: int| filler,
                    );
                    lemma_candidates_agree(keys@.take(i + 1), parsed, whole, description@);
                    lemma_candidates_fail(keys@, whole, description@, i + 1);
                    assert forall|k: int|
                        0 <= k < keys@.len() && candidates_of(
                            keys@.take(k),
                            whole,
                            description@,
                        ) is Ok implies key_answer(keys@[k]@, #[trigger] whole[k]) by {
                        if k <= i {
                            assert(whole[k] == parsed[k]);
                        } else {
                            assert(keys@.take(k).take(i + 1) =~= keys@.take(i + 1));
                            lemma_candidates_fail(keys@.take(k), whole, description@, i + 1);
                        }
                    }
                    assert(lookup_result(Err(e)) == candidates_of(keys@, whole, description@));
                }
                return Err(e);
            },
        }
        i = i + 1;
    }
    assert(keys@.take(keys@.len() as int) =~= keys@);
    let lookup = TzapRecipientPrivateKeyLookup { candidates };
    assert(lookup_result(Ok(lookup)) == candidates_of(keys@, parsed, description@));
    Ok(lookup)
}

/// The recipient private key of a file, given what reading the file came to.
pub fn load_recipient_private_key_lookup(path: &str, bytes: &Result<Vec<u8>, IoFailure>) -> (lookup:
    Result<TzapRecipientPrivateKeyLookup, TzapError>)
    ensures
        match *bytes {
            Err(failure) => lookup_result(lookup) == Err::<Seq<CandidateView>, TzapFault>(
                TzapFault::Io { path: path@, source: failure@ },
            ),
            Ok(bytes) => exists|parsed: Seq<Result<KeyPartsView, Seq<char>>>|
                keys_answer(seq![bytes], parsed, path@) && lookup_result(lookup)
                    == #[trigger] candidates_of(seq![bytes], parsed, path@),
        },
{
    match bytes {
        Err(failure) => Err(io_failed(path, failure)),
        Ok(bytes) => load_recipient_private_key_lookup_from_bytes(bytes, path),
    }
}

/// The one recipient private key that `bytes` hold.
pub fn load_recipient_private_key_lookup_from_bytes(bytes: &Vec<u8>, description: &str) -> (lookup:
    Result<TzapRecipientPrivateKeyLookup, TzapError>)
    ensures
        exists|parsed: Seq<Result<KeyPartsView, Seq<char>>>|
            keys_answer(seq![*bytes], parsed, description@) && lookup_result(lookup)
                == #[trigger] candidates_of(seq![*bytes], parsed, description@),
{
    let mut keys: Vec<Vec<u8>> = Vec::new();
    keys.push(copy_bytes(bytes));
    let lookup: Result<TzapRecipientPrivateKeyLookup, TzapError> =
        load_recipient_private_key_lookup_from_bytes_list(&keys, description);
    proof {
        let parsed = choose|parsed: Seq<Result<KeyPartsView, Seq<char>>>|
            keys_answer(keys@, parsed, description@) && lookup_result(lookup)
                == #[trigger] candidates_of(keys@, parsed, description@);
        assert(keys@.take(0) =~= seq![*bytes].take(0));
        lemma_same_keys(keys@, seq![*bytes], parsed, description@);
    }
    lookup
}

proof fn lemma_same_keys(
    one: Seq<Vec<u8>>,
    other: Seq<Vec<u8>>,
    parsed: Seq<Result<KeyPartsView, Seq<char>>>,
    description: Seq<char>,
)
    requires
        one.len() == other.len(),
        forall|k: int| 0 <= k < one.len() ==> (#[trigger] one[k])@ == other[k]@,
    ensures
        candidates_of(one, parsed, description) == candidates_of(other, parsed, description),
    decreases one.len(),
{
    if one.len() > 0 {
        lemma_same_keys(one.drop_last(), other.drop_last(), parsed, description);
        assert(one[one.len() - 1]@ == other[one.len() - 1]@);
    }
}

/// The first key of a list whose public key is `spki`, or -1.
pub open spec fn key_with_spki(list: Seq<CandidateView>, spki: Option<Seq<u8>>) -> int
    decreases list.len(),
{
    if list.len() == 0 {
        -1
    } else {
        let earlier = key_with_spki(list.drop_last(), spki);
        if earlier >= 0 {
            earlier
        } else if list.last().spki == spki {
            list.len() - 1
        } else {
            -1
        }
    }
}

/// The key that is tried on a record whose recipient has the public key `spki`:
/// the first that matches it, else the first that cannot be compared.
pub open spec fn selected_key(list: Seq<CandidateView>, spki: Option<Seq<u8>>) -> Option<Seq<u8>> {
    if spki is Some && key_with_spki(list, spki) >= 0 {
        Some(list[key_with_spki(list, spki)].key)
    } else if key_with_spki(list, None) >= 0 {
        Some(list[key_with_spki(list, None)].key)
    } else {
        None
    }
}

proof fn lemma_key_found(list: Seq<CandidateView>, spki: Option<Seq<u8>>, at: int)
    requires
        0 <= at < list.len(),
        key_with_spki(list.take(at), spki) == -1,
        list[at].spki == spki,
    ensures
        key_with_spki(list, spki) == at,
    decreases list.len(),
{
    if at == list.len() - 1 {
        assert(list.drop_last() =~= list.take(at));
    } else {
        assert(list.drop_last().take(at) =~= list.take(at));
        lemma_key_found(list.drop_last(), spki, at);
    }
}

fn same_spki(a: &Option<Vec<u8>>, b: &Option<Vec<u8>>) -> (r: bool)
    ensures
        r == (bytes_option(*a) == bytes_option(*b)),
{
    match (a, b) {
        (Some(x), Some(y)) => same_bytes(x.as_slice(), y.as_slice()),
        (None, None) => true,
        _ => false,
    }
}

impl TzapRecipientPrivateKeyLookup {
    fn find_key(&self, spki: &Option<Vec<u8>>) -> (at: Option<usize>)
        ensures
            match at {
                Some(at) => at < self.candidates@.len() && at as int == key_with_spki(
                    candidate_list(self.candidates@),
                    bytes_option(*spki),
                ),
                None => key_with_spki(candidate_list(self.candidates@), bytes_option(*spki)) == -1,
            },
    {
        let ghost views = candidate_list(self.candidates@);
        let ghost wanted = bytes_option(*spki);
        let mut i: usize = 0;
        while i < self.candidates.len()
            invariant
                i <= self.candidates@.len(),
                views == candidate_list(self.candidates@),
                wanted == bytes_option(*spki),
                key_with_spki(views.take(i as int), wanted) == -1,
            decreases self.candidates@.len() - i,
        {
            assert(views.take(i + 1).drop_last() =~= views.take(i as int));
            assert(views[i as int].spki == bytes_option(
                self.candidates@[i as int].private_key_spki_der,
            ));
            if same_spki(&self.candidates[i].private_key_spki_der, spki) {
                proof {
                    lemma_key_found(views, wanted, i as int);
                }
                return Some(i);
            }
            i = i + 1;
        }
        assert(views.take(self.candidates@.len() as int) =~= views);
        None
    }

    /// The key to try on a record whose recipient has the public key `spki`. An
    /// exact match is preferred, so that a device with an active and a retired
    /// key uses the one that the record names.
    pub fn select_private_key(&self, spki: &Option<Vec<u8>>) -> (key: Option<Vec<u8>>)
        ensures
            bytes_option(key) == selected_key(
                candidate_list(self.candidates@),
                bytes_option(*spki),
            ),
    {
        let ghost views = candidate_list(self.candidates@);
        let exact: Option<usize> = match spki {
            Some(_) => self.find_key(spki),
            None => None,
        };
        let at: Option<usize> = match exact {
            Some(at) => Some(at),
            None => {
                let none: Option<Vec<u8>> = None;
                self.find_key(&none)
            },
        };
        match at {
            Some(at) => {
                let candidate: &RecipientPrivateKeyCandidate = &self.candidates[at];
                let key: Vec<u8> = crate::bytes::copy_range(
                    candidate.private_key_bytes.as_slice(),
                    0,
                    candidate.private_key_bytes.len(),
                );
                assert(key@ =~= candidate.private_key_bytes@);
                assert(views[at as int] == candidate@);
                Some(key)
            },
            None => None,
        }
    }

    /// The key to try on a record that names its recipient by a certificate.
    pub fn lookup_private_key(&self, recipient_identity_bytes: &[u8]) -> (key: Option<Vec<u8>>)
        ensures
            exists|spki: Option<Seq<u8>>|
                spki_answer(recipient_identity_bytes@, spki) && bytes_option(key)
                    == #[trigger] selected_key(
                    candidate_list(self.candidates@),
                    spki,
                ),
    {
        let spki: Option<Vec<u8>> = certificate_spki(recipient_identity_bytes);
        let key: Option<Vec<u8>> = self.select_private_key(&spki);
        assert(bytes_option(key) == selected_key(
            candidate_list(self.candidates@),
            bytes_option(spki),
        ));
        key
    }
}

/// Whether OpenSSL can find this public key in a certificate.
pub uninterp spec fn spki_answer(certificate: Seq<u8>, spki: Option<Seq<u8>>) -> bool;

/// Calls `openssl::x509::X509::from_der` and writes the public key of the
/// certificate as DER; `None` where any of that fails. Claimed: the result answers
/// for this certificate. What is accepted rests on the installed OpenSSL and is
/// not stated.
#[verifier::external_body]
pub(crate) fn certificate_spki(certificate: &[u8]) -> (spki: Option<Vec<u8>>)
    ensures
        spki_answer(certificate@, bytes_option(spki)),
{
    let certificate = openssl::x509::X509::from_der(certificate).ok()?;
    certificate.public_key().ok()?.public_key_to_der().ok()
}

/// What came of unwrapping one recipient record.
#[derive(Debug, PartialEq, Eq)]
pub enum WrapOutcome {
    UnsupportedProfileId,
    UnsupportedArchiveIdentity,
    UnsupportedRecipientIdentity,
    UnsupportedSuite,
    CertificatePolicyRejected,
    InvalidRecord,
    NoMatchingPrivateKey,
    UnwrappedCandidateMasterKey {
        /// The key that came out.
        master_key: [u8; 32],
    },
}

/// The error that an unsuccessful outcome stands for.
pub open spec fn outcome_fault(outcome: WrapOutcome) -> TzapFault {
    match outcome {
        WrapOutcome::UnsupportedProfileId => TzapFault::Format(
            FormatFaultView::ReaderUnsupported("unsupported keywrap recipient profile"@),
        ),
        WrapOutcome::UnsupportedArchiveIdentity => TzapFault::Format(
            FormatFaultView::ReaderUnsupported("unsupported keywrap archive identity"@),
        ),
        WrapOutcome::UnsupportedRecipientIdentity => TzapFault::Format(
            FormatFaultView::ReaderUnsupported("unsupported keywrap recipient identity"@),
        ),
        WrapOutcome::UnsupportedSuite => TzapFault::Format(
            FormatFaultView::ReaderUnsupported("unsupported keywrap recipient suite"@),
        ),
        WrapOutcome::CertificatePolicyRejected => TzapFault::Format(
            FormatFaultView::ReaderUnsupported("recipient certificate policy rejected"@),
        ),
        WrapOutcome::InvalidRecord => TzapFault::Format(
            FormatFaultView::InvalidArchive("invalid keywrap recipient record"@),
        ),
        WrapOutcome::NoMatchingPrivateKey => TzapFault::KeyWrap(
            "no matching recipient private key for archive"@,
        ),
        WrapOutcome::UnwrappedCandidateMasterKey { .. } => TzapFault::Format(
            FormatFaultView::WriterInvariant(
                "keywrap success outcome cannot be converted to error"@,
            ),
        ),
    }
}

fn unsupported(message: &str) -> (error: TzapError)
    ensures
        error@ == TzapFault::Format(FormatFaultView::ReaderUnsupported(message@)),
{
    TzapError::Format(FormatFault::ReaderUnsupported(message.to_owned()))
}

/// The error that an unsuccessful outcome stands for.
pub fn key_wrap_outcome_error(outcome: &WrapOutcome) -> (error: TzapError)
    ensures
        error@ == outcome_fault(*outcome),
{
    match outcome {
        WrapOutcome::UnsupportedProfileId => unsupported(
            "unsupported keywrap recipient profile",
        ),
        WrapOutcome::UnsupportedArchiveIdentity => unsupported(
            "unsupported keywrap archive identity",
        ),
        WrapOutcome::UnsupportedRecipientIdentity => unsupported(
            "unsupported keywrap recipient identity",
        ),
        WrapOutcome::UnsupportedSuite => unsupported("unsupported keywrap recipient suite"),
        WrapOutcome::CertificatePolicyRejected => unsupported(
            "recipient certificate policy rejected",
        ),
        WrapOutcome::InvalidRecord => crate::tzap::error::invalid_archive(
            "invalid keywrap recipient record",
        ),
        WrapOutcome::NoMatchingPrivateKey => TzapError::KeyWrap(
            "no matching recipient private key for archive".to_owned(),
        ),
        WrapOutcome::UnwrappedCandidateMasterKey { .. } => crate::tzap::error::writer_invariant(
            "keywrap success outcome cannot be converted to error",
        ),
    }
}

/// What came of the recipient records of an archive.
#[derive(Debug, PartialEq, Eq)]
pub struct RecipientWrapOpenStats {
    pub records_seen: usize,
    pub no_matching_private_key: usize,
    pub invalid_record_or_unwrap: usize,
    pub unsupported_record: usize,
    pub candidate_count: usize,
}

impl RecipientWrapOpenStats {
    /// Every record that was seen is counted under one outcome.
    pub open spec fn wf(&self) -> bool {
        self.records_seen == self.no_matching_private_key + self.invalid_record_or_unwrap
            + self.unsupported_record + self.candidate_count
    }

    /// No record seen yet.
    pub fn new() -> (stats: Self)
        ensures
            stats.wf(),
            stats@ == counts_of(Seq::empty()),
    {
        RecipientWrapOpenStats {
            records_seen: 0,
            no_matching_private_key: 0,
            invalid_record_or_unwrap: 0,
            unsupported_record: 0,
            candidate_count: 0,
        }
    }
}

/// What came of the recipient records of an archive, with its counts as numbers.
pub struct WrapCounts {
    pub records_seen: int,
    pub no_matching_private_key: int,
    pub invalid_record_or_unwrap: int,
    pub unsupported_record: int,
    pub candidate_count: int,
}

impl View for RecipientWrapOpenStats {
    type V = WrapCounts;

    open spec fn view(&self) -> WrapCounts {
        WrapCounts {
            records_seen: self.records_seen as int,
            no_matching_private_key: self.no_matching_private_key as int,
            invalid_record_or_unwrap: self.invalid_record_or_unwrap as int,
            unsupported_record: self.unsupported_record as int,
            candidate_count: self.candidate_count as int,
        }
    }
}

impl WrapCounts {
    /// The counts with one more record.
    pub open spec fn with(self, outcome: WrapOutcome) -> WrapCounts {
        let counted = WrapCounts { records_seen: self.records_seen + 1, ..self };
        if heading(outcome) == 0 {
            WrapCounts { candidate_count: self.candidate_count + 1, ..counted }
        } else if heading(outcome) == 1 {
            WrapCounts { no_matching_private_key: self.no_matching_private_key + 1, ..counted }
        } else if heading(outcome) == 2 {
            WrapCounts { invalid_record_or_unwrap: self.invalid_record_or_unwrap + 1, ..counted }
        } else {
            WrapCounts { unsupported_record: self.unsupported_record + 1, ..counted }
        }
    }
}

/// The counts of some records.
pub open spec fn counts_of(outcomes: Seq<WrapOutcome>) -> WrapCounts
    decreases outcomes.len(),
{
    if outcomes.len() == 0 {
        WrapCounts {
            records_seen: 0,
            no_matching_private_key: 0,
            invalid_record_or_unwrap: 0,
            unsupported_record: 0,
            candidate_count: 0,
        }
    } else {
        counts_of(outcomes.drop_last()).with(outcomes.last())
    }
}

/// Under which of four headings an outcome is counted.
pub open spec fn heading(outcome: WrapOutcome) -> int {
    match outcome {
        WrapOutcome::UnwrappedCandidateMasterKey { .. } => 0,
        WrapOutcome::NoMatchingPrivateKey => 1,
        WrapOutcome::InvalidRecord => 2,
        WrapOutcome::CertificatePolicyRejected => 2,
        _ => 3,
    }
}

/// Counts what came of one recipient record and hands on the key that it gave,
/// if any.
pub fn recipient_wrap_candidates_for_record(
    outcome: &WrapOutcome,
    stats: &mut RecipientWrapOpenStats,
) -> (keys: Vec<[u8; 32]>)
    requires
        old(stats).wf(),
        old(stats).records_seen < usize::MAX,
    ensures
        final(stats).wf(),
        final(stats)@ == old(stats)@.with(*outcome),
        keys@ == (match *outcome {
            WrapOutcome::UnwrappedCandidateMasterKey { master_key } => seq![master_key],
            _ => Seq::empty(),
        }),
{
    stats.records_seen = stats.records_seen + 1;
    let mut keys: Vec<[u8; 32]> = Vec::new();
    match outcome {
        WrapOutcome::UnwrappedCandidateMasterKey { master_key } => {
            stats.candidate_count = stats.candidate_count + 1;
            keys.push(*master_key);
        },
        WrapOutcome::NoMatchingPrivateKey => {
            stats.no_matching_private_key = stats.no_matching_private_key + 1;
        },
        WrapOutcome::InvalidRecord => {
            stats.invalid_record_or_unwrap = stats.invalid_record_or_unwrap + 1;
        },
        WrapOutcome::CertificatePolicyRejected => {
            stats.invalid_record_or_unwrap = stats.invalid_record_or_unwrap + 1;
        },
        _ => {
            stats.unsupported_record = stats.unsupported_record + 1;
        },
    }
    assert(keys@ =~= (match *outcome {
        WrapOutcome::UnwrappedCandidateMasterKey { master_key } => seq![master_key],
        _ => Seq::empty(),
    }));
    keys
}

/// Why no recipient record opened an archive.
pub open spec fn unwrap_reason(stats: RecipientWrapOpenStats) -> Seq<char> {
    if stats.candidate_count > 0 {
        ": recipient private key unwrapped a candidate, but archive header HMAC did not verify"@
    } else if stats.records_seen == 0 {
        ": recipient-wrap archive has no recipient records"@
    } else if stats.no_matching_private_key > 0 && stats.invalid_record_or_unwrap == 0 {
        ": no matching recipient private key for archive"@
    } else {
        ": recipient private key did not match any recipient record or failed recipient unwrap"@
    }
}

/// The error of an archive that its recipient records did not open: a key
/// mismatch is explained by what came of the records, any other fault stands.
pub open spec fn wrap_open_fault(
    source: FormatFaultView,
    stats: RecipientWrapOpenStats,
) -> TzapFault {
    match source {
        FormatFaultView::KeyMaterialMismatch => TzapFault::KeyWrap(
            format_message(source) + unwrap_reason(stats),
        ),
        _ => TzapFault::Format(source),
    }
}

/// The error of an archive that its recipient records did not open.
pub fn recipient_wrap_open_error(source: FormatFault, stats: &RecipientWrapOpenStats) -> (error:
    TzapError)
    ensures
        error@ == wrap_open_fault(source@, *stats),
{
    let mismatched: bool = match &source {
        FormatFault::KeyMaterialMismatch => true,
        _ => false,
    };
    if !mismatched {
        return TzapError::Format(source);
    }
    let text: String = source.message();
    let reason: &str = if stats.candidate_count > 0 {
        ": recipient private key unwrapped a candidate, but archive header HMAC did not verify"
    } else if stats.records_seen == 0 {
        ": recipient-wrap archive has no recipient records"
    } else if stats.no_matching_private_key > 0 && stats.invalid_record_or_unwrap == 0 {
        ": no matching recipient private key for archive"
    } else {
        ": recipient private key did not match any recipient record or failed recipient unwrap"
    };
    TzapError::KeyWrap(concat2(text.as_str(), reason))
}

/// An archive that is not wrapped for recipients never takes a recipient's key,
/// and one that is takes nothing else.
pub proof fn law_recipient_keys_open_only_wrapped_archives(
    kdf: KdfView,
    password: Option<Seq<char>>,
    key_file: bool,
    key_bytes: bool,
)
    ensures
        key_route(kdf, password, key_file, key_bytes) matches Ok(route) ==> {
            &&& (route is RecipientFile || route is RecipientBytes) == (kdf is RecipientWrap)
            &&& (key_file || key_bytes) == (kdf is RecipientWrap)
            &&& route is Passphrase <==> kdf is Argon2id
            &&& kdf is RecipientWrap ==> password is None
        },
{
}

/// An empty password opens an archive with a raw key exactly as no password does.
pub proof fn law_empty_password_is_no_password(key_file: bool, key_bytes: bool)
    ensures
        key_route(KdfView::Raw, Some(Seq::empty()), key_file, key_bytes) == key_route(
            KdfView::Raw,
            None,
            key_file,
            key_bytes,
        ),
{
}

proof fn lemma_strangers_count(outcomes: Seq<WrapOutcome>)
    requires
        forall|k: int| 0 <= k < outcomes.len() ==> #[trigger] outcomes[k] is NoMatchingPrivateKey,
    ensures
        counts_of(outcomes).records_seen == outcomes.len(),
        counts_of(outcomes).no_matching_private_key == outcomes.len(),
        counts_of(outcomes).invalid_record_or_unwrap == 0,
        counts_of(outcomes).candidate_count == 0,
    decreases outcomes.len(),
{
    if outcomes.len() > 0 {
        assert(outcomes[outcomes.len() - 1] is NoMatchingPrivateKey);
        assert forall|k: int| 0 <= k < outcomes.drop_last().len() implies #[trigger]
            outcomes.drop_last()[k] is NoMatchingPrivateKey by {
            assert(outcomes[k] is NoMatchingPrivateKey);
        }
        lemma_strangers_count(outcomes.drop_last());
    }
}

/// Somebody whose key matches no record of an archive is told just that: no key is
/// handed to the reader, and its refusal is explained.
pub proof fn law_strangers_are_told(outcomes: Seq<WrapOutcome>, stats: RecipientWrapOpenStats)
    requires
        outcomes.len() > 0,
        stats@ == counts_of(outcomes),
        forall|k: int| 0 <= k < outcomes.len() ==> #[trigger] outcomes[k] is NoMatchingPrivateKey,
    ensures
        stats.candidate_count == 0,
        wrap_open_fault(FormatFaultView::KeyMaterialMismatch, stats) == TzapFault::KeyWrap(
            format_message(FormatFaultView::KeyMaterialMismatch)
                + ": no matching recipient private key for archive"@,
        ),
{
    lemma_strangers_count(outcomes);
}

proof fn lemma_matches_count(outcomes: Seq<WrapOutcome>)
    ensures
        counts_of(outcomes).candidate_count >= 0,
        forall|k: int|
            0 <= k < outcomes.len() && #[trigger] outcomes[k] is UnwrappedCandidateMasterKey
                ==> counts_of(outcomes).candidate_count > 0,
    decreases outcomes.len(),
{
    if outcomes.len() > 0 {
        lemma_matches_count(outcomes.drop_last());
        assert forall|k: int|
            0 <= k < outcomes.len()
                && #[trigger] outcomes[k] is UnwrappedCandidateMasterKey implies counts_of(
            outcomes,
        ).candidate_count > 0 by {
            if k < outcomes.len() - 1 {
                assert(outcomes.drop_last()[k] is UnwrappedCandidateMasterKey);
            }
        }
    }
}

/// Somebody whose key unwraps one record of an archive is no stranger to it, whoever
/// the other records are for: a key is handed to the reader, and a refusal says that
/// the key which came out is not the archive's.
pub proof fn law_one_matching_record_is_enough(
    outcomes: Seq<WrapOutcome>,
    k: int,
    stats: RecipientWrapOpenStats,
)
    requires
        0 <= k < outcomes.len(),
        outcomes[k] is UnwrappedCandidateMasterKey,
        stats@ == counts_of(outcomes),
    ensures
        stats.candidate_count > 0,
        wrap_open_fault(FormatFaultView::KeyMaterialMismatch, stats) == TzapFault::KeyWrap(
            format_message(FormatFaultView::KeyMaterialMismatch)
                + ": recipient private key unwrapped a candidate, but archive header HMAC did not verify"@,
        ),
{
    lemma_matches_count(outcomes);
}

/// How an archive is opened follows from how its key was made and from what the caller
/// brings. An archive for recipients takes exactly one recipient's key and no password.
/// Any other archive takes no recipient's key; one whose key is derived from a password
/// takes a password; one with a raw key takes an empty password at most; one that is not
/// encrypted takes any.
pub proof fn law_what_opens_an_archive_follows_from_its_key(
    kdf: KdfView,
    password: Option<Seq<char>>,
    key_file: bool,
    key_bytes: bool,
)
    ensures
        key_route(kdf, password, key_file, key_bytes) is Ok <==> match kdf {
            KdfView::RecipientWrap => password is None && key_file != key_bytes,
            KdfView::Argon2id { .. } => password is Some && !key_file && !key_bytes,
            KdfView::Raw => !key_file && !key_bytes && (password is None || password->0.len() == 0),
            KdfView::Unencrypted => !key_file && !key_bytes,
        },
        key_route(kdf, password, key_file, key_bytes) matches Ok(route) ==> {
            &&& route == KeyRoute::RecipientFile <==> key_file
            &&& route == KeyRoute::RecipientBytes <==> key_bytes
            &&& route == KeyRoute::Passphrase <==> kdf is Argon2id
        },
        kdf is Argon2id && password is None && !key_file && !key_bytes ==> key_route(
            kdf,
            password,
            key_file,
            key_bytes,
        ) == Err::<KeyRoute, TzapFault>(TzapFault::PasswordRequired),
        kdf is RecipientWrap && password is None && !key_file && !key_bytes ==> key_route(
            kdf,
            password,
            key_file,
            key_bytes,
        ) == Err::<KeyRoute, TzapFault>(TzapFault::RecipientKeyRequired),
{
}

/// A plan for opening an archive holds the key that the archive was written with: the
/// one that the password gives with the parameters in the archive, or thirty-two zeros
/// where there is no secret. The key of a recipient is not known yet.
pub proof fn law_plans_hold_the_key_of_the_archive(
    kdf: KdfView,
    volume_count: nat,
    password: Option<Seq<char>>,
    key_file: bool,
    key_bytes: bool,
    plan: OpenPlanView,
)
    requires
        open_plan(kdf, volume_count, password, key_file, key_bytes) == Ok::<
            OpenPlanView,
            TzapFault,
        >(plan),
    ensures
        match kdf {
            KdfView::Argon2id { t_cost, m_cost_kib, parallelism, salt } => password is Some
                && plan.key is Some && derived_key(
                t_cost,
                m_cost_kib,
                parallelism,
                salt,
                password->0,
            ) == Ok::<Seq<u8>, FormatFaultView>(plan.key->0),
            KdfView::RecipientWrap => plan.key is None,
            _ => plan.key == Some(Seq::new(32, |i: int| 0u8)),
        },
        plan.single_volume <==> volume_count == 1,
{
    assert(placeholder_key() =~= Seq::new(32, |i: int| 0u8));
}

proof fn lemma_key_with_spki(list: Seq<CandidateView>, spki: Option<Seq<u8>>)
    ensures
        ({
            let at = key_with_spki(list, spki);
            &&& -1 <= at < list.len()
            &&& at >= 0 ==> list[at].spki == spki
            &&& forall|j: int|
                0 <= j < (if at >= 0 {
                    at
                } else {
                    list.len() as int
                }) ==> (#[trigger] list[j]).spki != spki
        }),
    decreases list.len(),
{
    if list.len() > 0 {
        lemma_key_with_spki(list.drop_last(), spki);
        assert forall|j: int| 0 <= j < list.len() - 1 implies #[trigger] list[j]
            == list.drop_last()[j] by {}
    }
}

/// The key that is tried for a recipient's certificate is the first whose public half is
/// that of the certificate. Where there is none, it is the first whose public half is
/// unknown. A key that belongs to another certificate is never tried.
pub proof fn law_the_key_of_a_certificate_is_tried(
    list: Seq<CandidateView>,
    spki: Option<Seq<u8>>,
)
    ensures
        match selected_key(list, spki) {
            Some(key) => exists|at: int|
                {
                    let candidate = #[trigger] list[at];
                    &&& 0 <= at < list.len()
                    &&& key == candidate.key
                    &&& if spki is Some && candidate.spki == spki {
                        forall|j: int| 0 <= j < at ==> (#[trigger] list[j]).spki != spki
                    } else {
                        &&& candidate.spki is None
                        &&& forall|j: int| 0 <= j < at ==> (#[trigger] list[j]).spki is Some
                        &&& spki is Some ==> forall|j: int|
                            0 <= j < list.len() ==> (#[trigger] list[j]).spki != spki
                    }
                },
            None => forall|j: int|
                0 <= j < list.len() ==> (#[trigger] list[j]).spki is Some && list[j].spki != spki,
        },
{
    lemma_key_with_spki(list, spki);
    lemma_key_with_spki(list, None);
    let own = key_with_spki(list, spki);
    let unknown = key_with_spki(list, None);
    if spki is Some && own >= 0 {
        assert(list[own].spki == spki);
    } else if unknown >= 0 {
        assert(list[unknown].spki is None);
    }
}

/// Thirty-two bytes are a private key as they are, with an unknown public half. Anything
/// else is a private key exactly when it was parsed and could be written again, and then
/// it is what was written, with the public half that was found.
pub proof fn law_private_keys_are_raw_or_parsed(
    bytes: Seq<u8>,
    parsed: Result<KeyPartsView, Seq<char>>,
    description: Seq<char>,
)
    ensures
        bytes.len() == 32 ==> (key_candidate(bytes, parsed, description) matches Ok(candidate)
            && candidate.key == bytes && candidate.spki is None),
        bytes.len() != 32 ==> (key_candidate(bytes, parsed, description) is Ok <==> (
        parsed matches Ok(parts) && parts.private_der is Ok)),
        bytes.len() != 32 ==> (key_candidate(bytes, parsed, description) matches Ok(candidate)
            ==> Ok::<Seq<u8>, Seq<char>>(candidate.key) == parsed->Ok_0.private_der
            && candidate.spki == parsed->Ok_0.spki_der),
        key_candidate(bytes, parsed, description) matches Err(fault) ==> fault is KeyWrap,
{
}

/// Several keys give one candidate each, in order.
pub proof fn law_keys_give_one_candidate_each(
    keys: Seq<Vec<u8>>,
    parsed: Seq<Result<KeyPartsView, Seq<char>>>,
    description: Seq<char>,
    list: Seq<CandidateView>,
)
    requires
        candidates_of(keys, parsed, description) == Ok::<Seq<CandidateView>, TzapFault>(list),
    ensures
        list.len() == keys.len(),
        forall|k: int|
            0 <= k < keys.len() ==> {
                let candidate = #[trigger] list[k];
                if keys[k]@.len() == 32 {
                    candidate.key == keys[k]@ && candidate.spki is None
                } else {
                    parsed[k] matches Ok(parts) && parts.private_der == Ok::<Seq<u8>, Seq<char>>(
                        candidate.key,
                    ) && candidate.spki == parts.spki_der
                }
            },
    decreases keys.len(),
{
    if keys.len() > 0 {
        let before = candidates_of(keys.drop_last(), parsed, description)->Ok_0;
        law_keys_give_one_candidate_each(keys.drop_last(), parsed, description, before);
        assert forall|k: int| 0 <= k < keys.len() - 1 implies #[trigger] list[k] == before[k] by {}
    }
}

/// Every record is counted once, under what came of it.
pub proof fn law_records_are_counted_by_their_outcome(outcomes: Seq<WrapOutcome>)
    ensures
        counts_of(outcomes).records_seen == outcomes.len(),
        counts_of(outcomes).candidate_count == outcomes.filter(
            |o: WrapOutcome| o is UnwrappedCandidateMasterKey,
        ).len(),
        counts_of(outcomes).no_matching_private_key == outcomes.filter(
            |o: WrapOutcome| o is NoMatchingPrivateKey,
        ).len(),
        counts_of(outcomes).invalid_record_or_unwrap == outcomes.filter(
            |o: WrapOutcome| o is InvalidRecord || o is CertificatePolicyRejected,
        ).len(),
        counts_of(outcomes).unsupported_record == outcomes.filter(
            |o: WrapOutcome|
                o is UnsupportedProfileId || o is UnsupportedArchiveIdentity
                    || o is UnsupportedRecipientIdentity || o is UnsupportedSuite,
        ).len(),
    decreases outcomes.len(),
{
    reveal(Seq::filter);
    if outcomes.len() > 0 {
        law_records_are_counted_by_their_outcome(outcomes.drop_last());
    }
}

/// The first volume that could not be opened is told, with its own path.
pub proof fn law_the_first_unopened_volume_is_told(
    archive: Seq<char>,
    volumes: Seq<VolumeCandidate>,
    bytes: Seq<u8>,
    opened: Seq<Result<(), IoFailure>>,
    at: int,
)
    requires
        0 <= at < opened.len() == volumes.len(),
        opened[at] is Err,
        forall|k: int| 0 <= k < at ==> #[trigger] opened[k] is Ok,
        kdf_of(volumes[0].path@, bytes) is Ok,
    ensures
        archive_kdf(archive, volumes, Ok(bytes), opened) == Err::<KdfView, TzapFault>(
            TzapFault::Io { path: volumes[at].path@, source: (opened[at]->Err_0)@ },
        ),
{
    lemma_all_opened(opened.take(at));
    lemma_unopened(opened, at);
}

proof fn lemma_all_opened(opened: Seq<Result<(), IoFailure>>)
    requires
        forall|k: int| 0 <= k < opened.len() ==> #[trigger] opened[k] is Ok,
    ensures
        first_unopened(opened) == opened.len(),
    decreases opened.len(),
{
    if opened.len() > 0 {
        assert(opened[opened.len() - 1] is Ok);
        lemma_all_opened(opened.drop_last());
    }
}

/// A key is read as PEM exactly where it begins with five dashes and the word BEGIN.
pub proof fn law_armoured_keys_begin_with_their_mark(bytes: Seq<u8>)
    ensures
        is_pem(bytes) <==> bytes.len() >= 10 && forall|k: int|
            0 <= k < 10 ==> #[trigger] bytes[k] == "-----BEGIN"@[k] as u32,
{
    reveal_strlit("-----BEGIN");
    let mark = seq![45u8, 45, 45, 45, 45, 66, 69, 71, 73, 78];
    assert forall|k: int| 0 <= k < 10 implies #[trigger] mark[k] == "-----BEGIN"@[k] as u32 by {}
    if bytes.len() >= 10 {
        if is_pem(bytes) {
            assert forall|k: int| 0 <= k < 10 implies #[trigger] bytes[k] == "-----BEGIN"@[k] as u32 by {
                assert(bytes.take(10)[k] == bytes[k]);
                assert(bytes.take(10)[k] == mark[k]);
            }
        } else if forall|k: int| 0 <= k < 10 ==> #[trigger] bytes[k] == "-----BEGIN"@[k] as u32 {
            assert forall|k: int| 0 <= k < 10 implies bytes.take(10)[k] == mark[k] by {
                assert(bytes[k] == "-----BEGIN"@[k] as u32);
                assert(mark[k] == "-----BEGIN"@[k] as u32);
            }
            assert(bytes.take(10) =~= mark);
        }
    }
}

/// A key that is not raw is parsed as what it looks like: as PEM, if OpenSSL can count its
/// bytes, or as DER.
pub proof fn law_keys_are_parsed_as_what_they_look_like(
    bytes: Seq<u8>,
    parsed: Result<KeyPartsView, Seq<char>>,
)
    requires
        key_answer(bytes, parsed),
        bytes.len() != 32,
    ensures
        is_pem(bytes) && bytes.len() <= 0x7fff_ffff ==> pem_key_answer(bytes, parsed),
        is_pem(bytes) && bytes.len() > 0x7fff_ffff ==> parsed is Err,
        !is_pem(bytes) ==> der_key_answer(bytes, parsed),
{
}

/// The plan for an archive follows from how its key is derived, or its fault from why that
/// is not known.
pub proof fn law_archives_are_planned_by_their_key(
    archive: Seq<char>,
    volumes: Seq<VolumeCandidate>,
    first_file: Result<Seq<u8>, IoFailureView>,
    opened: Seq<Result<(), IoFailure>>,
    password: Option<Seq<char>>,
    key_file: bool,
    key_bytes: bool,
)
    ensures
        archive_kdf(archive, volumes, first_file, opened) matches Err(fault) ==> archive_plan(
            archive,
            volumes,
            first_file,
            opened,
            password,
            key_file,
            key_bytes,
        ) == Err::<OpenPlanView, TzapFault>(fault),
        archive_kdf(archive, volumes, first_file, opened) matches Ok(kdf) ==> archive_plan(
            archive,
            volumes,
            first_file,
            opened,
            password,
            key_file,
            key_bytes,
        ) == open_plan(kdf, volumes.len(), password, key_file, key_bytes),
{
}

} // verus!
