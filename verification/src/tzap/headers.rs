//! The public headers of a volume and the summary that they allow without any
//! key.
use crate::failure::{IoFailure, IoKind, unfilled_buffer};
#[allow(unused_imports)]
use crate::failure::{IoFailureView, unfilled};
use crate::bytes::{copy_range, le_at, same_bytes};
use crate::text::viewed;
#[allow(unused_imports)]
use crate::text::{same_text, texts};
use crate::tzap::error::{
    FormatFault, TzapError, invalid_archive, io_error, io_failed, own_fault, own_result,
};
#[allow(unused_imports)]
use crate::tzap::error::{FormatFaultView, TzapFault, faulted, malformed, told};
use crate::tzap::volumes::{
    SiblingFile, VolumeCandidate, discover_tzap_input_volume_paths,
    expected_tzap_input_volume_paths, first_existing,
};
#[allow(unused_imports)]
use crate::tzap::volumes::{
    FileView, any_exists, candidate_views, expected_paths, input_volumes, sibling_views,
};
#[allow(unused_imports)]
use crate::tzap::error::no_volumes;
use vstd::prelude::*;

verus! {

/// How many bytes the header of a volume takes.
pub const VOLUME_HEADER_LEN: usize = 128;

/// How many bytes the fixed part of the crypto header takes.
pub const CRYPTO_HEADER_FIXED_LEN: usize = 76;

/// The header of a volume.
#[derive(Clone, Copy, Debug, PartialEq, Eq)]
pub struct VolumeHeader {
    pub format_version: u16,
    pub volume_format_rev: u16,
    pub volume_index: u32,
    pub stripe_width: u32,
    pub archive_uuid: [u8; 16],
    pub session_id: [u8; 16],
    pub crypto_header_offset: u32,
    pub crypto_header_length: u32,
}

/// Whether `header` is what `bytes` hold at the places of a volume header.
pub open spec fn volume_header_at(header: VolumeHeader, bytes: Seq<u8>) -> bool {
    &&& header.format_version as nat == le_at(bytes, 4, 2)
    &&& header.volume_format_rev as nat == le_at(bytes, 6, 2)
    &&& header.volume_index as nat == le_at(bytes, 8, 4)
    &&& header.stripe_width as nat == le_at(bytes, 12, 4)
    &&& header.archive_uuid@ == bytes.subrange(16, 32)
    &&& header.session_id@ == bytes.subrange(32, 48)
    &&& header.crypto_header_offset as nat == le_at(bytes, 48, 4)
    &&& header.crypto_header_length as nat == le_at(bytes, 52, 4)
}

/// What `VolumeHeader::parse` of tzap-core makes of a volume's first bytes: the
/// header, or the fault that it finds.
pub uninterp spec fn parsed_volume_header(bytes: Seq<u8>) -> Result<VolumeHeader, FormatFaultView>;

/// Calls `tzap_core::wire::VolumeHeader::parse`. The result is a function of the
/// bytes alone; a header that is accepted holds the little-endian fields at
/// their places, a stripe width above zero and an index below it.
#[verifier::external_body]
pub(crate) fn parse_volume_header(bytes: &[u8]) -> (header: Result<
    VolumeHeader,
    tzap_core::FormatError,
>)
    ensures
        told(header) == parsed_volume_header(bytes@),
        header matches Ok(h) ==> volume_header_at(h, bytes@) && h.volume_index < h.stripe_width,
{
    let h = tzap_core::wire::VolumeHeader::parse(bytes)?;
    Ok(VolumeHeader {
        format_version: h.format_version,
        volume_format_rev: h.volume_format_rev,
        volume_index: h.volume_index,
        stripe_width: h.stripe_width,
        archive_uuid: h.archive_uuid,
        session_id: h.session_id,
        crypto_header_offset: h.crypto_header_offset,
        crypto_header_length: h.crypto_header_length,
    })
}

/// The fixed part of the crypto header, with each algorithm by its number.
#[derive(Clone, Copy, Debug, PartialEq, Eq)]
pub struct CryptoHeaderFixed {
    pub algorithms: [u16; 4],
    pub sizes: [u32; 3],
    pub shards: [u16; 6],
    pub stripe_width: u32,
    pub volume_loss_tolerance: u8,
    pub bit_rot_buffer_pct: u8,
    pub has_dictionary: u8,
    pub expected_volume_size: u64,
}

/// Whether `header` is what `bytes` hold at the places of the fixed part of a
/// crypto header.
pub open spec fn crypto_header_at(header: CryptoHeaderFixed, bytes: Seq<u8>) -> bool {
    &&& forall|k: int|
        0 <= k < 4 ==> #[trigger] header.algorithms@[k] as nat == le_at(bytes, 8 + 2 * k, 2)
    &&& forall|k: int|
        0 <= k < 3 ==> #[trigger] header.sizes@[k] as nat == le_at(bytes, 16 + 4 * k, 4)
    &&& forall|k: int|
        0 <= k < 6 ==> #[trigger] header.shards@[k] as nat == le_at(bytes, 28 + 2 * k, 2)
    &&& header.stripe_width as nat == le_at(bytes, 40, 4)
    &&& header.volume_loss_tolerance == bytes[44]
    &&& header.bit_rot_buffer_pct == bytes[45]
    &&& header.has_dictionary == bytes[46]
    &&& header.expected_volume_size as nat == le_at(bytes, 52, 8)
}

/// What `CryptoHeaderFixed::parse` of tzap-core makes of the fixed part of a
/// crypto header whose whole length the volume header gives: the header, or the
/// fault that it finds.
pub uninterp spec fn parsed_crypto_header(bytes: Seq<u8>, length: u32) -> Result<
    CryptoHeaderFixed,
    FormatFaultView,
>;

/// Calls `tzap_core::wire::CryptoHeaderFixed::parse`. The result is a function
/// of its two arguments; a header that is accepted holds the little-endian
/// fields at their places.
#[verifier::external_body]
pub(crate) fn parse_crypto_header(bytes: &[u8], length: u32) -> (header: Result<
    CryptoHeaderFixed,
    tzap_core::FormatError,
>)
    ensures
        told(header) == parsed_crypto_header(bytes@, length),
        header matches Ok(h) ==> crypto_header_at(h, bytes@),
{
    let h = tzap_core::wire::CryptoHeaderFixed::parse(bytes, length)?;
    Ok(CryptoHeaderFixed {
        algorithms: [h.compression_algo as u16, h.aead_algo as u16, h.fec_algo as u16, h.kdf_algo as u16],
        sizes: [h.chunk_size, h.envelope_target_size, h.block_size],
        shards: [h.fec_data_shards, h.fec_parity_shards, h.index_fec_data_shards, h.index_fec_parity_shards,
            h.index_root_fec_data_shards, h.index_root_fec_parity_shards],
        stripe_width: h.stripe_width,
        volume_loss_tolerance: h.volume_loss_tolerance,
        bit_rot_buffer_pct: h.bit_rot_buffer_pct,
        has_dictionary: h.has_dictionary,
        expected_volume_size: h.expected_volume_size,
    })
}

/// The public headers of one volume.
#[derive(Debug)]
pub struct PublicTzapHeader {
    pub volume_header: VolumeHeader,
    pub crypto_header: CryptoHeaderFixed,
    pub crypto_header_bytes: Vec<u8>,
}

/// The public headers of one volume, with the bytes taken as a sequence.
pub struct HeaderView {
    pub volume: VolumeHeader,
    pub crypto: CryptoHeaderFixed,
    pub bytes: Seq<u8>,
}

impl View for PublicTzapHeader {
    type V = HeaderView;

    open spec fn view(&self) -> HeaderView {
        HeaderView {
            volume: self.volume_header,
            crypto: self.crypto_header,
            bytes: self.crypto_header_bytes@,
        }
    }
}

/// A result with its header taken by its view.
pub open spec fn header_result(r: Result<PublicTzapHeader, TzapError>) -> Result<
    HeaderView,
    TzapFault,
> {
    match r {
        Ok(h) => Ok(h@),
        Err(e) => Err(e@),
    }
}

/// What a read past the end of a file says.
pub open spec fn cut_short(path: Seq<char>) -> TzapFault {
    TzapFault::Io { path, source: unfilled() }
}

fn unfilled_error(path: &str) -> (error: TzapError)
    ensures
        error@ == cut_short(path@),
{
    io_failed(path, &unfilled_buffer())
}

/// The bytes of the crypto header that a volume header points at.
pub open spec fn crypto_header_bytes(header: VolumeHeader, path: Seq<char>, file: Seq<u8>) -> Result<
    Seq<u8>,
    TzapFault,
> {
    let from = header.crypto_header_offset as int;
    let to = from + header.crypto_header_length;
    if header.crypto_header_length == 0 {
        Ok(Seq::empty())
    } else if to > file.len() {
        Err(cut_short(path))
    } else {
        Ok(file.subrange(from, to))
    }
}

/// The volume header of a file with what was made of its first bytes.
pub open spec fn volume_header_of(
    parsed: Result<VolumeHeader, FormatFaultView>,
    path: Seq<char>,
    file: Seq<u8>,
) -> Result<VolumeHeader, TzapFault> {
    if file.len() < VOLUME_HEADER_LEN {
        Err(cut_short(path))
    } else {
        match parsed {
            Ok(header) => Ok(header),
            Err(fault) => Err(TzapFault::Format(fault)),
        }
    }
}

/// The volume header and the crypto header bytes at the start of a volume file.
pub open spec fn header_bytes(path: Seq<char>, file: Seq<u8>) -> Result<
    (VolumeHeader, Seq<u8>),
    TzapFault,
> {
    match volume_header_of(
        parsed_volume_header(file.take(VOLUME_HEADER_LEN as int)),
        path,
        file,
    ) {
        Ok(header) => match crypto_header_bytes(header, path, file) {
            Ok(bytes) => Ok((header, bytes)),
            Err(fault) => Err(fault),
        },
        Err(fault) => Err(fault),
    }
}

/// Copies the crypto header that a volume header points at.
pub fn read_crypto_header_bytes(header: &VolumeHeader, path: &str, file: &[u8]) -> (bytes: Result<
    Vec<u8>,
    TzapError,
>)
    ensures
        match bytes {
            Ok(bytes) => crypto_header_bytes(*header, path@, file@) == Ok::<Seq<u8>, TzapFault>(
                bytes@,
            ),
            Err(e) => crypto_header_bytes(*header, path@, file@) == Err::<Seq<u8>, TzapFault>(e@),
        },
{
    if header.crypto_header_length == 0 {
        let empty: Vec<u8> = Vec::new();
        assert(empty@ =~= Seq::<u8>::empty());
        return Ok(empty);
    }
    let from: u64 = header.crypto_header_offset as u64;
    let to: u64 = from + header.crypto_header_length as u64;
    if to > file.len() as u64 {
        return Err(unfilled_error(path));
    }
    Ok(copy_range(file, from as usize, to as usize))
}

/// Reads the volume and crypto headers at the start of a volume file. `file`
/// holds the file, or as much of its start as the headers take.
pub fn read_tzap_crypto_header_bytes_from(path: &str, file: &[u8]) -> (headers: Result<
    (VolumeHeader, Vec<u8>),
    TzapError,
>)
    ensures
        match headers {
            Ok(pair) => header_bytes(path@, file@) == Ok::<(VolumeHeader, Seq<u8>), TzapFault>(
                (pair.0, pair.1@),
            ),
            Err(e) => header_bytes(path@, file@) == Err::<(VolumeHeader, Seq<u8>), TzapFault>(e@),
        },
{
    if file.len() < VOLUME_HEADER_LEN {
        return Err(unfilled_error(path));
    }
    let first: Vec<u8> = copy_range(file, 0, VOLUME_HEADER_LEN);
    assert(first@ =~= file@.take(VOLUME_HEADER_LEN as int));
    match parse_volume_header(first.as_slice()) {
        Ok(header) => match read_crypto_header_bytes(&header, path, file) {
            Ok(bytes) => Ok((header, bytes)),
            Err(e) => Err(e),
        },
        Err(e) => Err(TzapError::Format(own_fault(e))),
    }
}

/// The fault of crypto header bytes that are too short for its fixed part.
pub open spec fn fixed_part_missing(bytes: Seq<u8>) -> TzapFault {
    TzapFault::Format(
        FormatFaultView::InvalidLength {
            structure: "CryptoHeaderFixed"@,
            expected: CRYPTO_HEADER_FIXED_LEN,
            actual: bytes.len() as usize,
        },
    )
}

/// The public headers of a volume, with what was made of the fixed part of its
/// crypto header: the two headers have to agree on the number of volumes.
pub open spec fn agreed_header(
    volume: VolumeHeader,
    bytes: Seq<u8>,
    parsed: Result<CryptoHeaderFixed, FormatFaultView>,
) -> Result<HeaderView, TzapFault> {
    if bytes.len() < CRYPTO_HEADER_FIXED_LEN {
        Err(fixed_part_missing(bytes))
    } else {
        match parsed {
            Err(fault) => Err(TzapFault::Format(fault)),
            Ok(crypto) => if crypto.stripe_width != volume.stripe_width {
                Err(malformed("VolumeHeader and CryptoHeader stripe_width differ"@))
            } else {
                Ok(HeaderView { volume, crypto, bytes })
            },
        }
    }
}

/// The public headers at the start of a volume file.
pub open spec fn public_header(path: Seq<char>, file: Seq<u8>) -> Result<HeaderView, TzapFault> {
    match header_bytes(path, file) {
        Ok((volume, bytes)) => agreed_header(
            volume,
            bytes,
            parsed_crypto_header(
                bytes.take(CRYPTO_HEADER_FIXED_LEN as int),
                volume.crypto_header_length,
            ),
        ),
        Err(fault) => Err(fault),
    }
}

/// Checks the two headers of a volume against each other.
pub fn check_headers(
    volume: VolumeHeader,
    bytes: Vec<u8>,
    parsed: Result<CryptoHeaderFixed, FormatFault>,
) -> (header: Result<PublicTzapHeader, TzapError>)
    ensures
        header_result(header) == agreed_header(volume, bytes@, faulted(parsed)),
{
    if bytes.len() < CRYPTO_HEADER_FIXED_LEN {
        return Err(
            TzapError::Format(
                FormatFault::InvalidLength {
                    structure: "CryptoHeaderFixed".to_owned(),
                    expected: CRYPTO_HEADER_FIXED_LEN,
                    actual: bytes.len(),
                },
            ),
        );
    }
    match parsed {
        Ok(crypto) => {
            if crypto.stripe_width != volume.stripe_width {
                return Err(invalid_archive("VolumeHeader and CryptoHeader stripe_width differ"));
            }
            Ok(
                PublicTzapHeader {
                    volume_header: volume,
                    crypto_header: crypto,
                    crypto_header_bytes: bytes,
                },
            )
        },
        Err(fault) => Err(TzapError::Format(fault)),
    }
}

/// Reads the public headers at the start of a volume file.
pub fn read_public_tzap_header_from(path: &str, file: &[u8]) -> (header: Result<
    PublicTzapHeader,
    TzapError,
>)
    ensures
        header_result(header) == public_header(path@, file@),
{
    let (volume, bytes) = match read_tzap_crypto_header_bytes_from(path, file) {
        Ok(pair) => pair,
        Err(e) => {
            return Err(e);
        },
    };
    if bytes.len() < CRYPTO_HEADER_FIXED_LEN {
        return check_headers(volume, bytes, Err(FormatFault::KeyMaterialMismatch));
    }
    let fixed: Vec<u8> = copy_range(bytes.as_slice(), 0, CRYPTO_HEADER_FIXED_LEN);
    assert(fixed@ =~= bytes@.take(CRYPTO_HEADER_FIXED_LEN as int));
    let parsed: Result<CryptoHeaderFixed, FormatFault> = own_result(
        parse_crypto_header(fixed.as_slice(), volume.crypto_header_length),
    );
    check_headers(volume, bytes, parsed)
}

/// The name of a compression algorithm.
pub open spec fn compression_label(code: u16) -> Seq<char> {
    if code == 0 {
        "none"@
    } else if code == 1 {
        "zstd"@
    } else {
        "unknown"@
    }
}

/// The name of an encryption algorithm.
pub open spec fn aead_label(code: u16) -> Seq<char> {
    if code == 0 {
        "none"@
    } else if code == 1 {
        "aes-gcm-siv-256"@
    } else if code == 2 {
        "xchacha20-poly1305"@
    } else if code == 3 {
        "aes-gcm-256"@
    } else {
        "unknown"@
    }
}

/// The name of a recovery algorithm.
pub open spec fn fec_label(code: u16) -> Seq<char> {
    if code == 0 {
        "none"@
    } else if code == 1 {
        "reed-solomon-gf16"@
    } else if code == 2 {
        "wirehair"@
    } else {
        "unknown"@
    }
}

/// The name of a way to derive the key.
pub open spec fn kdf_label(code: u16) -> Seq<char> {
    if code == 0 {
        "raw"@
    } else if code == 1 {
        "argon2id"@
    } else if code == 2 {
        "none"@
    } else if code == 3 {
        "recipient-wrap"@
    } else {
        "unknown"@
    }
}

/// The name of a compression algorithm.
pub fn compression_algorithm_label(code: u16) -> (label: &'static str)
    ensures
        label@ == compression_label(code),
{
    if code == 0 {
        "none"
    } else if code == 1 {
        "zstd"
    } else {
        "unknown"
    }
}

/// The name of an encryption algorithm.
pub fn aead_algorithm_label(code: u16) -> (label: &'static str)
    ensures
        label@ == aead_label(code),
{
    if code == 0 {
        "none"
    } else if code == 1 {
        "aes-gcm-siv-256"
    } else if code == 2 {
        "xchacha20-poly1305"
    } else if code == 3 {
        "aes-gcm-256"
    } else {
        "unknown"
    }
}

/// The name of a recovery algorithm.
pub fn fec_algorithm_label(code: u16) -> (label: &'static str)
    ensures
        label@ == fec_label(code),
{
    if code == 0 {
        "none"
    } else if code == 1 {
        "reed-solomon-gf16"
    } else if code == 2 {
        "wirehair"
    } else {
        "unknown"
    }
}

/// The name of a way to derive the key.
pub fn kdf_algorithm_label(code: u16) -> (label: &'static str)
    ensures
        label@ == kdf_label(code),
{
    if code == 0 {
        "raw"
    } else if code == 1 {
        "argon2id"
    } else if code == 2 {
        "none"
    } else if code == 3 {
        "recipient-wrap"
    } else {
        "unknown"
    }
}

/// Header and recovery policy details of an archive.
#[derive(Debug, PartialEq, Eq)]
pub struct TzapPublicFormatSummary {
    /// TZAP format version.
    pub format_version: u16,
    /// TZAP volume format revision.
    pub volume_format_revision: u16,
    /// Archive UUID encoded in every volume header.
    pub archive_uuid: [u8; 16],
    /// Session identifier encoded in every volume header.
    pub session_id: [u8; 16],
    /// Compression algorithm label.
    pub compression_algorithm: &'static str,
    /// Authenticated encryption algorithm label.
    pub encryption_algorithm: &'static str,
    /// Forward error correction algorithm label.
    pub recovery_algorithm: &'static str,
    /// Key derivation mode label.
    pub key_derivation: &'static str,
    /// Whether opening archive contents requires a password.
    pub password_required: bool,
    /// Per-object bit-rot recovery budget percentage.
    pub bit_rot_buffer_percentage: u8,
    /// Number of missing volumes the archive is intended to tolerate.
    pub volume_loss_tolerance: u8,
    /// Number of data shards per regular payload FEC class.
    pub data_shard_count: u16,
    /// Number of parity shards per regular payload FEC class.
    pub parity_shard_count: u16,
    /// Number of data shards per index FEC class.
    pub index_data_shard_count: u16,
    /// Number of parity shards per index FEC class.
    pub index_parity_shard_count: u16,
    /// Number of data shards per index-root FEC class.
    pub index_root_data_shard_count: u16,
    /// Number of parity shards per index-root FEC class.
    pub index_root_parity_shard_count: u16,
    /// Archive block size in bytes.
    pub block_size: u32,
    /// Compression chunk size in bytes.
    pub chunk_size: u32,
    /// Target plaintext envelope size in bytes.
    pub envelope_target_size: u32,
    /// Whether the archive has a compression dictionary object.
    pub has_dictionary: bool,
}

/// Whether `summary` tells what the two headers of a volume say.
pub open spec fn tells(
    summary: TzapPublicFormatSummary,
    volume: VolumeHeader,
    crypto: CryptoHeaderFixed,
) -> bool {
    &&& summary.format_version == volume.format_version
    &&& summary.volume_format_revision == volume.volume_format_rev
    &&& summary.archive_uuid == volume.archive_uuid
    &&& summary.session_id == volume.session_id
    &&& summary.compression_algorithm@ == compression_label(crypto.algorithms@[0])
    &&& summary.encryption_algorithm@ == aead_label(crypto.algorithms@[1])
    &&& summary.recovery_algorithm@ == fec_label(crypto.algorithms@[2])
    &&& summary.key_derivation@ == kdf_label(crypto.algorithms@[3])
    &&& summary.password_required == (crypto.algorithms@[3] == 1)
    &&& summary.bit_rot_buffer_percentage == crypto.bit_rot_buffer_pct
    &&& summary.volume_loss_tolerance == crypto.volume_loss_tolerance
    &&& summary.data_shard_count == crypto.shards@[0]
    &&& summary.parity_shard_count == crypto.shards@[1]
    &&& summary.index_data_shard_count == crypto.shards@[2]
    &&& summary.index_parity_shard_count == crypto.shards@[3]
    &&& summary.index_root_data_shard_count == crypto.shards@[4]
    &&& summary.index_root_parity_shard_count == crypto.shards@[5]
    &&& summary.chunk_size == crypto.sizes@[0]
    &&& summary.envelope_target_size == crypto.sizes@[1]
    &&& summary.block_size == crypto.sizes@[2]
    &&& summary.has_dictionary == (crypto.has_dictionary != 0)
}

impl TzapPublicFormatSummary {
    /// What the headers of a volume say of the archive.
    pub fn from_headers(volume: &VolumeHeader, crypto: &CryptoHeaderFixed) -> (summary: Self)
        ensures
            tells(summary, *volume, *crypto),
    {
        TzapPublicFormatSummary {
            format_version: volume.format_version,
            volume_format_revision: volume.volume_format_rev,
            archive_uuid: volume.archive_uuid,
            session_id: volume.session_id,
            compression_algorithm: compression_algorithm_label(crypto.algorithms[0]),
            encryption_algorithm: aead_algorithm_label(crypto.algorithms[1]),
            recovery_algorithm: fec_algorithm_label(crypto.algorithms[2]),
            key_derivation: kdf_algorithm_label(crypto.algorithms[3]),
            password_required: crypto.algorithms[3] == 1,
            bit_rot_buffer_percentage: crypto.bit_rot_buffer_pct,
            volume_loss_tolerance: crypto.volume_loss_tolerance,
            data_shard_count: crypto.shards[0],
            parity_shard_count: crypto.shards[1],
            index_data_shard_count: crypto.shards[2],
            index_parity_shard_count: crypto.shards[3],
            index_root_data_shard_count: crypto.shards[4],
            index_root_parity_shard_count: crypto.shards[5],
            block_size: crypto.sizes[2],
            chunk_size: crypto.sizes[0],
            envelope_target_size: crypto.sizes[1],
            has_dictionary: crypto.has_dictionary != 0,
        }
    }
}

/// Why a volume does not belong to the set of the first one, if it does not.
pub open spec fn member_fault(first: HeaderView, other: HeaderView) -> Option<TzapFault> {
    if other.volume.format_version != first.volume.format_version
        || other.volume.volume_format_rev != first.volume.volume_format_rev {
        Some(malformed("mixed format versions in volume set"@))
    } else if other.volume.archive_uuid@ != first.volume.archive_uuid@
        || other.volume.session_id@ != first.volume.session_id@ {
        Some(malformed("mixed archive or session IDs in volume set"@))
    } else if other.bytes != first.bytes {
        Some(malformed("CryptoHeader copies differ"@))
    } else {
        None
    }
}

/// Checks that a volume belongs to the set of the first one: the same format,
/// the same archive and session, the same crypto header. The fixed part of the
/// crypto header is read from its bytes, so comparing the bytes covers it.
pub fn validate_volume_set_member(first: &PublicTzapHeader, other: &PublicTzapHeader) -> (r: Result<
    (),
    TzapError,
>)
    ensures
        match r {
            Ok(_) => member_fault(first@, other@) is None,
            Err(e) => member_fault(first@, other@) == Some(e@),
        },
{
    if other.volume_header.format_version != first.volume_header.format_version
        || other.volume_header.volume_format_rev != first.volume_header.volume_format_rev {
        return Err(invalid_archive("mixed format versions in volume set"));
    }
    if !same_bytes(
        other.volume_header.archive_uuid.as_slice(),
        first.volume_header.archive_uuid.as_slice(),
    ) || !same_bytes(
        other.volume_header.session_id.as_slice(),
        first.volume_header.session_id.as_slice(),
    ) {
        return Err(invalid_archive("mixed archive or session IDs in volume set"));
    }
    if !same_bytes(other.crypto_header_bytes.as_slice(), first.crypto_header_bytes.as_slice()) {
        return Err(invalid_archive("CryptoHeader copies differ"));
    }
    Ok(())
}

/// Why a volume is no part of the archive that another volume is part of, by
/// their volume headers alone.
pub open spec fn volume_mismatch(first: VolumeHeader, current: VolumeHeader) -> Option<TzapFault> {
    if first.archive_uuid@ != current.archive_uuid@ {
        Some(malformed("TZAP volume archive UUID mismatch"@))
    } else if first.session_id@ != current.session_id@ {
        Some(malformed("TZAP volume session ID mismatch"@))
    } else if first.stripe_width != current.stripe_width {
        Some(malformed("TZAP volume count mismatch"@))
    } else if first.format_version != current.format_version || first.volume_format_rev
        != current.volume_format_rev {
        Some(malformed("TZAP volume format mismatch"@))
    } else {
        None
    }
}

/// Checks that two volumes are part of one archive, by their volume headers
/// alone.
pub fn validate_public_tzap_volume_header(first: &VolumeHeader, current: &VolumeHeader) -> (r:
    Result<(), TzapError>)
    ensures
        match r {
            Ok(_) => volume_mismatch(*first, *current) is None,
            Err(e) => volume_mismatch(*first, *current) == Some(e@),
        },
{
    if !same_bytes(first.archive_uuid.as_slice(), current.archive_uuid.as_slice()) {
        return Err(invalid_archive("TZAP volume archive UUID mismatch"));
    }
    if !same_bytes(first.session_id.as_slice(), current.session_id.as_slice()) {
        return Err(invalid_archive("TZAP volume session ID mismatch"));
    }
    if first.stripe_width != current.stripe_width {
        return Err(invalid_archive("TZAP volume count mismatch"));
    }
    if first.format_version != current.format_version || first.volume_format_rev
        != current.volume_format_rev {
        return Err(invalid_archive("TZAP volume format mismatch"));
    }
    Ok(())
}

/// One volume file as it was found on disk.
pub struct VolumeFile {
    /// Where the file is.
    pub path: String,
    /// Its size, or why that could not be read.
    pub size: Result<u64, IoFailure>,
    /// Its first bytes, which hold the headers, or why they could not be read.
    pub head: Result<Vec<u8>, IoFailure>,
}

/// A volume file with its texts and bytes taken as sequences.
pub struct VolumeFileView {
    pub path: Seq<char>,
    pub size: Result<u64, IoFailureView>,
    pub head: Result<Seq<u8>, IoFailureView>,
}

/// The volume files found on disk.
pub open spec fn volume_file_views(files: Seq<VolumeFile>) -> Seq<VolumeFileView> {
    files.map_values(
        |f: VolumeFile|
            VolumeFileView {
                path: f.path@,
                size: viewed(f.size),
                head: crate::codec::data_view(f.head),
            },
    )
}

/// Where the file at `path` stands in a list, or -1.
pub open spec fn file_position(files: Seq<VolumeFileView>, path: Seq<char>) -> int
    decreases files.len(),
{
    if files.len() == 0 {
        -1
    } else {
        let earlier = file_position(files.drop_last(), path);
        if earlier >= 0 {
            earlier
        } else if files.last().path == path {
            files.len() - 1
        } else {
            -1
        }
    }
}

fn find_file(files: &Vec<VolumeFile>, path: &str) -> (at: Option<usize>)
    ensures
        match at {
            Some(at) => at < files@.len() && at as int == file_position(
                volume_file_views(files@),
                path@,
            ),
            None => file_position(volume_file_views(files@), path@) == -1,
        },
{
    let ghost views = volume_file_views(files@);
    let mut i: usize = 0;
    while i < files.len()
        invariant
            i <= files@.len(),
            views == volume_file_views(files@),
            file_position(views.take(i as int), path@) == -1,
        decreases files@.len() - i,
    {
        assert(views.take(i + 1).drop_last() =~= views.take(i as int));
        if same_text(files[i].path.as_str(), path) {
            proof {
                lemma_position_found(views, path@, i as int);
            }
            return Some(i);
        }
        i = i + 1;
    }
    assert(views.take(files@.len() as int) =~= views);
    None
}

proof fn lemma_position_found(files: Seq<VolumeFileView>, path: Seq<char>, at: int)
    requires
        0 <= at < files.len(),
        file_position(files.take(at), path) == -1,
        files[at].path == path,
    ensures
        file_position(files, path) == at,
    decreases files.len(),
{
    if at == files.len() - 1 {
        assert(files.drop_last() =~= files.take(at));
    } else {
        assert(files.drop_last().take(at) =~= files.take(at));
        lemma_position_found(files.drop_last(), path, at);
    }
}

/// One volume of a summary.
#[derive(Debug, PartialEq, Eq)]
pub struct TzapPublicVolumeSummary {
    /// Path of the volume file.
    pub path: String,
    /// Zero-based volume index encoded in the volume header.
    pub index: usize,
    /// Volume bytes on disk.
    pub size: u64,
}

/// One volume of a summary, with its path taken as a sequence.
pub struct VolumeView {
    pub path: Seq<char>,
    pub index: int,
    pub size: int,
}

/// The volumes of a summary.
pub open spec fn volume_summaries(list: Seq<TzapPublicVolumeSummary>) -> Seq<VolumeView> {
    list.map_values(
        |v: TzapPublicVolumeSummary|
            VolumeView { path: v.path@, index: v.index as int, size: v.size as int },
    )
}

/// What has been found of a volume set so far.
pub struct SetView {
    pub volumes: Seq<VolumeView>,
    pub missing: Seq<int>,
    pub total_size: int,
}

/// The public headers of the volume that should be number `index`: those of the
/// first volume are known already.
pub open spec fn headers_of_volume(first: HeaderView, index: int, file: VolumeFileView) -> Result<
    HeaderView,
    TzapFault,
> {
    if index == 0 {
        Ok(first)
    } else {
        match file.head {
            Ok(bytes) => public_header(file.path, bytes),
            Err(failure) => Err(TzapFault::Io { path: file.path, source: failure }),
        }
    }
}

/// What is known of a set once a volume that is there was looked at.
pub open spec fn with_volume(
    set: SetView,
    first: HeaderView,
    index: int,
    path: Seq<char>,
    size: u64,
    headers: HeaderView,
) -> Result<SetView, TzapFault> {
    if member_fault(first, headers) is Some {
        Err(member_fault(first, headers)->0)
    } else if headers.volume.volume_index != index {
        Err(malformed("TZAP volume index does not match expected path"@))
    } else if set.total_size + size > u64::MAX {
        Err(malformed("TZAP volume size overflow"@))
    } else {
        Ok(
            SetView {
                volumes: set.volumes.push(VolumeView { path, index, size: size as int }),
                missing: set.missing,
                total_size: set.total_size + size,
            },
        )
    }
}

/// What is known of a set once the path of its volume `index` was looked at.
pub open spec fn with_path(
    set: SetView,
    first: HeaderView,
    index: int,
    path: Seq<char>,
    files: Seq<VolumeFileView>,
) -> Result<SetView, TzapFault> {
    let at = file_position(files, path);
    if at < 0 {
        Ok(
            SetView {
                volumes: set.volumes,
                missing: set.missing.push(index),
                total_size: set.total_size,
            },
        )
    } else {
        match files[at].size {
            Err(failure) => Err(TzapFault::Io { path, source: failure }),
            Ok(size) => match headers_of_volume(first, index, files[at]) {
                Err(fault) => Err(fault),
                Ok(headers) => with_volume(set, first, index, path, size, headers),
            },
        }
    }
}

/// What is known of a set once the first `n` of its paths were looked at.
pub open spec fn set_up_to(
    first: HeaderView,
    paths: Seq<Seq<char>>,
    files: Seq<VolumeFileView>,
    n: nat,
) -> Result<SetView, TzapFault>
    decreases n,
{
    if n == 0 {
        Ok(SetView { volumes: Seq::empty(), missing: Seq::empty(), total_size: 0 })
    } else {
        match set_up_to(first, paths, files, (n - 1) as nat) {
            Ok(set) => with_path(set, first, n - 1, paths[n - 1], files),
            Err(fault) => Err(fault),
        }
    }
}

/// Public metadata of an archive: what its headers and files tell without any
/// key.
#[derive(Debug, PartialEq, Eq)]
pub struct TzapPublicMetadataSummary {
    /// Path that was requested by the caller.
    pub requested_path: String,
    /// Expected total volume count from the archive header.
    pub expected_volume_count: usize,
    /// Number of expected volumes found beside the selected path.
    pub present_volume_count: usize,
    /// Missing volume indexes in the expected set.
    pub missing_volume_indices: Vec<usize>,
    /// Total bytes across the expected volumes that are present.
    pub total_size: u64,
    /// Requested volume size embedded in the crypto header, when present.
    pub expected_volume_size: u64,
    /// Per-volume details for expected volumes that were found.
    pub volumes: Vec<TzapPublicVolumeSummary>,
    /// Header and recovery policy details.
    pub format: TzapPublicFormatSummary,
}

/// Whether `summary` reports the set that was found for `requested`.
pub open spec fn reports(
    summary: TzapPublicMetadataSummary,
    requested: Seq<char>,
    first: HeaderView,
    set: SetView,
) -> bool {
    &&& summary.requested_path@ == requested
    &&& summary.expected_volume_count == first.volume.stripe_width
    &&& summary.present_volume_count == set.volumes.len()
    &&& summary.missing_volume_indices@.map_values(|i: usize| i as int) == set.missing
    &&& summary.total_size == set.total_size
    &&& summary.expected_volume_size == first.crypto.expected_volume_size
    &&& volume_summaries(summary.volumes@) == set.volumes
    &&& tells(summary.format, first.volume, first.crypto)
}

proof fn lemma_set_fails(
    first: HeaderView,
    paths: Seq<Seq<char>>,
    files: Seq<VolumeFileView>,
    k: nat,
    n: nat,
)
    requires
        k <= n,
        set_up_to(first, paths, files, k) is Err,
    ensures
        set_up_to(first, paths, files, n) == set_up_to(first, paths, files, k),
    decreases n,
{
    if k < n {
        lemma_set_fails(first, paths, files, k, (n - 1) as nat);
    }
}

/// The set that the first volume's headers promise, as the files show it.
pub open spec fn whole_set(
    requested: Seq<char>,
    first_path: Seq<char>,
    first: HeaderView,
    files: Seq<VolumeFileView>,
) -> Result<SetView, TzapFault> {
    let paths = expected_paths(requested, first_path, first.volume.stripe_width as nat);
    set_up_to(first, paths, files, paths.len())
}

/// Summarizes public metadata from the headers of the first volume and the
/// files that were found. `files` holds the volume files that exist.
pub fn summarize_tzap_public_metadata_from(
    requested: &str,
    first_path: &str,
    first: &PublicTzapHeader,
    files: &Vec<VolumeFile>,
) -> (summary: Result<TzapPublicMetadataSummary, TzapError>)
    ensures
        match summary {
            Ok(s) => whole_set(requested@, first_path@, first@, volume_file_views(files@)) matches Ok(
                set,
            ) && reports(s, requested@, first@, set),
            Err(e) => whole_set(requested@, first_path@, first@, volume_file_views(files@)) == Err::<
                SetView,
                TzapFault,
            >(e@),
        },
{
    let count: usize = first.volume_header.stripe_width as usize;
    let paths: Vec<String> = expected_tzap_input_volume_paths(requested, first_path, count);
    let ghost wanted = texts(paths@);
    let ghost views = volume_file_views(files@);
    let mut volumes: Vec<TzapPublicVolumeSummary> = Vec::new();
    let mut missing: Vec<usize> = Vec::new();
    let mut total_size: u64 = 0;
    let mut i: usize = 0;
    assert(volume_summaries(volumes@) =~= Seq::<VolumeView>::empty());
    assert(missing@.map_values(|i: usize| i as int) =~= Seq::<int>::empty());
    while i < paths.len()
        invariant
            i <= paths@.len(),
            wanted == texts(paths@),
            views == volume_file_views(files@),
            wanted == expected_paths(
                requested@,
                first_path@,
                first@.volume.stripe_width as nat,
            ),
            set_up_to(first@, wanted, views, i as nat) == Ok::<SetView, TzapFault>(
                SetView {
                    volumes: volume_summaries(volumes@),
                    missing: missing@.map_values(|i: usize| i as int),
                    total_size: total_size as int,
                },
            ),
        decreases paths@.len() - i,
    {
        let path: &String = &paths[i];
        assert(wanted[i as int] == path@);
        let ghost set = set_up_to(first@, wanted, views, i as nat)->Ok_0;
        let ghost next = set_up_to(first@, wanted, views, (i + 1) as nat);
        assert(next == with_path(set, first@, i as int, path@, views));
        proof {
            if next is Err {
                lemma_set_fails(first@, wanted, views, (i + 1) as nat, wanted.len());
            }
        }
        match find_file(files, path.as_str()) {
            None => {
                let ghost before = missing@;
                missing.push(i);
                assert(missing@.map_values(|i: usize| i as int) =~= before.map_values(
                    |i: usize| i as int,
                ).push(i as int));
            },
            Some(at) => {
                let file: &VolumeFile = &files[at];
                assert(views[at as int] == (VolumeFileView {
                    path: file.path@,
                    size: viewed(file.size),
                    head: crate::codec::data_view(file.head),
                }));
                proof {
                    lemma_position_matches(views, path@);
                }
                let size: u64 = match &file.size {
                    Ok(size) => *size,
                    Err(failure) => {
                        return Err(io_failed(path.as_str(), failure));
                    },
                };
                let read: PublicTzapHeader;
                let headers: &PublicTzapHeader = if i == 0 {
                    first
                } else {
                    match &file.head {
                        Ok(bytes) => match read_public_tzap_header_from(
                            path.as_str(),
                            bytes.as_slice(),
                        ) {
                            Ok(h) => {
                                read = h;
                                &read
                            },
                            Err(e) => {
                                return Err(e);
                            },
                        },
                        Err(failure) => {
                            return Err(io_failed(path.as_str(), failure));
                        },
                    }
                };
                match validate_volume_set_member(first, headers) {
                    Ok(_) => {},
                    Err(e) => {
                        return Err(e);
                    },
                }
                if headers.volume_header.volume_index as usize != i {
                    return Err(invalid_archive("TZAP volume index does not match expected path"));
                }
                total_size =
                match total_size.checked_add(size) {
                    Some(sum) => sum,
                    None => {
                        return Err(invalid_archive("TZAP volume size overflow"));
                    },
                };
                let ghost before = volumes@;
                volumes.push(TzapPublicVolumeSummary { path: path.clone(), index: i, size });
                assert(volume_summaries(volumes@) =~= volume_summaries(before).push(
                    VolumeView { path: path@, index: i as int, size: size as int },
                ));
            },
        }
        i = i + 1;
    }
    Ok(
        TzapPublicMetadataSummary {
            requested_path: requested.to_owned(),
            expected_volume_count: count,
            present_volume_count: volumes.len(),
            missing_volume_indices: missing,
            total_size,
            expected_volume_size: first.crypto_header.expected_volume_size,
            volumes,
            format: TzapPublicFormatSummary::from_headers(
                &first.volume_header,
                &first.crypto_header,
            ),
        },
    )
}

proof fn lemma_position_matches(files: Seq<VolumeFileView>, path: Seq<char>)
    ensures
        -1 <= file_position(files, path) < files.len(),
        file_position(files, path) >= 0 ==> files[file_position(files, path)].path == path,
    decreases files.len(),
{
    if files.len() > 0 {
        lemma_position_matches(files.drop_last(), path);
    }
}

/// The headers of the first volume that is there, or the fault of a path that
/// stands for none.
pub open spec fn first_headers(
    requested: Seq<char>,
    found: Seq<FileView>,
    first_path: Seq<char>,
    first_file: Result<Seq<u8>, IoFailureView>,
) -> Result<HeaderView, TzapFault> {
    if !any_exists(found) {
        Err(TzapFault::Io { path: requested, source: no_volumes() })
    } else {
        match first_file {
            Err(failure) => Err(TzapFault::Io { path: first_path, source: failure }),
            Ok(bytes) => public_header(first_path, bytes),
        }
    }
}

/// The first file of a list that is there.
pub open spec fn first_found(found: Seq<FileView>) -> Seq<char>
    decreases found.len(),
{
    if found.len() == 0 {
        Seq::empty()
    } else if found[0].exists {
        found[0].name
    } else {
        first_found(found.skip(1))
    }
}

proof fn lemma_first_found(found: Seq<FileView>, at: int)
    requires
        0 <= at < found.len(),
        found[at].exists,
        forall|k: int| 0 <= k < at ==> !(#[trigger] found[k]).exists,
    ensures
        first_found(found) == found[at].name,
    decreases found.len(),
{
    if at > 0 {
        assert(!found[0].exists);
        assert forall|k: int| 0 <= k < at - 1 implies !(#[trigger] found.skip(1)[k]).exists by {
            assert(found.skip(1)[k] == found[k + 1]);
        }
        lemma_first_found(found.skip(1), at - 1);
    }
}

/// Whether `summary` is the summary of an archive path that stands for the volumes
/// `found`.
pub open spec fn is_summary(
    summary: Result<TzapPublicMetadataSummary, TzapError>,
    requested: Seq<char>,
    found: Seq<FileView>,
    first_file: Result<Seq<u8>, IoFailureView>,
    files: Seq<VolumeFileView>,
) -> bool {
    let first_path = first_found(found);
    match first_headers(requested, found, first_path, first_file) {
        Err(fault) => summary matches Err(e) && e@ == fault,
        Ok(first) => match summary {
            Ok(s) => whole_set(requested, first_path, first, files) matches Ok(set) && reports(
                s,
                requested,
                first,
                set,
            ),
            Err(e) => whole_set(requested, first_path, first, files) == Err::<SetView, TzapFault>(
                e@,
            ),
        },
    }
}

/// Where no input volume of a path is there, the summary is an I/O error of that path, of
/// the kind that says that nothing was found.
pub proof fn law_missing_archives_have_no_summary(
    summary: Result<TzapPublicMetadataSummary, TzapError>,
    requested: Seq<char>,
    found: Seq<FileView>,
    first_file: Result<Seq<u8>, IoFailureView>,
    files: Seq<VolumeFileView>,
)
    requires
        is_summary(summary, requested, found, first_file, files),
        !any_exists(found),
    ensures
        summary matches Err(e) && (e@ matches TzapFault::Io { path, source } && path == requested
            && source.kind == IoKind::NotFound),
{
}

/// Reads public `.tzap` metadata without decrypting archive contents.
///
/// `exists` says whether the requested path itself leads to a file, `siblings`
/// lists its directory, `first_file` is the start of the first input volume
/// that exists, and `files` holds the volume files that exist.
pub fn summarize_tzap_public_metadata(
    requested: &str,
    exists: bool,
    siblings: &Vec<SiblingFile>,
    first_file: &Result<Vec<u8>, IoFailure>,
    files: &Vec<VolumeFile>,
) -> (summary: Result<TzapPublicMetadataSummary, TzapError>)
    ensures
        is_summary(
            summary,
            requested@,
            input_volumes(requested@, exists, sibling_views(siblings@)),
            crate::codec::data_view(*first_file),
            volume_file_views(files@),
        ),
{
    let found: Vec<VolumeCandidate> = discover_tzap_input_volume_paths(requested, exists, siblings);
    let ghost views = candidate_views(found@);
    let at: usize = match first_existing(&found) {
        Some(at) => at,
        None => {
            return Err(io_error(requested, IoKind::NotFound, "no TZAP input volumes found"));
        },
    };
    proof {
        assert forall|k: int| 0 <= k < at implies !(#[trigger] views[k]).exists by {
            assert(views[k].exists == found@[k].exists);
        }
        assert(views[at as int].exists == found@[at as int].exists);
        lemma_first_found(views, at as int);
    }
    let first_path: &String = &found[at].path;
    let first: PublicTzapHeader = match first_file {
        Ok(bytes) => match read_public_tzap_header_from(first_path.as_str(), bytes.as_slice()) {
            Ok(h) => h,
            Err(e) => {
                return Err(e);
            },
        },
        Err(failure) => {
            return Err(io_failed(first_path.as_str(), failure));
        },
    };
    summarize_tzap_public_metadata_from(requested, first_path.as_str(), &first, files)
}

proof fn lemma_set_adds_up(
    first: HeaderView,
    paths: Seq<Seq<char>>,
    files: Seq<VolumeFileView>,
    n: nat,
)
    requires
        n <= paths.len(),
        set_up_to(first, paths, files, n) is Ok,
    ensures
        ({
            let set = set_up_to(first, paths, files, n)->Ok_0;
            &&& set.volumes.len() + set.missing.len() == n
            &&& set.total_size == total_of(set.volumes)
            &&& forall|k: int|
                0 <= k < set.volumes.len() ==> 0 <= (#[trigger] set.volumes[k]).index < n
                    && set.volumes[k].path == paths[set.volumes[k].index]
            &&& forall|k: int| 0 <= k < set.missing.len() ==> 0 <= #[trigger] set.missing[k] < n
            &&& forall|i: int, j: int|
                0 <= i < j < set.volumes.len() ==> (#[trigger] set.volumes[i]).index < (
                #[trigger] set.volumes[j]).index
        }),
    decreases n,
{
    if n > 0 {
        lemma_set_adds_up(first, paths, files, (n - 1) as nat);
        let before = set_up_to(first, paths, files, (n - 1) as nat)->Ok_0;
        let after = set_up_to(first, paths, files, n)->Ok_0;
        if file_position(files, paths[n - 1]) >= 0 {
            assert(after.volumes.drop_last() =~= before.volumes);
        }
    }
}

/// The sizes of some volumes, added up.
pub open spec fn total_of(volumes: Seq<VolumeView>) -> int
    decreases volumes.len(),
{
    if volumes.len() == 0 {
        0
    } else {
        total_of(volumes.drop_last()) + volumes.last().size
    }
}

/// A summary accounts for the whole set: every expected volume is either
/// present or listed as missing, the total is the sum of the sizes that are
/// listed, and the volumes come in the order of their indices, each at the path
/// that its index gives.
pub proof fn law_summaries_account_for_every_volume(
    summary: TzapPublicMetadataSummary,
    requested: Seq<char>,
    first_path: Seq<char>,
    first: HeaderView,
    files: Seq<VolumeFileView>,
    set: SetView,
)
    requires
        first.volume.stripe_width > 0,
        whole_set(requested, first_path, first, files) == Ok::<SetView, TzapFault>(set),
        reports(summary, requested, first, set),
    ensures
        summary.present_volume_count + summary.missing_volume_indices@.len()
            == summary.expected_volume_count,
        summary.total_size == total_of(volume_summaries(summary.volumes@)),
        forall|i: int, j: int|
            0 <= i < j < summary.volumes@.len() ==> (#[trigger] summary.volumes@[i]).index < (
            #[trigger] summary.volumes@[j]).index,
        forall|k: int|
            0 <= k < summary.volumes@.len() ==> (#[trigger] summary.volumes@[k]).path@
                == expected_paths(
                requested,
                first_path,
                first.volume.stripe_width as nat,
            )[summary.volumes@[k].index as int],
{
    let paths = expected_paths(requested, first_path, first.volume.stripe_width as nat);
    lemma_set_adds_up(first, paths, files, paths.len());
    assert(summary.missing_volume_indices@.map_values(|i: usize| i as int).len()
        == summary.missing_volume_indices@.len());
    let volumes = volume_summaries(summary.volumes@);
    assert forall|i: int, j: int| 0 <= i < j < summary.volumes@.len() implies (
    #[trigger] summary.volumes@[i]).index < (#[trigger] summary.volumes@[j]).index by {
        assert(volumes[i].index < volumes[j].index);
    }
    assert forall|k: int| 0 <= k < summary.volumes@.len() implies (
    #[trigger] summary.volumes@[k]).path@ == paths[summary.volumes@[k].index as int] by {
        assert(volumes[k].path == paths[volumes[k].index]);
    }
}

/// The crypto header of a volume is the part of its file that the volume header points
/// at, and a file that ends before is cut short.
pub proof fn law_crypto_headers_lie_where_the_volume_header_points(
    header: VolumeHeader,
    path: Seq<char>,
    file: Seq<u8>,
)
    ensures
        header.crypto_header_length > 0 ==> (crypto_header_bytes(header, path, file) is Ok
            <==> header.crypto_header_offset + header.crypto_header_length <= file.len()),
        crypto_header_bytes(header, path, file) matches Ok(bytes) ==> {
            &&& bytes.len() == header.crypto_header_length
            &&& forall|k: int|
                0 <= k < bytes.len() ==> #[trigger] bytes[k] == file[header.crypto_header_offset
                    + k]
        },
        crypto_header_bytes(header, path, file) matches Err(fault) ==> (fault matches TzapFault::Io {
            path: at,
            source,
        } && at == path && source.kind == IoKind::UnexpectedEof),
{
}

/// Two volumes belong to one set exactly when they have the same format, the same
/// archive, the same session and the same crypto header.
pub proof fn law_volumes_of_a_set_agree(first: HeaderView, other: HeaderView)
    ensures
        member_fault(first, other) is None <==> {
            &&& other.volume.format_version == first.volume.format_version
            &&& other.volume.volume_format_rev == first.volume.volume_format_rev
            &&& other.volume.archive_uuid@ == first.volume.archive_uuid@
            &&& other.volume.session_id@ == first.volume.session_id@
            &&& other.bytes == first.bytes
        },
        volume_mismatch(first.volume, other.volume) is None <==> {
            &&& other.volume.format_version == first.volume.format_version
            &&& other.volume.volume_format_rev == first.volume.volume_format_rev
            &&& other.volume.archive_uuid@ == first.volume.archive_uuid@
            &&& other.volume.session_id@ == first.volume.session_id@
            &&& other.volume.stripe_width == first.volume.stripe_width
        },
        member_fault(first, other) matches Some(fault) ==> fault is Format,
        volume_mismatch(first.volume, other.volume) matches Some(fault) ==> fault is Format,
{
}

/// Both headers of a volume must tell of the same number of volumes.
pub proof fn law_headers_agree_on_the_number_of_volumes(
    volume: VolumeHeader,
    bytes: Seq<u8>,
    parsed: Result<CryptoHeaderFixed, FormatFaultView>,
)
    ensures
        agreed_header(volume, bytes, parsed) is Ok <==> bytes.len() >= 76 && (parsed matches Ok(
            crypto,
        ) && crypto.stripe_width == volume.stripe_width),
        agreed_header(volume, bytes, parsed) matches Ok(header) ==> header.volume == volume
            && header.bytes == bytes && parsed == Ok::<CryptoHeaderFixed, FormatFaultView>(
            header.crypto,
        ),
{
}

/// A summary tells what the headers hold, and names the algorithms by their codes. A
/// password is required exactly where the key is derived from one.
pub proof fn law_summaries_name_the_algorithms(
    summary: TzapPublicFormatSummary,
    volume: VolumeHeader,
    crypto: CryptoHeaderFixed,
)
    requires
        tells(summary, volume, crypto),
    ensures
        summary.format_version == volume.format_version,
        summary.volume_format_revision == volume.volume_format_rev,
        summary.archive_uuid == volume.archive_uuid,
        summary.session_id == volume.session_id,
        summary.compression_algorithm@ == (match crypto.algorithms@[0] {
            0 => "none"@,
            1 => "zstd"@,
            _ => "unknown"@,
        }),
        summary.encryption_algorithm@ == (match crypto.algorithms@[1] {
            0 => "none"@,
            1 => "aes-gcm-siv-256"@,
            2 => "xchacha20-poly1305"@,
            3 => "aes-gcm-256"@,
            _ => "unknown"@,
        }),
        summary.recovery_algorithm@ == (match crypto.algorithms@[2] {
            0 => "none"@,
            1 => "reed-solomon-gf16"@,
            2 => "wirehair"@,
            _ => "unknown"@,
        }),
        summary.key_derivation@ == (match crypto.algorithms@[3] {
            0 => "raw"@,
            1 => "argon2id"@,
            2 => "none"@,
            3 => "recipient-wrap"@,
            _ => "unknown"@,
        }),
        summary.password_required <==> summary.key_derivation@ == "argon2id"@,
        summary.bit_rot_buffer_percentage == crypto.bit_rot_buffer_pct,
        summary.volume_loss_tolerance == crypto.volume_loss_tolerance,
        summary.data_shard_count == crypto.shards@[0],
        summary.parity_shard_count == crypto.shards@[1],
        summary.index_data_shard_count == crypto.shards@[2],
        summary.index_parity_shard_count == crypto.shards@[3],
        summary.index_root_data_shard_count == crypto.shards@[4],
        summary.index_root_parity_shard_count == crypto.shards@[5],
        summary.chunk_size == crypto.sizes@[0],
        summary.envelope_target_size == crypto.sizes@[1],
        summary.block_size == crypto.sizes@[2],
        summary.has_dictionary <==> crypto.has_dictionary != 0,
{
    reveal_strlit("raw");
    reveal_strlit("argon2id");
    reveal_strlit("none");
    reveal_strlit("recipient-wrap");
    reveal_strlit("unknown");
    assert("argon2id"@.len() == 8 && "raw"@.len() == 3 && "none"@.len() == 4
        && "recipient-wrap"@.len() == 14 && "unknown"@.len() == 7);
}

/// One more expected volume adds to a summary as follows. One that is not there is
/// missing, by its number. One that is there must be readable, belong to the set and have
/// the number that its path says; it then adds itself and its size.
pub proof fn law_volumes_are_present_or_missing(
    first: HeaderView,
    paths: Seq<Seq<char>>,
    files: Seq<VolumeFileView>,
    n: nat,
    before: SetView,
)
    requires
        n < paths.len(),
        set_up_to(first, paths, files, n) == Ok::<SetView, TzapFault>(before),
    ensures
        ({
            let result = set_up_to(first, paths, files, n + 1);
            if forall|k: int| 0 <= k < files.len() ==> (#[trigger] files[k]).path != paths[n as int] {
                result matches Ok(after) && after.volumes == before.volumes && after.missing
                    == before.missing.push(n as int) && after.total_size == before.total_size
            } else {
                result matches Ok(after) ==> exists|k: int|
                    {
                        let file = #[trigger] files[k];
                        &&& 0 <= k < files.len()
                        &&& file.path == paths[n as int]
                        &&& file.size is Ok
                        &&& after.missing == before.missing
                        &&& after.volumes.len() == before.volumes.len() + 1
                        &&& after.volumes.drop_last() == before.volumes
                        &&& after.volumes.last().path == file.path
                        &&& after.volumes.last().index == n
                        &&& after.volumes.last().size == file.size->Ok_0
                        &&& after.total_size == before.total_size + file.size->Ok_0
                        &&& n > 0 ==> (file.head matches Ok(head) && (public_header(
                            file.path,
                            head,
                        ) matches Ok(header) && header.volume.volume_index == n
                            && header.volume.archive_uuid@ == first.volume.archive_uuid@
                            && header.volume.session_id@ == first.volume.session_id@
                            && header.bytes == first.bytes))
                    }
            }
        }),
{
    lemma_position_matches(files, paths[n as int]);
    lemma_position_absent(files, paths[n as int]);
    let at = file_position(files, paths[n as int]);
    if at >= 0 {
        if let Ok(after) = set_up_to(first, paths, files, n + 1) {
            assert(after.volumes.drop_last() =~= before.volumes);
            assert(files[at].path == paths[n as int]);
        }
    }
}

proof fn lemma_position_absent(files: Seq<VolumeFileView>, path: Seq<char>)
    ensures
        file_position(files, path) < 0 ==> forall|k: int|
            0 <= k < files.len() ==> (#[trigger] files[k]).path != path,
    decreases files.len(),
{
    if files.len() > 0 {
        lemma_position_absent(files.drop_last(), path);
        assert forall|k: int| 0 <= k < files.len() - 1 implies #[trigger] files[k]
            == files.drop_last()[k] by {}
    }
}

/// The first volume of a set is the first of its files that exists.
pub proof fn law_the_first_volume_is_the_first_that_exists(found: Seq<FileView>)
    requires
        any_exists(found),
    ensures
        exists|at: int|
            {
                &&& 0 <= at < found.len()
                &&& (#[trigger] found[at]).exists
                &&& first_found(found) == found[at].name
                &&& forall|k: int| 0 <= k < at ==> !(#[trigger] found[k]).exists
            },
    decreases found.len(),
{
    if found[0].exists {
        assert(found[0].exists);
    } else {
        let rest = found.skip(1);
        let k = choose|k: int| 0 <= k < found.len() && #[trigger] found[k].exists;
        assert(rest[k - 1] == found[k]);
        assert(any_exists(rest));
        law_the_first_volume_is_the_first_that_exists(rest);
        let at = choose|at: int|
            {
                &&& 0 <= at < rest.len()
                &&& (#[trigger] rest[at]).exists
                &&& first_found(rest) == rest[at].name
                &&& forall|k: int| 0 <= k < at ==> !(#[trigger] rest[k]).exists
            };
        assert(found[at + 1] == rest[at]);
        assert forall|k: int| 0 <= k < at + 1 implies !(#[trigger] found[k]).exists by {
            if k > 0 {
                assert(found[k] == rest[k - 1]);
            }
        }
    }
}

} // verus!
