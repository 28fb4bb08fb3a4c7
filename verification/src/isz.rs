//! `UltraISO` compressed images (`.isz`): the packed header, the chunk pointer
//! table, and the logical image that the chunks decode to.
use crate::failure::{IoFailure, IoKind, unfilled_buffer};
#[allow(unused_imports)]
use crate::failure::{IoFailureView, unfilled};
use crate::bytes::{
    copy_range, law_half_words_are_little_endian, law_long_words_are_two_words,
    law_words_are_little_endian, le_at, le_value, push_range, push_zeros, read_u16_le,
    read_u32_le, read_u64_le, word_at, zeros,
};
use crate::codec::{bzip2_decode, bzip2_output, data_view, zlib_decode, zlib_output};
use crate::text::{decimal, decimal_text, viewed};
use vstd::arithmetic::div_mod::{lemma_fundamental_div_mod, lemma_fundamental_div_mod_converse};
use vstd::prelude::*;

verus! {

/// The bytes that an image begins with: `IsZ!`.
pub const ISZ_MAGIC: [u8; 4] = [73, 115, 90, 33];

/// How many bytes of the file hold the header.
pub const ISZ_HEADER_BYTES: usize = 48;

/// Chunk stored as all-zero bytes.
pub const ISZ_CHUNK_ZERO: u8 = 0;

/// Chunk stored verbatim.
pub const ISZ_CHUNK_DATA: u8 = 1;

/// Chunk compressed with zlib.
pub const ISZ_CHUNK_ZLIB: u8 = 2;

/// Chunk compressed with bzip2.
pub const ISZ_CHUNK_BZ2: u8 = 3;

/// One decoded chunk pointer.
#[derive(Debug, Clone, Copy, PartialEq, Eq, Structural)]
pub struct IszChunk {
    /// How the chunk is stored (`ISZ_CHUNK_*`).
    pub kind: u8,
    /// How many bytes of the file it takes.
    pub stored_length: u32,
}

/// Header descriptor of an `UltraISO` compressed image.
///
/// On disk it is a packed structure of 48 bytes; every multi-byte field is
/// little-endian and unaligned.
#[derive(Debug, Clone, Copy)]
pub struct IszHeader {
    /// Header length in bytes (48 for version 1).
    pub header_size: u8,
    /// Format version.
    pub version: u8,
    /// Logical sector size in bytes (2048 or 2352).
    pub sector_size: u16,
    /// Total logical sectors in the image.
    pub total_sectors: u32,
    /// Encryption algorithm (0 = none).
    pub encryption_type: u8,
    /// Bytes per segment of a multi-file set (0 = single file).
    pub segment_size: u64,
    /// Number of chunk pointers in the table.
    pub num_blocks: u32,
    /// Uncompressed chunk size in bytes.
    pub block_size: u32,
    /// Bytes per chunk pointer (2 or 3 in practice).
    pub ptr_len: u8,
    /// Number of segments in the set.
    pub segment_count: u8,
    /// Offset of the chunk pointer table.
    pub ptr_offset: u32,
    /// Offset of the segment table.
    pub segment_table_offset: u32,
    /// Offset of the first chunk's stored bytes.
    pub data_offset: u32,
}

/// Whether a file that begins with `prefix` carries the image magic.
pub open spec fn has_isz_magic(prefix: Seq<u8>) -> bool {
    prefix.len() >= 4 && prefix.subrange(0, 4) == ISZ_MAGIC@
}

/// The fields of a header at their documented offsets.
pub open spec fn isz_fields(buf: Seq<u8>) -> IszHeader {
    IszHeader {
        header_size: buf[4],
        version: buf[5],
        sector_size: le_at(buf, 10, 2) as u16,
        total_sectors: le_at(buf, 12, 4) as u32,
        encryption_type: buf[16],
        segment_size: le_at(buf, 17, 8) as u64,
        num_blocks: le_at(buf, 25, 4) as u32,
        block_size: le_at(buf, 29, 4) as u32,
        ptr_len: buf[33],
        segment_count: buf[34],
        ptr_offset: le_at(buf, 35, 4) as u32,
        segment_table_offset: le_at(buf, 39, 4) as u32,
        data_offset: le_at(buf, 43, 4) as u32,
    }
}

/// The first reason not to read an image with these fields.
pub open spec fn isz_refusal(h: IszHeader) -> Option<Seq<char>> {
    if h.encryption_type != 0 {
        Some(
            "ISZ image is encrypted (encryption type "@ + decimal(h.encryption_type as nat)
                + "); decrypt it with UltraISO first"@,
        )
    } else if h.segment_count > 1 {
        Some(
            "ISZ image is split across "@ + decimal(h.segment_count as nat)
                + " segments (.i01, .i02, …), which this reader does not join"@,
        )
    } else if h.block_size == 0 {
        Some("ISZ declares a zero chunk size"@)
    } else if h.sector_size == 0 {
        Some("ISZ declares a zero sector size"@)
    } else if !(1 <= h.ptr_len <= 4) {
        Some(
            "ISZ declares "@ + decimal(h.ptr_len as nat)
                + " bytes per chunk pointer, outside the 1..=4 range"@,
        )
    } else if h.num_blocks == 0 {
        Some("ISZ declares no chunks"@)
    } else {
        None
    }
}

/// What a header means: its fields, or the message that refuses it.
pub open spec fn isz_header(buf: Seq<u8>) -> Result<IszHeader, Seq<char>> {
    if buf.len() < 48 || !has_isz_magic(buf) {
        Err("not an ISZ image"@)
    } else {
        match isz_refusal(isz_fields(buf)) {
            Some(message) => Err(message),
            None => Ok(isz_fields(buf)),
        }
    }
}

/// Whether a file that begins with `prefix` carries the image magic.
pub fn is_isz_image(prefix: &[u8]) -> (r: bool)
    ensures
        r == has_isz_magic(prefix@),
{
    if prefix.len() < 4 {
        return false;
    }
    let r: bool = prefix[0] == 73 && prefix[1] == 115 && prefix[2] == 90 && prefix[3] == 33;
    proof {
        let head = prefix@.subrange(0, 4);
        assert(ISZ_MAGIC@ == seq![73u8, 115u8, 90u8, 33u8]);
        assert(head[0] == prefix@[0] && head[1] == prefix@[1] && head[2] == prefix@[2] && head[3]
            == prefix@[3]);
        if r {
            assert(head =~= ISZ_MAGIC@);
        }
    }
    r
}

/// One more than the largest length that a pointer of `ptr_len` bytes can
/// carry below its two type bits.
pub open spec fn length_unit(ptr_len: int) -> nat {
    if ptr_len == 1 {
        64
    } else if ptr_len == 2 {
        16_384
    } else if ptr_len == 3 {
        4_194_304
    } else {
        1_073_741_824
    }
}

/// What a chunk pointer says: the type in its top two bits and the stored
/// length in the rest.
pub open spec fn chunk_of(raw: Seq<u8>) -> IszChunk {
    let unit = length_unit(raw.len() as int);
    IszChunk {
        kind: (le_value(raw) / unit) as u8,
        stored_length: (le_value(raw) % unit) as u32,
    }
}

/// The chunk pointer `i` of a table of pointers of `ptr_len` bytes.
pub open spec fn chunk_at(table: Seq<u8>, ptr_len: int, i: int) -> IszChunk {
    chunk_of(table.subrange(i * ptr_len, i * ptr_len + ptr_len))
}

/// The first `count` chunk pointers of a table.
pub open spec fn chunk_table(table: Seq<u8>, ptr_len: int, count: nat) -> Seq<IszChunk> {
    Seq::new(count, |i: int| chunk_at(table, ptr_len, i))
}

/// Where the stored bytes of chunk `i` start: chunks lie back to back from
/// `data_offset`, and an offset beyond the range of the file stays at its end.
pub open spec fn chunk_start(chunks: Seq<IszChunk>, data_offset: int, i: int) -> int
    decreases i,
{
    if i <= 0 {
        data_offset
    } else {
        let next = chunk_start(chunks, data_offset, i - 1) + chunks[i - 1].stored_length;
        if next <= u64::MAX {
            next
        } else {
            u64::MAX as int
        }
    }
}

/// The value of a chunk pointer and its two parts.
fn decode_pointer(table: &[u8], at: usize, ptr_len: usize) -> (chunk: IszChunk)
    requires
        1 <= ptr_len <= 4,
        at + ptr_len <= table@.len(),
    ensures
        chunk == chunk_of(table@.subrange(at as int, at + ptr_len)),
        chunk.kind <= 3,
        (chunk.stored_length as nat) < length_unit(ptr_len as int),
{
    let ghost raw = table@.subrange(at as int, at + ptr_len);
    let mut value: u32 = 0;
    let mut scale: u64 = 1;
    let mut i: usize = 0;
    proof {
        assert(raw.subrange(0, 0) == Seq::<u8>::empty());
        reveal(vstd::arithmetic::power::pow);
        assert(vstd::arithmetic::power::pow(256, 0) == 1);
    }
    while i < ptr_len
        invariant
            1 <= ptr_len <= 4,
            i <= ptr_len,
            at + ptr_len <= table@.len(),
            raw == table@.subrange(at as int, at + ptr_len),
            scale == vstd::arithmetic::power::pow(256, i as nat),
            scale == (if i == 0 {
                1int
            } else if i == 1 {
                256
            } else if i == 2 {
                65_536
            } else if i == 3 {
                16_777_216
            } else {
                4_294_967_296
            }),
            value as nat == le_value(raw.subrange(0, i as int)),
            value < scale,
        decreases ptr_len - i,
    {
        assert(table@.len() == table.len());
        let byte: u8 = table[at + i];
        proof {
            let part = raw.subrange(0, i + 1);
            crate::bytes::lemma_le_split(part, i as int);
            assert(part.subrange(0, i as int) == raw.subrange(0, i as int));
            reveal_with_fuel(le_value, 2);
            let last = part.subrange(i as int, i + 1);
            assert(last[0] == byte);
            assert(le_value(last) == byte as nat);
            reveal(vstd::arithmetic::power::pow);
            assert(scale * byte <= scale * 255) by (nonlinear_arith)
                requires
                    byte <= 255,
                    scale >= 0,
            ;
        }
        value = value + (scale as u32) * (byte as u32);
        scale = scale * 256;
        i = i + 1;
    }
    assert(raw.subrange(0, ptr_len as int) == raw);
    let unit: u32 = if ptr_len == 1 {
        64
    } else if ptr_len == 2 {
        16_384
    } else if ptr_len == 3 {
        4_194_304
    } else {
        1_073_741_824
    };
    IszChunk { kind: (value / unit) as u8, stored_length: value % unit }
}

impl IszHeader {
    /// Parses an ISZ header from the first 48 bytes of the file.
    ///
    /// An error comes when `buf` is short, does not begin with [`ISZ_MAGIC`],
    /// declares encryption or a multi-segment set, or has no usable geometry.
    pub fn read(buf: &[u8]) -> (header: Result<Self, String>)
        ensures
            viewed(header) == isz_header(buf@),
    {
        if buf.len() < 48 || !is_isz_image(buf) {
            return Err("not an ISZ image".to_owned());
        }
        let header = IszHeader {
            header_size: buf[4],
            version: buf[5],
            sector_size: read_u16_le(buf, 10),
            total_sectors: read_u32_le(buf, 12),
            encryption_type: buf[16],
            segment_size: read_u64_le(buf, 17),
            num_blocks: read_u32_le(buf, 25),
            block_size: read_u32_le(buf, 29),
            ptr_len: buf[33],
            segment_count: buf[34],
            ptr_offset: read_u32_le(buf, 35),
            segment_table_offset: read_u32_le(buf, 39),
            data_offset: read_u32_le(buf, 43),
        };
        if header.encryption_type != 0 {
            let mut message: String = "ISZ image is encrypted (encryption type ".to_owned();
            message.append(decimal_text(header.encryption_type as u64).as_str());
            message.append("); decrypt it with UltraISO first");
            return Err(message);
        }
        if header.segment_count > 1 {
            let mut message: String = "ISZ image is split across ".to_owned();
            message.append(decimal_text(header.segment_count as u64).as_str());
            message.append(" segments (.i01, .i02, …), which this reader does not join");
            return Err(message);
        }
        if header.block_size == 0 {
            return Err("ISZ declares a zero chunk size".to_owned());
        }
        if header.sector_size == 0 {
            return Err("ISZ declares a zero sector size".to_owned());
        }
        if !(1 <= header.ptr_len && header.ptr_len <= 4) {
            let mut message: String = "ISZ declares ".to_owned();
            message.append(decimal_text(header.ptr_len as u64).as_str());
            message.append(" bytes per chunk pointer, outside the 1..=4 range");
            return Err(message);
        }
        if header.num_blocks == 0 {
            return Err("ISZ declares no chunks".to_owned());
        }
        Ok(header)
    }

    /// What the chunk pointer table means: one chunk for each pointer that the
    /// header declares, or the message that refuses a short table.
    pub open spec fn chunk_table_of(self, table: Seq<u8>) -> Result<Seq<IszChunk>, Seq<char>> {
        let expected = self.num_blocks * self.ptr_len;
        if expected > usize::MAX {
            Err("ISZ chunk table size overflow"@)
        } else if table.len() < expected {
            Err(
                "ISZ chunk table is "@ + decimal(table.len()) + " bytes, shorter than the "@
                    + decimal(expected as nat) + " bytes its header declares"@,
            )
        } else {
            Ok(chunk_table(table, self.ptr_len as int, self.num_blocks as nat))
        }
    }

    /// Decodes the chunk pointer table.
    pub fn decode_chunk_table(&self, table: &[u8]) -> (chunks: Result<Vec<IszChunk>, String>)
        requires
            1 <= self.ptr_len <= 4,
        ensures
            match (chunks, self.chunk_table_of(table@)) {
                (Ok(chunks), Ok(spec)) => chunks@ == spec,
                (Err(message), Err(spec)) => message@ == spec,
                _ => false,
            },
            chunks matches Ok(chunks) ==> forall|i: int|
                0 <= i < chunks@.len() ==> (#[trigger] chunks@[i]).kind <= 3,
    {
        let ptr_len: usize = self.ptr_len as usize;
        assert(self.num_blocks * self.ptr_len <= 4_294_967_295 * 4) by (nonlinear_arith)
            requires
                self.num_blocks <= 4_294_967_295,
                self.ptr_len <= 4,
        ;
        let expected: u64 = self.num_blocks as u64 * self.ptr_len as u64;
        if expected > usize::MAX as u64 {
            return Err("ISZ chunk table size overflow".to_owned());
        }
        if (table.len() as u64) < expected {
            let mut message: String = "ISZ chunk table is ".to_owned();
            message.append(decimal_text(table.len() as u64).as_str());
            message.append(" bytes, shorter than the ");
            message.append(decimal_text(expected).as_str());
            message.append(" bytes its header declares");
            return Err(message);
        }
        let count: usize = self.num_blocks as usize;
        let mut chunks: Vec<IszChunk> = Vec::new();
        let mut i: usize = 0;
        while i < count
            invariant
                count == self.num_blocks,
                ptr_len == self.ptr_len,
                1 <= ptr_len <= 4,
                i <= count,
                count * ptr_len <= table@.len(),
                count * ptr_len <= usize::MAX,
                chunks@ == chunk_table(table@, ptr_len as int, i as nat),
                forall|k: int| 0 <= k < i ==> (#[trigger] chunks@[k]).kind <= 3,
            decreases count - i,
        {
            assert(i * ptr_len + ptr_len <= count * ptr_len) by (nonlinear_arith)
                requires
                    i < count,
                    ptr_len >= 0,
            ;
            assert(0 <= i * ptr_len) by (nonlinear_arith)
                requires
                    i >= 0,
                    ptr_len >= 0,
            ;
            chunks.push(decode_pointer(table, i * ptr_len, ptr_len));
            i = i + 1;
        }
        Ok(chunks)
    }

    /// How many bytes the logical image holds.
    pub open spec fn logical_size(self) -> int {
        self.total_sectors * self.sector_size
    }
}

/// The logical image: its chunks, and where their stored bytes start.
#[derive(Debug)]
pub struct IszSource {
    /// Logical image size in bytes.
    pub total_size: u64,
    /// Bytes per decoded chunk.
    pub block_size: u64,
    /// Chunk descriptors paired with the file offset of their bytes.
    pub chunks: Vec<(IszChunk, u64)>,
    /// The chunk that was decoded last.
    pub cached_block: Option<(usize, Vec<u8>)>,
}

/// What is said of a chunk that the image does not have.
pub open spec fn out_of_range() -> IoFailureView {
    IoFailureView { kind: IoKind::UnexpectedEof, message: "ISZ chunk index out of range"@ }
}

/// What the stored bytes of a chunk decode to.
pub open spec fn decoded(chunk: IszChunk, block_size: nat, stored: Seq<u8>) -> Result<
    Seq<u8>,
    IoFailureView,
> {
    if chunk.kind == ISZ_CHUNK_ZERO {
        Ok(zeros(block_size))
    } else if chunk.kind == ISZ_CHUNK_DATA {
        Ok(stored)
    } else if chunk.kind == ISZ_CHUNK_ZLIB {
        zlib_output(stored, u64::MAX)
    } else if chunk.kind == ISZ_CHUNK_BZ2 {
        bzip2_output(stored, u64::MAX)
    } else {
        Err(
            IoFailureView {
                kind: IoKind::InvalidData,
                message: "unknown ISZ chunk type "@ + decimal(chunk.kind as nat),
            },
        )
    }
}

impl IszSource {
    /// The geometry that a header admits.
    pub open spec fn well_formed(self) -> bool {
        0 < self.block_size <= u32::MAX
    }

    /// What chunk `block` of the image stored in `file` decodes to.
    pub open spec fn chunk_data(self, file: Seq<u8>, block: int) -> Result<
        Seq<u8>,
        IoFailureView,
    > {
        if block >= self.chunks@.len() {
            Err(out_of_range())
        } else {
            let (chunk, offset) = self.chunks@[block];
            if chunk.kind != ISZ_CHUNK_ZERO && offset + chunk.stored_length > file.len() {
                Err(unfilled())
            } else {
                decoded(
                    chunk,
                    self.block_size as nat,
                    file.subrange(offset as int, offset + chunk.stored_length),
                )
            }
        }
    }

    /// Whether the remembered chunk, if any, is what `file` decodes to.
    pub open spec fn cache_matches(self, file: Seq<u8>) -> bool {
        match self.cached_block {
            Some((block, data)) => self.chunk_data(file, block as int) == Ok::<Seq<u8>, IoFailureView>(
                data@,
            ),
            None => true,
        }
    }

    /// The logical byte at `offset`: a byte of its chunk, or zero beyond what
    /// the chunk decoded to.
    pub open spec fn byte(self, file: Seq<u8>, offset: int) -> u8 {
        let data = self.chunk_data(file, offset / self.block_size as int)->Ok_0;
        let at = offset % self.block_size as int;
        if at < data.len() {
            data[at]
        } else {
            0
        }
    }

    /// The logical bytes from `from` up to `to`.
    pub open spec fn contents(self, file: Seq<u8>, from: int, to: int) -> Seq<u8> {
        Seq::new((to - from) as nat, |i: int| self.byte(file, from + i))
    }

    /// Whether the chunk that holds the logical byte at `offset` decodes.
    pub open spec fn decodes(self, file: Seq<u8>, offset: int) -> bool {
        self.chunk_data(file, offset / self.block_size as int) is Ok
    }

    /// Whether the chunk that holds the logical byte at `offset` decodes to `chunk`.
    pub open spec fn holds(self, file: Seq<u8>, offset: int, chunk: Seq<u8>) -> bool {
        self.chunk_data(file, offset / self.block_size as int) == Ok::<Seq<u8>, IoFailureView>(
            chunk,
        )
    }

    /// Whether every chunk from `from` up to `to` decodes.
    pub open spec fn covered(self, file: Seq<u8>, from: int, to: int) -> bool {
        forall|o: int| from <= o < to ==> #[trigger] self.decodes(file, o)
    }

    /// Where a read of `len` bytes at `offset` ends.
    pub open spec fn read_end(self, offset: int, len: int) -> int {
        if offset + len <= self.total_size {
            offset + len
        } else if offset <= self.total_size {
            self.total_size as int
        } else {
            offset
        }
    }

    /// Whether two sources describe the same image.
    pub open spec fn same_image(self, other: Self) -> bool {
        &&& self.total_size == other.total_size
        &&& self.block_size == other.block_size
        &&& self.chunks == other.chunks
    }

    /// The logical image that a header and its decoded pointer table describe.
    pub fn new(header: &IszHeader, descriptors: &Vec<IszChunk>) -> (source: Self)
        requires
            header.block_size > 0,
        ensures
            describes(*header, descriptors@, source),
            source.cached_block is None,
    {
        let mut cursor: u64 = header.data_offset as u64;
        let mut chunks: Vec<(IszChunk, u64)> = Vec::new();
        let mut i: usize = 0;
        while i < descriptors.len()
            invariant
                i <= descriptors@.len(),
                chunks@.len() == i,
                cursor == chunk_start(descriptors@, header.data_offset as int, i as int),
                forall|k: int|
                    0 <= k < i ==> (#[trigger] chunks@[k]).0 == descriptors@[k] && chunks@[k].1
                        == chunk_start(descriptors@, header.data_offset as int, k),
            decreases descriptors@.len() - i,
        {
            let descriptor: IszChunk = descriptors[i];
            chunks.push((descriptor, cursor));
            cursor = cursor.saturating_add(descriptor.stored_length as u64);
            i = i + 1;
        }
        assert(header.total_sectors * header.sector_size <= 4_294_967_295 * 65_535)
            by (nonlinear_arith)
            requires
                header.total_sectors <= 4_294_967_295,
                header.sector_size <= 65_535,
        ;
        IszSource {
            total_size: header.total_sectors as u64 * header.sector_size as u64,
            block_size: header.block_size as u64,
            chunks,
            cached_block: None,
        }
    }

    /// Logical image size in bytes.
    pub fn len(&self) -> (len: u64)
        ensures
            len == self.total_size,
    {
        self.total_size
    }

    /// The part of the file that holds the stored bytes of a chunk: its offset
    /// and its length. A chunk of zeros needs none of the file.
    pub fn stored_range(&self, block: usize) -> (range: Option<(u64, u32)>)
        ensures
            range == (if block < self.chunks@.len() && self.chunks@[block as int].0.kind
                != ISZ_CHUNK_ZERO {
                Some((self.chunks@[block as int].1, self.chunks@[block as int].0.stored_length))
            } else {
                None
            }),
    {
        if block < self.chunks.len() {
            let (chunk, offset) = self.chunks[block];
            if chunk.kind != ISZ_CHUNK_ZERO {
                return Some((offset, chunk.stored_length));
            }
        }
        None
    }

    /// Decodes a chunk from its stored bytes.
    pub fn decode_stored(&self, block: usize, stored: &[u8]) -> (data: Result<Vec<u8>, IoFailure>)
        requires
            self.well_formed(),
        ensures
            data_view(data) == (if block < self.chunks@.len() {
                decoded(self.chunks@[block as int].0, self.block_size as nat, stored@)
            } else {
                Err(out_of_range())
            }),
    {
        if block >= self.chunks.len() {
            return Err(IoFailure::new(IoKind::UnexpectedEof, "ISZ chunk index out of range"));
        }
        let (chunk, _) = self.chunks[block];
        if chunk.kind == ISZ_CHUNK_ZERO {
            let mut out: Vec<u8> = Vec::new();
            push_zeros(&mut out, self.block_size as usize);
            assert(out@ == zeros(self.block_size as nat));
            Ok(out)
        } else if chunk.kind == ISZ_CHUNK_DATA {
            let out: Vec<u8> = copy_range(stored, 0, stored.len());
            assert(out@ == stored@);
            Ok(out)
        } else if chunk.kind == ISZ_CHUNK_ZLIB {
            zlib_decode(stored, u64::MAX)
        } else if chunk.kind == ISZ_CHUNK_BZ2 {
            bzip2_decode(stored, u64::MAX)
        } else {
            let mut message: String = "unknown ISZ chunk type ".to_owned();
            message.append(decimal_text(chunk.kind as u64).as_str());
            Err(IoFailure { kind: IoKind::InvalidData, message })
        }
    }

    /// Decodes a chunk of the image stored in `file`.
    pub fn decode_chunk(&self, file: &[u8], block: usize) -> (data: Result<Vec<u8>, IoFailure>)
        requires
            self.well_formed(),
        ensures
            data_view(data) == self.chunk_data(file@, block as int),
    {
        if block >= self.chunks.len() {
            return Err(IoFailure::new(IoKind::UnexpectedEof, "ISZ chunk index out of range"));
        }
        let (chunk, offset) = self.chunks[block];
        if chunk.kind == ISZ_CHUNK_ZERO {
            let nothing: Vec<u8> = Vec::new();
            return self.decode_stored(block, nothing.as_slice());
        }
        if offset > file.len() as u64 || file.len() as u64 - offset < chunk.stored_length as u64 {
            return Err(unfilled_buffer());
        }
        let from: usize = offset as usize;
        let stored: Vec<u8> = copy_range(file, from, from + chunk.stored_length as usize);
        self.decode_stored(block, stored.as_slice())
    }

    /// The logical bytes at `offset` that one chunk holds, at most `len` of them. `chunk` is
    /// what the chunk at `offset` decoded to; beyond it there are zeros.
    pub fn part_of_chunk(&self, chunk: &[u8], offset: u64, len: usize) -> (part: Vec<u8>)
        requires
            self.well_formed(),
            offset < self.total_size,
        ensures
            part@.len() <= len,
            len > 0 ==> part@.len() > 0,
            offset + part@.len() <= self.total_size,
            forall|file: Seq<u8>| #[trigger]
                self.holds(file, offset as int, chunk@) ==> part@ == self.contents(
                    file,
                    offset as int,
                    offset + part@.len(),
                ) && self.covered(file, offset as int, offset + part@.len()),
    {
        let ghost size = self.block_size as int;
        let ghost block = offset as int / size;
        let in_block: u64 = offset % self.block_size;
        let mut avail: u64 = self.block_size - in_block;
        if len as u64 <= avail {
            avail = len as u64;
        }
        if self.total_size - offset < avail {
            avail = self.total_size - offset;
        }
        let from: usize = in_block as usize;
        let mut part: Vec<u8> = Vec::new();
        if from < chunk.len() {
            let rest: usize = chunk.len() - from;
            let run: usize = if (avail as usize) < rest {
                avail as usize
            } else {
                rest
            };
            push_range(&mut part, chunk, from, from + run);
        } else {
            push_zeros(&mut part, avail as usize);
        }
        proof {
            let run = part@.len() as int;
            lemma_fundamental_div_mod(offset as int, size);
            assert(size * block == block * size) by (nonlinear_arith);
            assert forall|i: int| 0 <= i < run implies (#[trigger] (offset + i)) / size == block && (
            offset + i) % size == in_block + i by {
                lemma_fundamental_div_mod_converse(offset + i, size, block, in_block + i);
            }
            assert forall|file: Seq<u8>| #[trigger]
                self.holds(file, offset as int, chunk@) implies part@ == self.contents(
                file,
                offset as int,
                offset + run,
            ) && self.covered(file, offset as int, offset + run) by {
                assert forall|o: int| offset <= o < offset + run implies #[trigger] self.decodes(
                    file,
                    o,
                ) by {
                    assert(o == offset + (o - offset));
                }
                assert forall|k: int| 0 <= k < run implies part@[k] == self.contents(
                    file,
                    offset as int,
                    offset + run,
                )[k] by {
                    assert((offset + k) / size == block);
                }
                assert(part@ =~= self.contents(file, offset as int, offset + run));
            }
        }
        part
    }

    /// Makes sure that chunk `block` is the one that is remembered.
    fn remember(&mut self, file: &[u8], block: usize) -> (done: Result<(), IoFailure>)
        requires
            old(self).well_formed(),
            old(self).cache_matches(file@),
        ensures
            final(self).same_image(*old(self)),
            final(self).cache_matches(file@),
            match done {
                Ok(_) => final(self).cached_block matches Some((b, _)) && b == block,
                Err(message) => old(self).chunk_data(file@, block as int) == Err::<
                    Seq<u8>,
                    IoFailureView,
                >(message@),
            },
    {
        let known: bool = match &self.cached_block {
            Some((b, _)) => *b == block,
            None => false,
        };
        if known {
            return Ok(());
        }
        match self.decode_chunk(file, block) {
            Ok(data) => {
                self.cached_block = Some((block, data));
                Ok(())
            },
            Err(message) => Err(message),
        }
    }

    /// Reads at most `len` logical bytes at `offset` of the image stored in
    /// `file`. Reading stops at the end of the image; it fails when a chunk on
    /// the way does not decode, with the message of the first such chunk.
    pub fn read_at(&mut self, file: &[u8], offset: u64, len: usize) -> (data: Result<
        Vec<u8>,
        IoFailure,
    >)
        requires
            old(self).well_formed(),
            old(self).cache_matches(file@),
        ensures
            final(self).same_image(*old(self)),
            final(self).cache_matches(file@),
            ({
                let end = old(self).read_end(offset as int, len as int);
                match data {
                    Ok(data) => old(self).covered(file@, offset as int, end) && data@ == old(
                        self,
                    ).contents(file@, offset as int, end),
                    Err(message) => exists|o: int|
                        offset <= o < end && old(self).covered(file@, offset as int, o)
                            && #[trigger] old(self).chunk_data(
                            file@,
                            o / old(self).block_size as int,
                        ) == Err::<Seq<u8>, IoFailureView>(message@),
                }
            }),
    {
        let ghost image = *self;
        let ghost end = image.read_end(offset as int, len as int);
        let ghost size = image.block_size as int;
        let mut out: Vec<u8> = Vec::new();
        let mut at: u64 = offset;
        let mut left: usize = len;
        while left > 0 && at < self.total_size
            invariant
                image == *old(self),
                image.well_formed(),
                self.same_image(image),
                self.cache_matches(file@),
                size == image.block_size,
                end == image.read_end(offset as int, len as int),
                offset <= at,
                at - offset + left == len,
                at <= end || at == offset,
                image.covered(file@, offset as int, at as int),
                out@ == image.contents(file@, offset as int, at as int),
            decreases left,
        {
            let block: u64 = at / self.block_size;
            let ghost before = at as int;
            if block > usize::MAX as u64 {
                assert(self.chunks@.len() == self.chunks.len());
                assert(image.chunk_data(file@, before / size) == Err::<Seq<u8>, IoFailureView>(
                    out_of_range(),
                ));
                return Err(IoFailure::new(IoKind::UnexpectedEof, "ISZ chunk index out of range"));
            }
            match self.remember(file, block as usize) {
                Ok(_) => {},
                Err(failure) => {
                    assert(image.chunk_data(file@, before / size) == Err::<Seq<u8>, IoFailureView>(
                        failure@,
                    ));
                    return Err(failure);
                },
            }
            let part: Vec<u8> = match &self.cached_block {
                Some((_, data)) => {
                    assert(self.holds(file@, before, data@));
                    self.part_of_chunk(data.as_slice(), at, left)
                },
                None => {
                    return Ok(out);
                },
            };
            assert(part@ == self.contents(file@, before, before + part@.len()));
            push_range(&mut out, part.as_slice(), 0, part.len());
            at = at + part.len() as u64;
            left = left - part.len();
            proof {
                assert(part@.subrange(0, part@.len() as int) =~= part@);
                assert(self.contents(file@, before, at as int) =~= image.contents(
                    file@,
                    before,
                    at as int,
                ));
                assert forall|o: int| before <= o < at implies #[trigger] image.decodes(
                    file@,
                    o,
                ) by {
                    assert(self.decodes(file@, o));
                }
                law_reads_compose(image, file@, offset as int, before, at as int);
            }
        }
        Ok(out)
    }
}

/// Whether every chunk of a source decodes to its part of an image.
pub open spec fn packs(source: IszSource, file: Seq<u8>, image: Seq<u8>) -> bool {
    &&& source.well_formed()
    &&& source.total_size == image.len()
    &&& forall|block: int|
        0 <= block && block * source.block_size < image.len() ==> #[trigger] source.chunk_data(
            file,
            block,
        ) == Ok::<Seq<u8>, IoFailureView>(
            image.subrange(
                block * source.block_size,
                if (block + 1) * source.block_size <= image.len() {
                    (block + 1) * source.block_size
                } else {
                    image.len() as int
                },
            ),
        )
}

/// Where every chunk decodes to its part of an image, reading the source gives
/// back that image, byte for byte.
pub proof fn law_reads_give_back_the_image(source: IszSource, file: Seq<u8>, image: Seq<u8>)
    requires
        packs(source, file, image),
    ensures
        source.covered(file, 0, image.len() as int),
        source.contents(file, 0, image.len() as int) == image,
        forall|from: int, to: int|
            0 <= from <= to <= image.len() ==> #[trigger] source.contents(file, from, to)
                == image.subrange(from, to),
{
    let size = source.block_size as int;
    assert forall|o: int| 0 <= o < image.len() implies #[trigger] source.decodes(file, o)
        && source.byte(file, o) == image[o] by {
        let block = o / size;
        lemma_fundamental_div_mod(o, size);
        assert(size * block == block * size) by (nonlinear_arith);
        assert((block + 1) * size == block * size + size) by (nonlinear_arith);
        assert(block >= 0) by {
            vstd::arithmetic::div_mod::lemma_div_pos_is_pos(o, size);
        }
        assert(source.chunk_data(file, block) is Ok);
    }
    assert forall|from: int, to: int| 0 <= from <= to <= image.len() implies #[trigger]
        source.contents(file, from, to) == image.subrange(from, to) by {
        assert forall|k: int| 0 <= k < to - from implies source.contents(file, from, to)[k]
            == image.subrange(from, to)[k] by {
            assert(source.decodes(file, from + k));
        }
        assert(source.contents(file, from, to) =~= image.subrange(from, to));
    }
    assert(image.subrange(0, image.len() as int) =~= image);
}

/// Two sources of one size whose chunks decode alike read alike, whatever is stored for
/// the chunks.
pub proof fn law_equal_chunks_read_alike(
    source: IszSource,
    file: Seq<u8>,
    other_source: IszSource,
    other_file: Seq<u8>,
)
    requires
        source.well_formed(),
        source.total_size == other_source.total_size,
        source.block_size == other_source.block_size,
        forall|block: int|
            0 <= block ==> #[trigger] source.chunk_data(file, block) == other_source.chunk_data(
                other_file,
                block,
            ),
    ensures
        forall|offset: int|
            0 <= offset ==> #[trigger] source.decodes(file, offset) == other_source.decodes(
                other_file,
                offset,
            ),
        forall|offset: int, len: int|
            #[trigger] source.read_end(offset, len) == other_source.read_end(offset, len),
        forall|from: int, to: int|
            0 <= from <= to ==> #[trigger] source.contents(file, from, to)
                == other_source.contents(other_file, from, to),
{
    let size = source.block_size as int;
    assert forall|offset: int| 0 <= offset implies #[trigger] source.decodes(file, offset)
        == other_source.decodes(other_file, offset) by {
        vstd::arithmetic::div_mod::lemma_div_pos_is_pos(offset, size);
        assert(source.chunk_data(file, offset / size) == other_source.chunk_data(
            other_file,
            offset / size,
        ));
    }
    assert forall|from: int, to: int| 0 <= from <= to implies #[trigger] source.contents(
        file,
        from,
        to,
    ) == other_source.contents(other_file, from, to) by {
        assert forall|o: int| from <= o < to implies #[trigger] source.byte(file, o)
            == other_source.byte(other_file, o) by {
            vstd::arithmetic::div_mod::lemma_div_pos_is_pos(o, size);
            assert(source.chunk_data(file, o / size) == other_source.chunk_data(
                other_file,
                o / size,
            ));
        }
        assert(source.contents(file, from, to) =~= other_source.contents(other_file, from, to));
    }
}

/// How an image is packed does not show: two sources that pack one image read alike,
/// whatever the size of their chunks and however each chunk is stored.
pub proof fn law_packing_does_not_show(
    source: IszSource,
    file: Seq<u8>,
    other_source: IszSource,
    other_file: Seq<u8>,
    image: Seq<u8>,
)
    requires
        packs(source, file, image),
        packs(other_source, other_file, image),
    ensures
        source.total_size == other_source.total_size,
        source.covered(file, 0, image.len() as int),
        other_source.covered(other_file, 0, image.len() as int),
        forall|from: int, to: int|
            0 <= from <= to <= image.len() ==> #[trigger] source.contents(file, from, to)
                == other_source.contents(other_file, from, to),
{
    law_reads_give_back_the_image(source, file, image);
    law_reads_give_back_the_image(other_source, other_file, image);
    assert forall|from: int, to: int| 0 <= from <= to <= image.len() implies #[trigger]
        source.contents(file, from, to) == other_source.contents(other_file, from, to) by {
        assert(other_source.contents(other_file, from, to) == image.subrange(from, to));
    }
}

/// A read cut in two gives the same bytes as the read in one go, and succeeds
/// exactly when both parts do.
pub proof fn law_reads_compose(
    source: IszSource,
    file: Seq<u8>,
    from: int,
    middle: int,
    to: int,
)
    requires
        from <= middle <= to,
    ensures
        source.contents(file, from, to) == source.contents(file, from, middle) + source.contents(
            file,
            middle,
            to,
        ),
        source.covered(file, from, to) <==> source.covered(file, from, middle) && source.covered(
            file,
            middle,
            to,
        ),
{
    assert(source.contents(file, from, to) =~= source.contents(file, from, middle)
        + source.contents(file, middle, to)) by {
        assert forall|k: int| 0 <= k < to - from implies source.contents(file, from, to)[k] == (
        source.contents(file, from, middle) + source.contents(file, middle, to))[k] by {
            if k >= middle - from {
                assert(from + k == middle + (k - (middle - from)));
            }
        }
    }
}

proof fn lemma_chunk_start_bound(chunks: Seq<IszChunk>, data_offset: int, i: int)
    requires
        0 <= i <= chunks.len(),
        0 <= data_offset,
        forall|k: int| 0 <= k < chunks.len() ==> (#[trigger] chunks[k]).stored_length
            < 1_073_741_824,
    ensures
        0 <= chunk_start(chunks, data_offset, i) <= data_offset + i * 1_073_741_824,
    decreases i,
{
    if i > 0 {
        lemma_chunk_start_bound(chunks, data_offset, i - 1);
    }
}

/// Chunks lie back to back: each starts where the one before it ends. The
/// lengths are those that a chunk pointer can carry.
pub proof fn law_chunks_lie_back_to_back(chunks: Seq<IszChunk>, data_offset: int, i: int)
    requires
        0 <= i < chunks.len() <= u32::MAX,
        0 <= data_offset <= u32::MAX,
        forall|k: int| 0 <= k < chunks.len() ==> (#[trigger] chunks[k]).stored_length
            < 1_073_741_824,
    ensures
        chunk_start(chunks, data_offset, 0) == data_offset,
        chunk_start(chunks, data_offset, i + 1) == chunk_start(chunks, data_offset, i)
            + chunks[i].stored_length,
{
    lemma_chunk_start_bound(chunks, data_offset, i);
}

/// A pointer splits without loss: its type and its length make up its value.
pub proof fn law_pointers_split_at_the_top_two_bits(raw: Seq<u8>)
    requires
        1 <= raw.len() <= 4,
    ensures
        chunk_of(raw).kind <= 3,
        chunk_of(raw).kind * length_unit(raw.len() as int) + chunk_of(raw).stored_length
            == le_value(raw),
{
    reveal_with_fuel(le_value, 5);
    let a = raw.subrange(1, raw.len() as int);
    let b = a.subrange(1, a.len() as int);
    let c = b.subrange(1, b.len() as int);
    let unit = length_unit(raw.len() as int) as int;
    assert(le_value(raw) < 4 * unit);
    lemma_fundamental_div_mod(le_value(raw) as int, unit);
}

/// Whether a pointer spells a chunk at its own width: the type above the length.
pub open spec fn spells(raw: Seq<u8>, chunk: IszChunk) -> bool {
    &&& le_value(raw) == chunk.kind as nat * length_unit(raw.len() as int) + chunk.stored_length
    &&& (chunk.stored_length as nat) < length_unit(raw.len() as int)
}

/// A pointer of any width says what it spells.
pub proof fn law_pointers_of_any_width_say_what_they_spell(raw: Seq<u8>, chunk: IszChunk)
    requires
        spells(raw, chunk),
    ensures
        chunk_of(raw) == chunk,
{
    let unit = length_unit(raw.len() as int) as int;
    let kind = chunk.kind as int;
    let length = chunk.stored_length as int;
    vstd::arithmetic::div_mod::lemma_fundamental_div_mod_converse(
        le_value(raw) as int,
        unit,
        kind,
        length,
    );
}

/// Whether a source is the image that a header and its chunks describe.
pub open spec fn describes(header: IszHeader, chunks: Seq<IszChunk>, source: IszSource) -> bool {
    &&& source.well_formed()
    &&& source.total_size == header.logical_size()
    &&& source.block_size == header.block_size
    &&& source.chunks@.len() == chunks.len()
    &&& forall|i: int|
        0 <= i < chunks.len() ==> (#[trigger] source.chunks@[i]).0 == chunks[i]
            && source.chunks@[i].1 == chunk_start(chunks, header.data_offset as int, i)
}

/// How many bytes are stored for the first `i` chunks.
spec fn stored_before(chunks: Seq<IszChunk>, i: int) -> int
    decreases i,
{
    if i <= 0 {
        0
    } else {
        stored_before(chunks, i - 1) + chunks[i - 1].stored_length
    }
}

proof fn lemma_chunk_start(chunks: Seq<IszChunk>, data_offset: int, i: int)
    requires
        0 <= i <= chunks.len() <= u32::MAX,
        0 <= data_offset <= u32::MAX,
    ensures
        chunk_start(chunks, data_offset, i) == data_offset + stored_before(chunks, i),
        0 <= stored_before(chunks, i) <= i * 4_294_967_295,
    decreases i,
{
    if i > 0 {
        lemma_chunk_start(chunks, data_offset, i - 1);
        assert((i - 1) * 4_294_967_295 + 4_294_967_295 == i * 4_294_967_295) by (nonlinear_arith);
        assert(i * 4_294_967_295 <= 4_294_967_295 * 4_294_967_295) by (nonlinear_arith)
            requires
                i <= 4_294_967_295,
        ;
    }
}

/// The width of the chunk pointers does not show: two files whose tables spell the same
/// chunks, at whatever widths, and that store the same bytes for them, hold the same
/// image.
pub proof fn law_pointer_width_does_not_show(
    header: IszHeader,
    table: Seq<u8>,
    file: Seq<u8>,
    source: IszSource,
    other_header: IszHeader,
    other_table: Seq<u8>,
    other_file: Seq<u8>,
    other_source: IszSource,
    chunks: Seq<IszChunk>,
)
    requires
        header.chunk_table_of(table) == Ok::<Seq<IszChunk>, Seq<char>>(chunks),
        other_header.chunk_table_of(other_table) == Ok::<Seq<IszChunk>, Seq<char>>(chunks),
        describes(header, chunks, source),
        describes(other_header, chunks, other_source),
        header.logical_size() == other_header.logical_size(),
        header.block_size == other_header.block_size,
        header.data_offset <= file.len(),
        other_header.data_offset <= other_file.len(),
        file.skip(header.data_offset as int) == other_file.skip(other_header.data_offset as int),
    ensures
        source.total_size == other_source.total_size,
        forall|block: int|
            0 <= block ==> #[trigger] source.chunk_data(file, block) == other_source.chunk_data(
                other_file,
                block,
            ),
        forall|offset: int|
            0 <= offset ==> #[trigger] source.decodes(file, offset) == other_source.decodes(
                other_file,
                offset,
            ),
        forall|from: int, to: int|
            0 <= from <= to ==> #[trigger] source.contents(file, from, to)
                == other_source.contents(other_file, from, to),
{
    let here = header.data_offset as int;
    let there = other_header.data_offset as int;
    assert forall|block: int| 0 <= block implies #[trigger] source.chunk_data(file, block)
        == other_source.chunk_data(other_file, block) by {
        if block < chunks.len() {
            lemma_chunk_start(chunks, here, block);
            lemma_chunk_start(chunks, there, block);
            assert(source.chunks@[block].0 == chunks[block]);
            assert(other_source.chunks@[block].0 == chunks[block]);
            let length = chunks[block].stored_length as int;
            let before = stored_before(chunks, block);
            assert(file.skip(here).len() == other_file.skip(there).len());
            if before + length <= file.skip(here).len() {
                assert(file.subrange(here + before, here + before + length) =~= file.skip(
                    here,
                ).subrange(before, before + length));
                assert(other_file.subrange(there + before, there + before + length)
                    =~= other_file.skip(there).subrange(before, before + length));
            }
        }
    }
    law_equal_chunks_read_alike(source, file, other_source, other_file);
}

/// The fields of a header are little-endian numbers at the places that the format gives
/// to them, and a header without one of the refused fields is accepted.
pub proof fn law_header_fields_lie_where_the_format_puts_them(buf: Seq<u8>)
    ensures
        isz_header(buf) is Ok <==> {
            &&& buf.len() >= 48
            &&& buf[0] == 0x49 && buf[1] == 0x73 && buf[2] == 0x5a && buf[3] == 0x21
            &&& buf[16] == 0
            &&& buf[34] <= 1
            &&& word_at(buf, 29) > 0
            &&& buf[10] > 0 || buf[11] > 0
            &&& 1 <= buf[33] <= 4
            &&& word_at(buf, 25) > 0
        },
        isz_header(buf) matches Ok(h) ==> {
            &&& h.header_size == buf[4]
            &&& h.version == buf[5]
            &&& h.sector_size == buf[10] + 0x100 * buf[11]
            &&& h.total_sectors == word_at(buf, 12)
            &&& h.encryption_type == 0
            &&& h.segment_size == word_at(buf, 17) + 0x1_0000_0000 * word_at(buf, 21)
            &&& h.num_blocks == word_at(buf, 25)
            &&& h.block_size == word_at(buf, 29)
            &&& h.ptr_len == buf[33]
            &&& h.segment_count == buf[34]
            &&& h.ptr_offset == word_at(buf, 35)
            &&& h.segment_table_offset == word_at(buf, 39)
            &&& h.data_offset == word_at(buf, 43)
        },
{
    if buf.len() >= 48 {
        let head = buf.subrange(0, 4);
        let magic = ISZ_MAGIC@;
        assert(head[0] == buf[0] && head[1] == buf[1] && head[2] == buf[2] && head[3] == buf[3]);
        if buf[0] == 0x49 && buf[1] == 0x73 && buf[2] == 0x5a && buf[3] == 0x21 {
            assert(head =~= magic);
        }
        law_half_words_are_little_endian(buf, 10);
        law_words_are_little_endian(buf, 12);
        law_long_words_are_two_words(buf, 17);
        law_words_are_little_endian(buf, 25);
        law_words_are_little_endian(buf, 29);
        law_words_are_little_endian(buf, 35);
        law_words_are_little_endian(buf, 39);
        law_words_are_little_endian(buf, 43);
    }
}

/// The two highest bits of a pointer tell how its chunk is stored, and the others how
/// many bytes it has, at each width that a pointer may have.
pub proof fn law_pointers_hold_the_kind_in_their_two_highest_bits(raw: Seq<u8>)
    requires
        1 <= raw.len() <= 4,
    ensures
        chunk_of(raw).kind == raw.last() / 64,
        raw.len() == 1 ==> chunk_of(raw).stored_length == raw[0] % 64,
        raw.len() == 2 ==> chunk_of(raw).stored_length == raw[0] + 0x100 * (raw[1] % 64),
        raw.len() == 3 ==> chunk_of(raw).stored_length == raw[0] + 0x100 * raw[1] + 0x1_0000 * (
        raw[2] % 64),
        raw.len() == 4 ==> chunk_of(raw).stored_length == raw[0] + 0x100 * raw[1] + 0x1_0000
            * raw[2] + 0x100_0000 * (raw[3] % 64),
{
    reveal_with_fuel(le_value, 5);
    let a = raw.subrange(1, raw.len() as int);
    let b = a.subrange(1, a.len() as int);
    let c = b.subrange(1, b.len() as int);
}

/// The bytes that the first `i` chunks take in the file.
pub open spec fn bytes_before(chunks: Seq<IszChunk>, i: int) -> int
    decreases i,
{
    if i <= 0 {
        0
    } else {
        bytes_before(chunks, i - 1) + chunks[i - 1].stored_length
    }
}

/// A chunk lies behind all earlier ones in the data area and holds what is stored
/// there: as it is, packed with zlib, or packed with bzip2. A chunk of zeros takes its
/// contents from nowhere. An image has the bytes of all its sectors.
pub proof fn law_chunks_hold_what_is_stored_for_them(
    header: IszHeader,
    chunks: Seq<IszChunk>,
    source: IszSource,
    file: Seq<u8>,
    i: int,
)
    requires
        describes(header, chunks, source),
        0 <= i < chunks.len() <= u32::MAX,
        forall|k: int| 0 <= k < chunks.len() ==> (#[trigger] chunks[k]).stored_length
            < 1_073_741_824,
        header.data_offset + bytes_before(chunks, i) + chunks[i].stored_length <= file.len(),
    ensures
        source.total_size == header.total_sectors * header.sector_size,
        ({
            let start = header.data_offset + bytes_before(chunks, i);
            let stored = file.subrange(start, start + chunks[i].stored_length);
            &&& chunks[i].kind == 0 ==> source.chunk_data(file, i) == Ok::<Seq<u8>, IoFailureView>(
                Seq::new(header.block_size as nat, |k: int| 0u8),
            )
            &&& chunks[i].kind == 1 ==> source.chunk_data(file, i) == Ok::<Seq<u8>, IoFailureView>(
                stored,
            )
            &&& chunks[i].kind == 2 ==> source.chunk_data(file, i) == zlib_output(stored, u64::MAX)
            &&& chunks[i].kind == 3 ==> source.chunk_data(file, i) == bzip2_output(
                stored,
                u64::MAX,
            )
        }),
{
    lemma_starts_add_up(chunks, header.data_offset as int, i);
    assert(source.chunks@[i].0 == chunks[i]);
    assert(zeros(header.block_size as nat) =~= Seq::new(header.block_size as nat, |k: int| 0u8));
}

proof fn lemma_starts_add_up(chunks: Seq<IszChunk>, data_offset: int, i: int)
    requires
        0 <= i < chunks.len() <= u32::MAX,
        0 <= data_offset <= u32::MAX,
        forall|k: int| 0 <= k < chunks.len() ==> (#[trigger] chunks[k]).stored_length
            < 1_073_741_824,
    ensures
        chunk_start(chunks, data_offset, i) == data_offset + bytes_before(chunks, i),
    decreases i,
{
    if i > 0 {
        lemma_starts_add_up(chunks, data_offset, i - 1);
        law_chunks_lie_back_to_back(chunks, data_offset, i - 1);
    }
}

/// A byte of the image is the byte of its chunk, and zero behind the end of a short
/// chunk; a read ends with the image.
pub proof fn law_bytes_come_from_their_chunk(
    source: IszSource,
    file: Seq<u8>,
    block: int,
    at: int,
    chunk: Seq<u8>,
    offset: int,
    len: int,
)
    requires
        source.well_formed(),
        0 <= block,
        0 <= at < source.block_size,
        source.chunk_data(file, block) == Ok::<Seq<u8>, IoFailureView>(chunk),
        0 <= offset,
        0 <= len,
    ensures
        source.contents(
            file,
            block * source.block_size + at,
            block * source.block_size + at + 1,
        ) == seq![
            if at < chunk.len() {
                chunk[at]
            } else {
                0u8
            },
        ],
        source.read_end(offset, len) - offset == (if offset >= source.total_size {
            0
        } else if len <= source.total_size - offset {
            len
        } else {
            source.total_size - offset
        }),
{
    let o = block * source.block_size + at;
    lemma_fundamental_div_mod_converse(o, source.block_size as int, block, at);
    assert(source.contents(file, o, o + 1).len() == 1);
    assert(source.contents(file, o, o + 1)[0] == source.byte(file, o + 0));
}

/// The pointers of a table lie one behind the other, and a table that is too short for
/// its chunks is refused.
pub proof fn law_tables_hold_one_pointer_for_every_chunk(header: IszHeader, table: Seq<u8>)
    requires
        1 <= header.ptr_len <= 4,
        header.num_blocks * header.ptr_len <= usize::MAX,
    ensures
        header.chunk_table_of(table) is Ok <==> header.num_blocks * header.ptr_len <= table.len(),
        header.chunk_table_of(table) matches Ok(chunks) ==> {
            &&& chunks.len() == header.num_blocks
            &&& forall|i: int|
                0 <= i < chunks.len() ==> #[trigger] chunks[i] == chunk_of(
                    table.subrange(i * header.ptr_len, (i + 1) * header.ptr_len),
                )
        },
{
    assert forall|i: int| (i + 1) * header.ptr_len == #[trigger] (i * header.ptr_len)
        + header.ptr_len by {
        assert((i + 1) * header.ptr_len == i * header.ptr_len + header.ptr_len) by (nonlinear_arith);
    }
}

/// Two sources of the same image are of the same size and give the same bytes, whatever
/// they have decoded so far.
pub proof fn law_the_same_image_gives_the_same_bytes(
    one: IszSource,
    other: IszSource,
    file: Seq<u8>,
    block: int,
)
    requires
        one.same_image(other),
    ensures
        one.total_size == other.total_size,
        one.block_size == other.block_size,
        one.chunk_data(file, block) == other.chunk_data(file, block),
{
}

} // verus!
