//! `VirtualBox` disk images (`.vdi`): the header, the block map, and the
//! logical disk that they describe.
use crate::bytes::{
    law_long_words_are_two_words, law_words_are_little_endian, le_at, le_words, push_range,
    push_zeros, read_u32_le, read_u64_le, word_at, zeros,
};
use crate::text::{decimal, decimal_text, viewed};
use vstd::arithmetic::div_mod::lemma_fundamental_div_mod_converse;
use vstd::prelude::*;

verus! {

/// The image signature, a little-endian word at offset 64.
pub const VDI_SIGNATURE: u32 = 0xbeda_107f;

/// How many bytes of the file hold the header.
pub const VDI_HEADER_BYTES: usize = 512;

/// Block map entry of a block that was never allocated.
pub const VDI_BLOCK_FREE: u32 = 0xFFFF_FFFF;

/// Block map entry of a block that is allocated but known to be all zeros.
pub const VDI_BLOCK_ZERO: u32 = 0xFFFF_FFFE;

/// A sparse image with a populated block map.
pub const VDI_TYPE_DYNAMIC: u32 = 1;

/// A preallocated image, still block-mapped.
pub const VDI_TYPE_FIXED: u32 = 2;

/// The most entries that a block map may declare.
pub const VDI_MAX_BLOCKS: u32 = 67_108_864;

/// Parsed Oracle `VirtualBox` VDI header.
#[derive(Debug, Clone, Copy)]
pub struct VdiHeader {
    /// Image type (`VDI_TYPE_*`).
    pub image_type: u32,
    /// Offset of the block map.
    pub offset_bmap: u32,
    /// Offset of the first data block.
    pub offset_data: u32,
    /// Logical disk size in bytes.
    pub disk_size: u64,
    /// Bytes per data block.
    pub block_size: u32,
    /// Per-block metadata prefix size, normally zero.
    pub block_extra: u32,
    /// Number of entries in the block map.
    pub blocks_in_hdd: u32,
}

/// Whether a file that begins with `prefix` carries the VDI signature.
pub open spec fn has_vdi_signature(prefix: Seq<u8>) -> bool {
    prefix.len() >= 68 && le_at(prefix, 64, 4) == VDI_SIGNATURE
}

/// The fields of a header at their documented offsets.
pub open spec fn vdi_fields(buf: Seq<u8>) -> VdiHeader {
    VdiHeader {
        image_type: le_at(buf, 76, 4) as u32,
        offset_bmap: le_at(buf, 340, 4) as u32,
        offset_data: le_at(buf, 344, 4) as u32,
        disk_size: le_at(buf, 368, 8) as u64,
        block_size: le_at(buf, 376, 4) as u32,
        block_extra: le_at(buf, 380, 4) as u32,
        blocks_in_hdd: le_at(buf, 384, 4) as u32,
    }
}

/// The first reason not to read an image with these fields.
pub open spec fn vdi_refusal(h: VdiHeader) -> Option<Seq<char>> {
    if h.image_type != VDI_TYPE_DYNAMIC && h.image_type != VDI_TYPE_FIXED {
        Some(
            "VDI image type "@ + decimal(h.image_type as nat)
                + " is a differencing or undo image whose data lives in a parent image; merge it with `VBoxManage clonemedium` first"@,
        )
    } else if h.block_size == 0 || h.blocks_in_hdd == 0 {
        Some("invalid VDI geometry"@)
    } else if h.blocks_in_hdd > VDI_MAX_BLOCKS {
        Some(
            "VDI declares "@ + decimal(h.blocks_in_hdd as nat) + " blocks, above the "@ + decimal(
                VDI_MAX_BLOCKS as nat,
            ) + " block limit"@,
        )
    } else if h.block_extra != 0 {
        Some(
            "VDI declares "@ + decimal(h.block_extra as nat)
                + " bytes of per-block extra data, which this reader does not decode"@,
        )
    } else {
        None
    }
}

/// What a header means: its fields, or the message that refuses it.
pub open spec fn vdi_header(buf: Seq<u8>) -> Result<VdiHeader, Seq<char>> {
    if buf.len() < 400 {
        Err("VDI header too short"@)
    } else if le_at(buf, 64, 4) != VDI_SIGNATURE {
        Err("invalid VDI signature"@)
    } else {
        match vdi_refusal(vdi_fields(buf)) {
            Some(message) => Err(message),
            None => Ok(vdi_fields(buf)),
        }
    }
}

/// Whether a file that begins with `prefix` carries the VDI signature.
pub fn is_vdi_image(prefix: &[u8]) -> (r: bool)
    ensures
        r == has_vdi_signature(prefix@),
{
    prefix.len() >= 68 && read_u32_le(prefix, 64) == VDI_SIGNATURE
}

impl VdiHeader {
    /// Parses and validates a VDI header.
    ///
    /// The message of an error describes the first field that makes the image
    /// unreadable: a bad signature, an image type (differencing or undo) whose
    /// data lives in a parent image, or an unusable geometry.
    pub fn read(buf: &[u8]) -> (header: Result<Self, String>)
        ensures
            viewed(header) == vdi_header(buf@),
    {
        if buf.len() < 400 {
            return Err("VDI header too short".to_owned());
        }
        if read_u32_le(buf, 64) != VDI_SIGNATURE {
            return Err("invalid VDI signature".to_owned());
        }
        let header = VdiHeader {
            image_type: read_u32_le(buf, 76),
            offset_bmap: read_u32_le(buf, 340),
            offset_data: read_u32_le(buf, 344),
            disk_size: read_u64_le(buf, 368),
            block_size: read_u32_le(buf, 376),
            block_extra: read_u32_le(buf, 380),
            blocks_in_hdd: read_u32_le(buf, 384),
        };
        if header.image_type != VDI_TYPE_DYNAMIC && header.image_type != VDI_TYPE_FIXED {
            let mut message: String = "VDI image type ".to_owned();
            message.append(decimal_text(header.image_type as u64).as_str());
            message.append(
                " is a differencing or undo image whose data lives in a parent image; merge it with `VBoxManage clonemedium` first",
            );
            return Err(message);
        }
        if header.block_size == 0 || header.blocks_in_hdd == 0 {
            return Err("invalid VDI geometry".to_owned());
        }
        if header.blocks_in_hdd > VDI_MAX_BLOCKS {
            let mut message: String = "VDI declares ".to_owned();
            message.append(decimal_text(header.blocks_in_hdd as u64).as_str());
            message.append(" blocks, above the ");
            message.append(decimal_text(VDI_MAX_BLOCKS as u64).as_str());
            message.append(" block limit");
            return Err(message);
        }
        if header.block_extra != 0 {
            let mut message: String = "VDI declares ".to_owned();
            message.append(decimal_text(header.block_extra as u64).as_str());
            message.append(" bytes of per-block extra data, which this reader does not decode");
            return Err(message);
        }
        Ok(header)
    }
}

/// The logical disk of an image: where each of its blocks lies in the file.
#[derive(Debug)]
pub struct VdiSource {
    /// File offset of the first data block.
    pub offset_data: u64,
    /// Logical disk size in bytes.
    pub disk_size: u64,
    /// Bytes per block.
    pub block_size: u64,
    /// The block map: for each logical block, its place in the data area.
    pub bat: Vec<u32>,
}

/// A run of logical bytes that lie together.
#[derive(Debug, Clone, Copy, PartialEq, Eq, Structural)]
pub enum Segment {
    /// Bytes that no file holds and that read as zeros.
    Zeros {
        /// How many bytes.
        len: usize,
    },
    /// Bytes of the image file.
    Stored {
        /// Where they start in the file.
        offset: u64,
        /// How many bytes.
        len: usize,
    },
}

/// A read that the image file is too short for.
#[derive(Debug, Clone, Copy, PartialEq, Eq, Structural)]
pub struct ShortFile;

impl Segment {
    /// How many bytes the run holds.
    pub open spec fn length(self) -> int {
        match self {
            Segment::Zeros { len } => len as int,
            Segment::Stored { offset, len } => len as int,
        }
    }

    /// The file offset of the byte `i` of the run, if a file holds it.
    pub open spec fn place(self, i: int) -> Option<int> {
        match self {
            Segment::Zeros { len } => None,
            Segment::Stored { offset, len } => Some(offset + i),
        }
    }
}

impl VdiSource {
    /// The geometry that a header admits.
    pub open spec fn well_formed(self) -> bool {
        &&& 0 < self.block_size <= u32::MAX
        &&& self.offset_data <= u32::MAX
    }

    /// The file offset of the logical byte at `offset`; `None` where no block
    /// is allocated for it.
    pub open spec fn place(self, offset: int) -> Option<int> {
        let block = offset / self.block_size as int;
        if block >= self.bat@.len() || self.bat@[block] == VDI_BLOCK_FREE || self.bat@[block]
            == VDI_BLOCK_ZERO {
            None
        } else {
            Some(
                self.offset_data + self.bat@[block] * self.block_size + offset
                    % self.block_size as int,
            )
        }
    }

    /// The logical byte at `offset` of the image stored in `file`.
    pub open spec fn byte(self, file: Seq<u8>, offset: int) -> u8 {
        match self.place(offset) {
            Some(p) => file[p],
            None => 0,
        }
    }

    /// The logical bytes from `from` up to `to`.
    pub open spec fn contents(self, file: Seq<u8>, from: int, to: int) -> Seq<u8> {
        Seq::new((to - from) as nat, |i: int| self.byte(file, from + i))
    }

    /// Whether `file` holds every stored byte from `from` up to `to`.
    pub open spec fn covered(self, file: Seq<u8>, from: int, to: int) -> bool {
        forall|o: int|
            from <= o < to ==> match #[trigger] self.place(o) {
                Some(p) => p < file.len(),
                None => true,
            }
    }

    /// Where a read of `len` bytes at `offset` ends.
    pub open spec fn read_end(self, offset: int, len: int) -> int {
        if offset + len <= self.disk_size {
            offset + len
        } else if offset <= self.disk_size {
            self.disk_size as int
        } else {
            offset
        }
    }

    /// The logical disk that a header and the bytes of its block map describe.
    pub fn new(header: &VdiHeader, block_map: &[u8]) -> (source: Self)
        requires
            header.block_size > 0,
        ensures
            source.well_formed(),
            source.offset_data == header.offset_data,
            source.disk_size == header.disk_size,
            source.block_size == header.block_size,
            source.bat@ == le_words(block_map@),
    {
        VdiSource {
            offset_data: header.offset_data as u64,
            disk_size: header.disk_size,
            block_size: header.block_size as u64,
            bat: crate::bytes::read_words(block_map),
        }
    }

    /// Logical disk size in bytes.
    pub fn len(&self) -> (len: u64)
        ensures
            len == self.disk_size,
    {
        self.disk_size
    }

    /// The longest run of at most `want` logical bytes at `offset` that stays
    /// in one block.
    pub fn segment(&self, offset: u64, want: usize) -> (segment: Segment)
        requires
            self.well_formed(),
            offset < self.disk_size,
            want > 0,
        ensures
            0 < segment.length() <= want,
            offset + segment.length() <= self.disk_size,
            forall|i: int|
                0 <= i < segment.length() ==> #[trigger] self.place(offset + i) == segment.place(i),
            segment.length() < want ==> offset + segment.length() == self.disk_size || (offset
                + segment.length()) % self.block_size as int == 0,
    {
        let block: u64 = offset / self.block_size;
        let in_block: u64 = offset % self.block_size;
        let mut len: u64 = self.block_size - in_block;
        if want as u64 <= len {
            len = want as u64;
        }
        if self.disk_size - offset < len {
            len = self.disk_size - offset;
        }
        let ghost size = self.block_size as int;
        proof {
            vstd::arithmetic::div_mod::lemma_fundamental_div_mod(offset as int, size);
            assert(size * block == block * size) by (nonlinear_arith);
            assert forall|i: int| 0 <= i < len implies #[trigger] self.place(offset + i) == (
            match self.place(offset as int) {
                Some(p) => Some(p + i),
                None => None,
            }) by {
                lemma_fundamental_div_mod_converse(offset + i, size, block as int, in_block + i);
            }
            if len == self.block_size - in_block {
                assert(offset + len == (block + 1) * size) by (nonlinear_arith)
                    requires
                        offset == size * block + in_block,
                        len == size - in_block,
                ;
                lemma_fundamental_div_mod_converse(offset + len, size, block + 1, 0);
            }
        }
        if block >= self.bat.len() as u64 {
            return Segment::Zeros { len: len as usize };
        }
        let entry: u32 = self.bat[block as usize];
        if entry == VDI_BLOCK_FREE || entry == VDI_BLOCK_ZERO {
            return Segment::Zeros { len: len as usize };
        }
        assert(entry * self.block_size <= 4_294_967_293 * 4_294_967_295) by (nonlinear_arith)
            requires
                entry <= 4_294_967_293,
                self.block_size <= 4_294_967_295,
        ;
        assert(0 <= entry * self.block_size) by (nonlinear_arith);
        let start: u64 = self.offset_data + entry as u64 * self.block_size + in_block;
        Segment::Stored { offset: start, len: len as usize }
    }

    /// Reads at most `len` logical bytes at `offset` of the image stored in
    /// `file`. Reading stops at the end of the disk.
    pub fn read_at(&self, file: &[u8], offset: u64, len: usize) -> (data: Result<
        Vec<u8>,
        ShortFile,
    >)
        requires
            self.well_formed(),
        ensures
            ({
                let end = self.read_end(offset as int, len as int);
                match data {
                    Ok(data) => self.covered(file@, offset as int, end) && data@ == self.contents(
                        file@,
                        offset as int,
                        end,
                    ),
                    Err(_) => !self.covered(file@, offset as int, end),
                }
            }),
            data matches Ok(data) ==> forall|k: int|
                0 <= k < data@.len() ==> {
                    let block = (offset + k) / self.block_size as int;
                    #[trigger] data@[k] == (if block < self.bat@.len() && self.bat@[block]
                        < 0xFFFF_FFFE {
                        file@[self.offset_data + self.bat@[block] * self.block_size + (offset + k)
                            % self.block_size as int]
                    } else {
                        0u8
                    })
                },
    {
        let mut out: Vec<u8> = Vec::new();
        let ghost end = self.read_end(offset as int, len as int);
        let mut at: u64 = offset;
        let mut left: usize = len;
        while left > 0 && at < self.disk_size
            invariant
                self.well_formed(),
                end == self.read_end(offset as int, len as int),
                offset <= at,
                at - offset + left == len,
                at <= end || at == offset,
                self.covered(file@, offset as int, at as int),
                out@ == self.contents(file@, offset as int, at as int),
            decreases left,
        {
            let segment = self.segment(at, left);
            let ghost before = at as int;
            match segment {
                Segment::Zeros { len: run } => {
                    push_zeros(&mut out, run);
                    at = at + run as u64;
                    left = left - run;
                },
                Segment::Stored { offset: start, len: run } => {
                    if start > file.len() as u64 || file.len() as u64 - start < run as u64 {
                        proof {
                            let bad: int = if start >= file@.len() {
                                0
                            } else {
                                file@.len() - start
                            };
                            assert(self.place(before + bad) == segment.place(bad));
                        }
                        return Err(ShortFile);
                    }
                    push_range(&mut out, file, start as usize, start as usize + run);
                    at = at + run as u64;
                    left = left - run;
                },
            }
            proof {
                assert forall|o: int| offset <= o < at implies match #[trigger] self.place(o) {
                    Some(p) => p < file@.len(),
                    None => true,
                } by {
                    if o >= before {
                        let i = o - before;
                        assert(self.place(before + i) == segment.place(i));
                    }
                }
                assert(out@ =~= self.contents(file@, offset as int, at as int)) by {
                    assert forall|k: int| 0 <= k < out@.len() implies out@[k] == self.contents(
                        file@,
                        offset as int,
                        at as int,
                    )[k] by {
                        if k >= before - offset {
                            let i = k - (before - offset);
                            assert(self.place(before + i) == segment.place(i));
                        }
                    }
                }
            }
        }
        Ok(out)
    }
}

/// Every byte of a block that the map marks as free or as known zeros reads as
/// zero, whatever the file holds.
pub proof fn law_unallocated_blocks_read_as_zeros(
    source: VdiSource,
    file: Seq<u8>,
    block: int,
    from: int,
    to: int,
)
    requires
        source.well_formed(),
        0 <= block,
        block >= source.bat@.len() || source.bat@[block] == VDI_BLOCK_FREE || source.bat@[block]
            == VDI_BLOCK_ZERO,
        block * source.block_size <= from <= to <= (block + 1) * source.block_size,
    ensures
        source.covered(file, from, to),
        source.contents(file, from, to) == zeros((to - from) as nat),
{
    let size = source.block_size as int;
    assert forall|o: int| from <= o < to implies #[trigger] source.place(o) is None by {
        assert((block + 1) * size == block * size + size) by (nonlinear_arith);
        lemma_fundamental_div_mod_converse(o, size, block, o - block * size);
    }
    assert(source.contents(file, from, to) =~= zeros((to - from) as nat));
}

/// A read cut in two gives the same bytes as the read in one go, and succeeds
/// exactly when both parts do.
pub proof fn law_reads_compose(
    source: VdiSource,
    file: Seq<u8>,
    from: int,
    middle: int,
    to: int,
)
    requires
        from <= middle <= to,
    ensures
        source.contents(file, from, to) == source.contents(file, from, middle) + source.contents(
            file,
            middle,
            to,
        ),
        source.covered(file, from, to) <==> source.covered(file, from, middle) && source.covered(
            file,
            middle,
            to,
        ),
{
    assert(source.contents(file, from, to) =~= source.contents(file, from, middle)
        + source.contents(file, middle, to)) by {
        assert forall|k: int| 0 <= k < to - from implies source.contents(file, from, to)[k] == (
        source.contents(file, from, middle) + source.contents(file, middle, to))[k] by {
            if k >= middle - from {
                assert(from + k == middle + (k - (middle - from)));
            }
        }
    }
}

/// An image that is accepted has a usable geometry, and its block map fits the
/// documented limit.
pub proof fn law_accepted_headers_are_usable(buf: Seq<u8>)
    ensures
        vdi_header(buf) matches Ok(h) ==> {
            &&& has_vdi_signature(buf)
            &&& h.image_type == VDI_TYPE_DYNAMIC || h.image_type == VDI_TYPE_FIXED
            &&& h.block_size > 0
            &&& 0 < h.blocks_in_hdd <= VDI_MAX_BLOCKS
            &&& h.block_extra == 0
        },
{
}

/// The bytes of an allocated block are those of the file at the place that the map
/// gives to it: the data area begins at `offset_data`, and the block map counts its
/// blocks from there. A read inside the block succeeds exactly when the file reaches
/// that far.
pub proof fn law_allocated_blocks_are_read_where_they_lie(
    source: VdiSource,
    file: Seq<u8>,
    block: int,
    from: int,
    to: int,
)
    requires
        source.well_formed(),
        0 <= block < source.bat@.len(),
        source.bat@[block] < 0xFFFF_FFFE,
        block * source.block_size <= from < to <= (block + 1) * source.block_size,
    ensures
        ({
            let start = source.offset_data + source.bat@[block] * source.block_size + (from - block
                * source.block_size);
            &&& source.covered(file, from, to) <==> start + (to - from) <= file.len()
            &&& start + (to - from) <= file.len() ==> source.contents(file, from, to)
                == file.subrange(start, start + (to - from))
        }),
{
    let size = source.block_size as int;
    let start = source.offset_data + source.bat@[block] * source.block_size + (from - block
        * source.block_size);
    assert(0 <= source.bat@[block] * source.block_size) by (nonlinear_arith);
    assert forall|o: int| from <= o < to implies #[trigger] source.place(o) == Some(
        start + (o - from),
    ) by {
        assert((block + 1) * size == block * size + size) by (nonlinear_arith);
        lemma_fundamental_div_mod_converse(o, size, block, o - block * size);
    }
    if start + (to - from) <= file.len() {
        assert(source.contents(file, from, to) =~= file.subrange(start, start + (to - from)));
    } else {
        assert(source.place(to - 1) == Some(start + (to - 1 - from)));
    }
}

/// A read ends at the end of the disk and nowhere before what was asked for.
pub proof fn law_reads_end_with_the_disk(source: VdiSource, offset: int, len: int)
    requires
        0 <= offset,
        0 <= len,
    ensures
        source.read_end(offset, len) - offset == (if offset >= source.disk_size {
            0
        } else if len <= source.disk_size - offset {
            len
        } else {
            source.disk_size - offset
        }),
{
}

/// The fields of a header are little-endian numbers at the places that the format
/// gives to them, and a header without one of the refused fields is accepted.
pub proof fn law_header_fields_lie_where_the_format_puts_them(buf: Seq<u8>)
    ensures
        vdi_header(buf) is Ok <==> {
            &&& buf.len() >= 400
            &&& word_at(buf, 64) == 0xbeda_107f
            &&& word_at(buf, 76) == 1 || word_at(buf, 76) == 2
            &&& word_at(buf, 376) > 0
            &&& 0 < word_at(buf, 384) <= 67_108_864
            &&& word_at(buf, 380) == 0
        },
        vdi_header(buf) matches Ok(h) ==> {
            &&& h.image_type == word_at(buf, 76)
            &&& h.offset_bmap == word_at(buf, 340)
            &&& h.offset_data == word_at(buf, 344)
            &&& h.disk_size == word_at(buf, 368) + 0x1_0000_0000 * word_at(buf, 372)
            &&& h.block_size == word_at(buf, 376)
            &&& h.block_extra == 0
            &&& h.blocks_in_hdd == word_at(buf, 384)
        },
{
    if buf.len() >= 400 {
        law_words_are_little_endian(buf, 64);
        law_words_are_little_endian(buf, 76);
        law_words_are_little_endian(buf, 340);
        law_words_are_little_endian(buf, 344);
        law_words_are_little_endian(buf, 368);
        law_words_are_little_endian(buf, 376);
        law_words_are_little_endian(buf, 380);
        law_words_are_little_endian(buf, 384);
        law_long_words_are_two_words(buf, 368);
    }
}

} // verus!
