//! Translation driver for the Bochs "growing" virtual-disk image layout.
//!
//! The on-disk format is a fixed 512-byte little-endian header, a catalog of
//! `u32` entries mapping each logical extent to its allocation slot (or to
//! the sentinel `0xffff_ffff` for "never allocated"), and, per allocated
//! extent, a per-sector allocation bitmap followed by the extent's data.
//! [`BochsImage::new`] validates the header and loads the catalog;
//! [`BlockDriver::map`] translates one logical range at a time, re-reading
//! one bitmap byte from the backing store per call.

use crate::driver::{
    BdrvChild, BlockDriver, BlockError, GeometryViolation, Mapping, MappingTarget, Request,
};
use crate::iobuffer::{eq_bytes, SizedIoBuffer};
use vstd::arithmetic::div_mod::{
    lemma_breakdown, lemma_div_denominator, lemma_fundamental_div_mod,
    lemma_div_is_ordered, lemma_fundamental_div_mod_converse, lemma_mod_bound, lemma_mod_multiples_basic,
    lemma_multiply_divide_lt,
};
use vstd::arithmetic::power::{lemma_pow_adds, lemma_pow_increases, lemma_pow_positive, pow};
use vstd::arithmetic::power2::{is_pow2, is_pow2_equiv, lemma2_to64, pow2};
use vstd::bytes::{spec_u32_from_le_bytes, spec_u64_from_le_bytes, u32_from_le_bytes};
use vstd::prelude::*;
use vstd::slice::{slice_subrange, slice_to_vec};

verus! {

/// Size in bytes of one sector of the block layer.
pub const BDRV_SECTOR_SIZE: u64 = 512;

/// Size in bytes of the fixed on-disk header.
pub const HEADER_SIZE: u64 = 512;

/// Version tag of the older recognized revision.
pub const HEADER_V1: u32 = 0x00010000;

/// Version tag of the newer recognized revision.
pub const HEADER_VERSION: u32 = 0x00020000;

/// Largest accepted extent size in bytes (8 MiB).
pub const MAX_EXTENT_SIZE: u64 = 0x800000;

/// Largest accepted number of catalog entries; bounds the memory the loaded
/// catalog can take.
pub const MAX_CATALOG_ENTRIES: u64 = 0x100000;

/// Catalog entry value meaning "this logical extent was never allocated".
pub const UNALLOCATED: u32 = 0xffffffff;

/// The 32 magic bytes `"Bochs Virtual HD Image"`, null-padded.
pub open spec fn spec_header_magic() -> Seq<u8> {
    seq![
        'B' as u8, 'o' as u8, 'c' as u8, 'h' as u8, 's' as u8, ' ' as u8, 'V' as u8, 'i' as u8,
        'r' as u8, 't' as u8, 'u' as u8, 'a' as u8, 'l' as u8, ' ' as u8, 'H' as u8, 'D' as u8,
        ' ' as u8, 'I' as u8, 'm' as u8, 'a' as u8, 'g' as u8, 'e' as u8, 0u8, 0u8,
        0u8, 0u8, 0u8, 0u8, 0u8, 0u8, 0u8, 0u8,
    ]
}

/// The 16 image-type bytes `"Redolog"`, null-padded.
pub open spec fn spec_type_redolog() -> Seq<u8> {
    seq![
        'R' as u8, 'e' as u8, 'd' as u8, 'o' as u8, 'l' as u8, 'o' as u8, 'g' as u8, 0u8,
        0u8, 0u8, 0u8, 0u8, 0u8, 0u8, 0u8, 0u8,
    ]
}

/// The 16 subtype bytes `"Growing"`, null-padded.
pub open spec fn spec_subtype_growing() -> Seq<u8> {
    seq![
        'G' as u8, 'r' as u8, 'o' as u8, 'w' as u8, 'i' as u8, 'n' as u8, 'g' as u8, 0u8,
        0u8, 0u8, 0u8, 0u8, 0u8, 0u8, 0u8, 0u8,
    ]
}

/// Builds the magic bytes at run time.
fn header_magic() -> (v: Vec<u8>)
    ensures
        v@ == spec_header_magic(),
{
    let a: [u8; 32] = [
        'B' as u8, 'o' as u8, 'c' as u8, 'h' as u8, 's' as u8, ' ' as u8, 'V' as u8, 'i' as u8,
        'r' as u8, 't' as u8, 'u' as u8, 'a' as u8, 'l' as u8, ' ' as u8, 'H' as u8, 'D' as u8,
        ' ' as u8, 'I' as u8, 'm' as u8, 'a' as u8, 'g' as u8, 'e' as u8, 0u8, 0u8,
        0u8, 0u8, 0u8, 0u8, 0u8, 0u8, 0u8, 0u8,
    ];
    let v = slice_to_vec(a.as_slice());
    proof {
        assert(v@ =~= spec_header_magic());
    }
    v
}

/// Builds the image-type bytes at run time.
fn header_type_redolog() -> (v: Vec<u8>)
    ensures
        v@ == spec_type_redolog(),
{
    let a: [u8; 16] = [
        'R' as u8, 'e' as u8, 'd' as u8, 'o' as u8, 'l' as u8, 'o' as u8, 'g' as u8, 0u8,
        0u8, 0u8, 0u8, 0u8, 0u8, 0u8, 0u8, 0u8,
    ];
    let v = slice_to_vec(a.as_slice());
    proof {
        assert(v@ =~= spec_type_redolog());
    }
    v
}

/// Builds the subtype bytes at run time.
fn header_subtype_growing() -> (v: Vec<u8>)
    ensures
        v@ == spec_subtype_growing(),
{
    let a: [u8; 16] = [
        'G' as u8, 'r' as u8, 'o' as u8, 'w' as u8, 'i' as u8, 'n' as u8, 'g' as u8, 0u8,
        0u8, 0u8, 0u8, 0u8, 0u8, 0u8, 0u8, 0u8,
    ];
    let v = slice_to_vec(a.as_slice());
    proof {
        assert(v@ =~= spec_subtype_growing());
    }
    v
}

/// Rounds `a` up to the next multiple of `b` and divides, i.e. computes
/// the ceiling of `a / b`.
pub fn div_ceil(a: u64, b: u64) -> (r: u64)
    requires
        b > 0,
        a + b <= u64::MAX,
    ensures
        r == (a + b - 1) / (b as int),
        r * b >= a,
        a > 0 ==> (r - 1) * b < a,
{
    let r = (a + b - 1) / b;
    proof {
        lemma_fundamental_div_mod((a + b - 1) as int, b as int);
        lemma_mod_bound((a + b - 1) as int, b as int);
        assert((r - 1) * b == r * b - b && r * b == b * r) by (nonlinear_arith);
    }
    r
}

/// Decides whether `x` is a power of two.
fn is_power_of_two(x: u64) -> (r: bool)
    ensures
        r == is_pow2(x as int),
    decreases x,
{
    proof {
        reveal(is_pow2);
    }
    if x == 0 {
        false
    } else if x == 1 {
        true
    } else if x % 2 == 1 {
        false
    } else {
        is_power_of_two(x / 2)
    }
}

/// The little-endian `u32` stored at byte offset `i` of `s`.
pub open spec fn le32_at(s: Seq<u8>, i: int) -> u32 {
    spec_u32_from_le_bytes(s.subrange(i, i + 4))
}

/// The little-endian `u64` stored at byte offset `i` of `s`.
pub open spec fn le64_at(s: Seq<u8>, i: int) -> u64 {
    spec_u64_from_le_bytes(s.subrange(i, i + 8))
}

/// The fixed on-disk header of a Bochs image, decoded to host values.
///
/// Byte layout: magic at 0, image-type tag at 32, subtype tag at 48, then
/// five little-endian `u32` fields at 64, 68, 72, 76 and 80, then the
/// version-dependent trailer at 84 ([`BochsHeaderExtra`]).
pub struct BochsHeader {
    /// The 32 magic bytes.
    pub magic: Vec<u8>,
    /// The 16 image-type tag bytes.
    pub imgtype: Vec<u8>,
    /// The 16 subtype tag bytes.
    pub subtype: Vec<u8>,
    /// Format version tag.
    pub version: u32,
    /// Byte offset at which the catalog begins.
    pub header_size: u32,
    /// Number of catalog entries.
    pub catalog_entries: u32,
    /// Size in bytes of one extent's allocation bitmap.
    pub bitmap_size: u32,
    /// Size in bytes of one extent.
    pub extent_size: u32,
    /// The version-dependent trailer.
    pub extra: BochsHeaderExtra,
}

/// The version-dependent header trailer, decoded under both layouts.
///
/// The older revision stores the disk size at byte 84 of the header; the
/// newer one stores a creation timestamp at byte 84 and the disk size at
/// byte 88. Which reading applies is decided by the version field.
pub struct BochsHeaderExtra {
    /// Creation timestamp (newer revision reading, byte 84).
    pub timestamp: u32,
    /// Logical disk size (older revision reading, byte 84).
    pub v1_disk_size: u64,
    /// Logical disk size (newer revision reading, byte 88).
    pub v2_disk_size: u64,
}

impl SizedIoBuffer for BochsHeader {
    open spec fn spec_size() -> nat {
        HEADER_SIZE as nat
    }

    open spec fn parsed_from(&self, bytes: Seq<u8>) -> bool {
        &&& self.magic@ == bytes.subrange(0, 32)
        &&& self.imgtype@ == bytes.subrange(32, 48)
        &&& self.subtype@ == bytes.subrange(48, 64)
        &&& self.version == le32_at(bytes, 64)
        &&& self.header_size == le32_at(bytes, 68)
        &&& self.catalog_entries == le32_at(bytes, 72)
        &&& self.bitmap_size == le32_at(bytes, 76)
        &&& self.extent_size == le32_at(bytes, 80)
        &&& self.extra.timestamp == le32_at(bytes, 84)
        &&& self.extra.v1_disk_size == le64_at(bytes, 84)
        &&& self.extra.v2_disk_size == le64_at(bytes, 88)
    }

    fn byte_size() -> usize {
        HEADER_SIZE as usize
    }

    fn from_byte_slice(buf: &[u8]) -> (r: Option<BochsHeader>) {
        if buf.len() < 512 {
            return None;
        }
        let ghost pre = buf@.take(512);
        let header = BochsHeader {
            magic: slice_to_vec(slice_subrange(buf, 0, 32)),
            imgtype: slice_to_vec(slice_subrange(buf, 32, 48)),
            subtype: slice_to_vec(slice_subrange(buf, 48, 64)),
            version: u32_from_le_bytes(slice_subrange(buf, 64, 68)),
            header_size: u32_from_le_bytes(slice_subrange(buf, 68, 72)),
            catalog_entries: u32_from_le_bytes(slice_subrange(buf, 72, 76)),
            bitmap_size: u32_from_le_bytes(slice_subrange(buf, 76, 80)),
            extent_size: u32_from_le_bytes(slice_subrange(buf, 80, 84)),
            extra: BochsHeaderExtra {
                timestamp: u32_from_le_bytes(slice_subrange(buf, 84, 88)),
                v1_disk_size: vstd::bytes::u64_from_le_bytes(slice_subrange(buf, 84, 92)),
                v2_disk_size: vstd::bytes::u64_from_le_bytes(slice_subrange(buf, 88, 96)),
            },
        };
        proof {
            assert(buf@.subrange(0, 32) =~= pre.subrange(0, 32));
            assert(buf@.subrange(32, 48) =~= pre.subrange(32, 48));
            assert(buf@.subrange(48, 64) =~= pre.subrange(48, 64));
            assert(buf@.subrange(64, 68) =~= pre.subrange(64, 68));
            assert(buf@.subrange(68, 72) =~= pre.subrange(68, 72));
            assert(buf@.subrange(72, 76) =~= pre.subrange(72, 76));
            assert(buf@.subrange(76, 80) =~= pre.subrange(76, 80));
            assert(buf@.subrange(80, 84) =~= pre.subrange(80, 84));
            assert(buf@.subrange(84, 88) =~= pre.subrange(84, 88));
            assert(buf@.subrange(84, 92) =~= pre.subrange(84, 92));
            assert(buf@.subrange(88, 96) =~= pre.subrange(88, 96));
        }
        Some(header)
    }
}

/// Whether the magic and the two tags of a candidate image match the format.
pub open spec fn spec_tags_ok(s: Seq<u8>) -> bool {
    &&& s.subrange(0, 32) == spec_header_magic()
    &&& s.subrange(32, 48) == spec_type_redolog()
    &&& s.subrange(48, 64) == spec_subtype_growing()
}

/// The format version a candidate image declares.
pub open spec fn spec_version(s: Seq<u8>) -> u32 {
    le32_at(s, 64)
}

/// The byte offset at which a candidate image's catalog begins.
pub open spec fn spec_header_size(s: Seq<u8>) -> u32 {
    le32_at(s, 68)
}

/// The number of catalog entries a candidate image declares.
pub open spec fn spec_catalog_entries(s: Seq<u8>) -> u32 {
    le32_at(s, 72)
}

/// The allocation-bitmap size in bytes a candidate image declares.
pub open spec fn spec_bitmap_size(s: Seq<u8>) -> u32 {
    le32_at(s, 76)
}

/// The extent size in bytes a candidate image declares.
pub open spec fn spec_extent_size(s: Seq<u8>) -> u32 {
    le32_at(s, 80)
}

/// The logical disk size a candidate image declares, read from the trailer
/// field of the declared version.
pub open spec fn spec_disk_size(s: Seq<u8>) -> u64 {
    if spec_version(s) == HEADER_VERSION {
        le64_at(s, 88)
    } else {
        le64_at(s, 84)
    }
}

/// The catalog a candidate image stores: `spec_catalog_entries(s)` entries
/// of little-endian `u32`, starting at the declared header size.
pub open spec fn spec_catalog(s: Seq<u8>) -> Seq<u32> {
    Seq::new(
        spec_catalog_entries(s) as nat,
        |i: int| le32_at(s, spec_header_size(s) + 4 * i),
    )
}

/// The first validation rule that a candidate image breaks at open time, if
/// any, in the order the rules are checked: header present, tags, version,
/// extent geometry, catalog bounds, catalog present.
pub open spec fn spec_open_error(s: Seq<u8>) -> Option<BlockError> {
    if s.len() < 512 {
        Some(BlockError::BackingIoError)
    } else if !spec_tags_ok(s) {
        Some(BlockError::FormatMismatch)
    } else if spec_version(s) != HEADER_VERSION && spec_version(s) != HEADER_V1 {
        Some(BlockError::UnsupportedVersion)
    } else if spec_extent_size(s) < 512 {
        Some(BlockError::InvalidGeometry(GeometryViolation::ExtentTooSmall))
    } else if !is_pow2(spec_extent_size(s) as int) {
        Some(BlockError::InvalidGeometry(GeometryViolation::ExtentNotPowerOfTwo))
    } else if spec_extent_size(s) > MAX_EXTENT_SIZE {
        Some(BlockError::InvalidGeometry(GeometryViolation::ExtentTooLarge))
    } else if spec_catalog_entries(s) > MAX_CATALOG_ENTRIES {
        Some(BlockError::CatalogTooLarge)
    } else if spec_catalog_entries(s) * spec_extent_size(s) < spec_disk_size(s) {
        Some(BlockError::CatalogTooSmall)
    } else if spec_header_size(s) + 4 * spec_catalog_entries(s) > s.len() {
        Some(BlockError::BackingIoError)
    } else {
        None
    }
}

/// A power of two that is at least one sector is a whole number of sectors.
proof fn lemma_pow2_multiple_of_sector(s: int)
    requires
        is_pow2(s),
        s >= 512,
    ensures
        s % 512 == 0,
{
    is_pow2_equiv(s);
    let i = choose|i: nat| pow(2, i) == s;
    lemma2_to64();
    lemma_pow_positive(2, 8);
    lemma_pow_positive(2, 9);
    if i < 9 {
        lemma_pow_increases(2, i, 8);
        assert(pow(2, 8) == pow2(8));
        assert(false);
    }
    lemma_pow_positive(2, (i - 9) as nat);
    lemma_pow_adds(2, 9, (i - 9) as nat);
    assert(pow(2, 9) == pow2(9));
    lemma_mod_multiples_basic(pow(2, (i - 9) as nat), 512);
    assert(512 * pow(2, (i - 9) as nat) == pow(2, (i - 9) as nat) * 512) by (nonlinear_arith);
}

/// A validated, immutable Bochs "growing" image attached to a backing store.
pub struct BochsImage {
    /// The backing store child node holding the image file's bytes.
    pub file: BdrvChild,
    /// Logical disk size in bytes, from the header trailer.
    pub size: u64,
    /// Physical byte offset of the first allocation slot: header size plus
    /// catalog byte length.
    pub data_offset: u64,
    /// Sectors one extent's allocation bitmap occupies.
    pub bitmap_blocks: u64,
    /// Bytes per extent.
    pub extent_size: u64,
    /// Sectors per extent.
    pub extent_blocks: u64,
    /// The catalog: one entry per logical extent, the index of the extent's
    /// allocation slot or [`UNALLOCATED`].
    pub catalog_bitmap: Vec<u32>,
}

impl BochsImage {
    /// The extent that logical byte `o` belongs to.
    pub open spec fn spec_extent_index(&self, o: int) -> int {
        o / (self.extent_size as int)
    }

    /// Whether the extent of logical byte `o` was never allocated.
    pub open spec fn spec_extent_unallocated(&self, o: int) -> bool {
        self.catalog_bitmap@[self.spec_extent_index(o)] == UNALLOCATED
    }

    /// First physical byte of the allocation slot (bitmap, then data) that
    /// holds the extent of logical byte `o`.
    pub open spec fn spec_extent_base(&self, o: int) -> int {
        self.data_offset + 512 * (self.catalog_bitmap@[self.spec_extent_index(o)] as int) * (
        self.extent_blocks + self.bitmap_blocks)
    }

    /// The sector of logical byte `o` within its extent.
    pub open spec fn spec_extent_sector(&self, o: int) -> int {
        (o % (self.extent_size as int)) / 512
    }

    /// Physical address of the allocation-bitmap byte covering the sector of
    /// logical byte `o`.
    pub open spec fn spec_bitmap_byte_addr(&self, o: int) -> int {
        self.spec_extent_base(o) + self.spec_extent_sector(o) / 8
    }

    /// Whether the allocation bit of the sector of logical byte `o` is set,
    /// read from the backing store.
    pub open spec fn spec_sector_bit_set(&self, o: int) -> bool {
        (self.store()[self.spec_bitmap_byte_addr(o)] >> ((self.spec_extent_sector(o) % 8) as u8))
            & 1 == 1
    }

    /// Physical address of the data of logical byte `o`.
    pub open spec fn spec_data_byte_addr(&self, o: int) -> int {
        self.spec_extent_base(o) + 512 * (self.bitmap_blocks + self.spec_extent_sector(o)) + o
            % 512
    }

    /// The exact translation decision of [`BlockDriver::map`] on this image
    /// for a read request of `l` bytes at logical offset `o`: the whole
    /// extent as unmapped when the extent was never allocated; otherwise one
    /// sector, clipped to the request, unmapped or pointing at its data
    /// according to the sector's allocation bit; a backing I/O error when
    /// the bitmap byte lies outside the backing store or a physical address
    /// overflows.
    pub open spec fn spec_map(&self, o: int, l: int) -> Result<Mapping, BlockError> {
        let e = self.spec_extent_index(o);
        if self.spec_extent_unallocated(o) {
            Ok(
                Mapping {
                    offset: (e * self.extent_size) as u64,
                    len: self.extent_size,
                    target: MappingTarget::Unmapped,
                },
            )
        } else if self.spec_bitmap_byte_addr(o) >= self.store().len() {
            Err(BlockError::BackingIoError)
        } else {
            let m_offset = (o - o % 512) as u64;
            let m_len = (if l < 512 {
                l
            } else {
                512
            }) as u64;
            if !self.spec_sector_bit_set(o) {
                Ok(Mapping { offset: m_offset, len: m_len, target: MappingTarget::Unmapped })
            } else if self.spec_extent_base(o) + 512 * (self.bitmap_blocks
                + self.spec_extent_sector(o)) > u64::MAX {
                Err(BlockError::BackingIoError)
            } else {
                Ok(
                    Mapping {
                        offset: m_offset,
                        len: m_len,
                        target: MappingTarget::Data {
                            node: (),
                            offset: (self.spec_extent_base(o) + 512 * (self.bitmap_blocks
                                + self.spec_extent_sector(o))) as u64,
                        },
                    },
                )
            }
        }
    }

    /// Decomposes the extent translation of logical byte `o` through its
    /// global sector number: with `k` sectors per extent, byte `o` lies in
    /// sector `(o / 512) % k` of extent `(o / 512) / k`.
    proof fn lemma_offset_decomposition(&self, o: int)
        requires
            self.wf(),
            o >= 0,
        ensures
            self.spec_extent_index(o) == (o / 512) / (self.extent_blocks as int),
            self.spec_extent_sector(o) == (o / 512) % (self.extent_blocks as int),
    {
        let k = self.extent_blocks as int;
        let se = self.extent_size as int;
        lemma_fundamental_div_mod(se, 512);
        assert(se == 512 * k);
        lemma_div_denominator(o, 512, k);
        lemma_breakdown(o, 512, k);
        lemma_mod_bound(o, 512);
        lemma_fundamental_div_mod_converse(o % se, 512, (o / 512) % k, o % 512);
    }

    /// Two logical bytes with the same global sector number share their
    /// extent and their sector within the extent.
    proof fn lemma_same_sector(&self, o: int, i: int)
        requires
            self.wf(),
            o >= 0,
            i >= 0,
            i / 512 == o / 512,
        ensures
            self.spec_extent_index(i) == self.spec_extent_index(o),
            self.spec_extent_sector(i) == self.spec_extent_sector(o),
    {
        self.lemma_offset_decomposition(o);
        self.lemma_offset_decomposition(i);
    }
}

impl BochsImage {
    /// Opens an image attached to the backing store `file`: reads and
    /// validates the header, loads the catalog, and computes the derived
    /// geometry. Construction fails fast on the first broken validation rule
    /// ([`spec_open_error`]); there is no partially open image.
    pub fn new(file: BdrvChild) -> (r: Result<BochsImage, BlockError>)
        ensures
            match r {
                Ok(img) => {
                    &&& spec_open_error(file@) is None
                    &&& img.wf()
                    &&& img.store() == file@
                    &&& img.size == spec_disk_size(file@)
                    &&& img.extent_size == spec_extent_size(file@)
                    &&& img.extent_blocks == spec_extent_size(file@) as int / 512
                    &&& img.bitmap_blocks == (spec_bitmap_size(file@) + 511) as int / 512
                    &&& img.data_offset == spec_header_size(file@) + 4 * spec_catalog_entries(
                        file@,
                    )
                    &&& img.catalog_bitmap@ == spec_catalog(file@)
                },
                Err(e) => spec_open_error(file@) == Some(e),
            },
    {
        let ghost s = file@;
        let header = match file.read_uninit::<BochsHeader>(0) {
            Ok(h) => h,
            Err(e) => {
                return Err(e);
            },
        };
        let ghost h512 = s.subrange(0, 512);
        proof {
            assert(h512.subrange(0, 32) =~= s.subrange(0, 32));
            assert(h512.subrange(32, 48) =~= s.subrange(32, 48));
            assert(h512.subrange(48, 64) =~= s.subrange(48, 64));
            assert(h512.subrange(64, 68) =~= s.subrange(64, 68));
            assert(h512.subrange(68, 72) =~= s.subrange(68, 72));
            assert(h512.subrange(72, 76) =~= s.subrange(72, 76));
            assert(h512.subrange(76, 80) =~= s.subrange(76, 80));
            assert(h512.subrange(80, 84) =~= s.subrange(80, 84));
            assert(h512.subrange(84, 92) =~= s.subrange(84, 92));
            assert(h512.subrange(88, 96) =~= s.subrange(88, 96));
        }
        let magic = header_magic();
        let redolog = header_type_redolog();
        let growing = header_subtype_growing();
        if !eq_bytes(header.magic.as_slice(), magic.as_slice()) || !eq_bytes(
            header.imgtype.as_slice(),
            redolog.as_slice(),
        ) || !eq_bytes(header.subtype.as_slice(), growing.as_slice()) {
            return Err(BlockError::FormatMismatch);
        }
        let size: u64;
        if header.version == HEADER_VERSION {
            size = header.extra.v2_disk_size;
        } else if header.version == HEADER_V1 {
            size = header.extra.v1_disk_size;
        } else {
            return Err(BlockError::UnsupportedVersion);
        }
        let extent_size: u64 = header.extent_size as u64;
        if extent_size < BDRV_SECTOR_SIZE {
            // bximage actually never creates extents smaller than 4k
            return Err(BlockError::InvalidGeometry(GeometryViolation::ExtentTooSmall));
        } else if !is_power_of_two(extent_size) {
            return Err(BlockError::InvalidGeometry(GeometryViolation::ExtentNotPowerOfTwo));
        } else if extent_size > MAX_EXTENT_SIZE {
            return Err(BlockError::InvalidGeometry(GeometryViolation::ExtentTooLarge));
        }
        // The entry cap bounds the catalog allocation; the lower bound makes
        // sure the catalog can address the whole declared disk size.
        let catalog_entries: u64 = header.catalog_entries as u64;
        if catalog_entries > MAX_CATALOG_ENTRIES {
            return Err(BlockError::CatalogTooLarge);
        }
        proof {
            assert(catalog_entries * extent_size <= 0x100000 * 0x800000) by (nonlinear_arith)
                requires
                    catalog_entries <= 0x100000,
                    extent_size <= 0x800000,
            ;
        }
        if catalog_entries * extent_size < size {
            return Err(BlockError::CatalogTooSmall);
        }
        let header_size: u64 = header.header_size as u64;
        let raw = match file.read(header_size, catalog_entries * 4) {
            Ok(v) => v,
            Err(e) => {
                return Err(e);
            },
        };
        let count = catalog_entries as usize;
        let mut catalog_bitmap: Vec<u32> = Vec::new();
        let mut i: usize = 0;
        while i < count
            invariant
                count == spec_catalog_entries(s),
                count <= 0x100000,
                raw@ == s.subrange(
                    spec_header_size(s) as int,
                    spec_header_size(s) + 4 * count,
                ),
                raw@.len() == 4 * count,
                spec_header_size(s) + 4 * count <= s.len(),
                i <= count,
                catalog_bitmap@.len() == i,
                forall|j: int|
                    0 <= j < i ==> catalog_bitmap@[j] == le32_at(
                        s,
                        spec_header_size(s) + 4 * j,
                    ),
            decreases count - i,
        {
            let entry = u32_from_le_bytes(slice_subrange(raw.as_slice(), 4 * i, 4 * i + 4));
            proof {
                assert(raw@.subrange(4 * i, 4 * i + 4) =~= s.subrange(
                    spec_header_size(s) + 4 * i,
                    spec_header_size(s) + 4 * i + 4,
                ));
            }
            catalog_bitmap.push(entry);
            i = i + 1;
        }
        proof {
            assert(catalog_bitmap@ =~= spec_catalog(s));
        }
        let data_offset = header_size + catalog_entries * 4;
        let bitmap_blocks = div_ceil(header.bitmap_size as u64, BDRV_SECTOR_SIZE);
        let extent_blocks = 1 + (extent_size - 1) / BDRV_SECTOR_SIZE;
        proof {
            lemma_pow2_multiple_of_sector(extent_size as int);
            lemma_fundamental_div_mod(extent_size as int, 512);
            lemma_fundamental_div_mod_converse(
                extent_size - 1,
                512,
                extent_size as int / 512 - 1,
                511,
            );
            lemma_div_is_ordered(
                header.bitmap_size + 511,
                0xffffffffu32 + 511,
                512,
            );
        }
        Ok(
            BochsImage {
                file,
                size,
                data_offset,
                bitmap_blocks,
                extent_size,
                extent_blocks,
                catalog_bitmap,
            },
        )
    }
}

impl BlockDriver for BochsImage {
    /// The open-time invariant: field ranges and relations that
    /// [`BochsImage::new`] establishes and nothing ever changes.
    open spec fn wf(&self) -> bool {
        &&& 512 <= self.extent_size <= MAX_EXTENT_SIZE
        &&& self.extent_size % 512 == 0
        &&& self.extent_blocks == self.extent_size / 512
        &&& self.bitmap_blocks <= 0x800000
        &&& self.catalog_bitmap@.len() <= MAX_CATALOG_ENTRIES
        &&& self.size <= self.catalog_bitmap@.len() * self.extent_size
    }

    open spec fn store(&self) -> Seq<u8> {
        self.file@
    }

    open spec fn spec_size(&self) -> u64 {
        self.size
    }

    /// A logical byte is readable when its extent was never allocated (it
    /// reads as zero without touching the backing store), or when its bitmap
    /// byte lies in the backing store and either clears the sector's bit or
    /// the byte's data address lies in the backing store as well.
    open spec fn byte_readable(&self, o: int) -> bool {
        if self.spec_extent_unallocated(o) {
            true
        } else if self.spec_bitmap_byte_addr(o) >= self.store().len() {
            false
        } else if !self.spec_sector_bit_set(o) {
            true
        } else {
            self.spec_data_byte_addr(o) < self.store().len()
        }
    }

    /// The value of logical byte `o`: zero for an unallocated extent or a
    /// cleared sector bit, otherwise the byte at its data address.
    open spec fn disk_byte(&self, o: int) -> u8 {
        if self.spec_extent_unallocated(o) {
            0
        } else if !self.spec_sector_bit_set(o) {
            0
        } else {
            self.store()[self.spec_data_byte_addr(o)]
        }
    }

    /// The driver answers requests that start on a sector boundary; an
    /// unaligned start is accepted when at least one whole sector remains,
    /// so that the request realigns after the first mapping.
    open spec fn req_admissible(&self, o: int, l: int) -> bool {
        o % 512 == 0 || l >= 512
    }

    fn size(&self) -> u64 {
        self.size
    }

    fn file(&self) -> &BdrvChild {
        &self.file
    }

    fn map(&self, req: &Request) -> (r: Result<Mapping, BlockError>)
        ensures
            r == self.spec_map(req.spec_offset() as int, req.spec_len() as int),
    {
        let (offset, len) = match *req {
            Request::Read { offset, len } => (offset, len),
        };
        let ghost o = offset as int;
        let ghost l = len as int;
        let ghost se = self.extent_size as int;
        let ghost cat = self.catalog_bitmap@;
        proof {
            self.file.lemma_len_bound();
            lemma_fundamental_div_mod(o, se);
            lemma_mod_bound(o, se);
            assert(cat.len() * se == se * cat.len()) by (nonlinear_arith);
            lemma_multiply_divide_lt(o, se, cat.len() as int);
        }
        let extent_index = offset / self.extent_size;
        let extent_offset = (offset % self.extent_size) / 512;
        let ghost e = self.spec_extent_index(o);
        proof {
            assert(self.spec_extent_sector(o) == extent_offset);
            lemma_mod_bound(o % se, 512int);
            lemma_multiply_divide_lt(o % se, 512int, self.extent_blocks as int);
            assert(512 * (self.extent_blocks as int) == se);
            assert(extent_offset < self.extent_blocks);
        }
        if self.catalog_bitmap[extent_index as usize] == UNALLOCATED {
            proof {
                assert(se * e == e * se) by (nonlinear_arith);
                assert(e * se <= o < e * se + se);
            }
            let m_offset = extent_index * self.extent_size;
            proof {
                let end = vstd::math::min(m_offset + self.extent_size, o + l);
                assert forall|i: int| o <= i < end implies self.byte_readable(i)
                    && self.disk_byte(i) == 0 by {
                    lemma_fundamental_div_mod_converse(i, se, e, i - e * se);
                }
                if end < o + l {
                    let k = self.extent_blocks as int;
                    lemma_fundamental_div_mod(se, 512);
                    assert(e * se + se == 512 * ((e + 1) * k)) by (nonlinear_arith)
                        requires
                            se == 512 * k,
                    ;
                    assert(512 * ((e + 1) * k) == ((e + 1) * k) * 512) by (nonlinear_arith);
                    lemma_mod_multiples_basic((e + 1) * k, 512);
                }
            }
            return Ok(
                Mapping {
                    offset: m_offset,
                    len: self.extent_size,
                    target: MappingTarget::Unmapped,
                },
            );
        }
        let entry = self.catalog_bitmap[extent_index as usize];
        let blocks = self.extent_blocks + self.bitmap_blocks;
        let slot = 512u64 * (entry as u64);
        let ghost base = self.spec_extent_base(o);
        proof {
            assert(base == self.data_offset + (slot as int) * (blocks as int));
        }
        let extent_base = match slot.checked_mul(blocks) {
            Some(p) => match p.checked_add(self.data_offset) {
                Some(eb) => eb,
                None => {
                    proof {
                        assert(self.spec_extent_sector(o) / 8 >= 0);
                        assert(!self.byte_readable(o));
                    }
                    return Err(BlockError::BackingIoError);
                },
            },
            None => {
                proof {
                    assert(self.spec_extent_sector(o) / 8 >= 0);
                    assert(!self.byte_readable(o));
                }
                return Err(BlockError::BackingIoError);
            },
        };
        let bitmap_byte_addr = match extent_base.checked_add(extent_offset / 8) {
            Some(a) => a,
            None => {
                proof {
                    assert(!self.byte_readable(o));
                }
                return Err(BlockError::BackingIoError);
            },
        };
        proof {
            assert(bitmap_byte_addr == self.spec_bitmap_byte_addr(o));
        }
        let bitmap_entry = match self.file.read_uninit::<u8>(bitmap_byte_addr) {
            Ok(b) => b,
            Err(err) => {
                proof {
                    assert(!self.byte_readable(o));
                }
                return Err(err);
            },
        };
        proof {
            assert(bitmap_entry == self.store()[self.spec_bitmap_byte_addr(o)]);
        }
        let m_offset = offset & !511u64;
        proof {
            assert(offset & !511u64 == offset - (offset % 512)) by (bit_vector);
            lemma_fundamental_div_mod(o, 512);
            lemma_mod_bound(o, 512);
            assert(m_offset == 512 * (o / 512));
        }
        let m_len = if len < 512 {
            len
        } else {
            512u64
        };
        let bit_index = (extent_offset % 8) as u8;
        proof {
            let b = bitmap_entry;
            let k = bit_index;
            assert((b >> k) & 1 == 0 || (b >> k) & 1 == 1) by (bit_vector);
        }
        let ghost end = vstd::math::min(m_offset + m_len, o + l);
        proof {
            // The mapping contains the request's first byte: an unaligned
            // start is only admissible with at least a whole sector left.
            assert(m_offset <= o < m_offset + m_len);
            assert(end <= m_offset + 512);
            if end < o + l {
                assert(m_len == 512);
                lemma_fundamental_div_mod_converse(m_offset + 512, 512, o / 512 + 1, 0);
            }
        }
        if (bitmap_entry >> bit_index) & 1 == 0 {
            proof {
                assert(!self.spec_sector_bit_set(o));
                assert forall|i: int| o <= i < end implies self.byte_readable(i)
                    && self.disk_byte(i) == 0 by {
                    lemma_fundamental_div_mod_converse(i, 512, o / 512, i - m_offset);
                    self.lemma_same_sector(o, i);
                }
            }
            return Ok(Mapping { offset: m_offset, len: m_len, target: MappingTarget::Unmapped });
        }
        let target = match extent_base.checked_add(512 * (self.bitmap_blocks + extent_offset)) {
            Some(t) => t,
            None => {
                proof {
                    assert(self.spec_sector_bit_set(o));
                    assert(o % 512 >= 0);
                    assert(!self.byte_readable(o));
                }
                return Err(BlockError::BackingIoError);
            },
        };
        proof {
            assert(self.spec_sector_bit_set(o));
            assert(target == base + 512 * (self.bitmap_blocks + self.spec_extent_sector(o)));
            assert forall|i: int| o <= i < end implies (self.byte_readable(i) <==> target + (i
                - m_offset) < self.store().len()) && (self.byte_readable(i)
                ==> self.disk_byte(i) == self.store()[target + (i - m_offset)]) by {
                lemma_fundamental_div_mod_converse(i, 512, o / 512, i - m_offset);
                self.lemma_same_sector(o, i);
                assert(self.spec_data_byte_addr(i) == target + (i - m_offset));
            }
        }
        Ok(
            Mapping {
                offset: m_offset,
                len: m_len,
                target: MappingTarget::Data { node: (), offset: target },
            },
        )
    }
}

/// The ceiling of `a / b`, as a mathematical value.
pub open spec fn spec_div_ceil(a: int, b: int) -> int {
    (a + b - 1) / b
}

/// An integer below a ceiling quotient stays below the dividend when
/// multiplied back: `c < ceil(a / b)` implies `c * b < a`.
proof fn lemma_below_div_ceil(a: int, b: int, c: int)
    requires
        b > 0,
        0 <= c,
        c < spec_div_ceil(a, b),
    ensures
        c * b < a,
{
    let q = (a + b - 1) / b;
    lemma_fundamental_div_mod(a + b - 1, b);
    lemma_mod_bound(a + b - 1, b);
    assert(c * b <= (q - 1) * b && (q - 1) * b == b * q - b) by (nonlinear_arith)
        requires
            c <= q - 1,
            b > 0,
    ;
}

/// Law: opening a valid image and asking its size yields exactly the
/// trailer-declared disk size, regardless of the revision used.
///
/// An image that [`spec_open_error`] accepts declares one of the two
/// recognized versions, and [`spec_disk_size`] -- which
/// [`BochsImage::new`] stores and [`BlockDriver::size`] reports -- is the
/// 64-bit little-endian field of that version's trailer: at byte 88 of the
/// header for the newer revision, at byte 84 for the older one.
pub proof fn lemma_open_size_matches_trailer(s: Seq<u8>)
    requires
        spec_open_error(s) is None,
    ensures
        spec_version(s) == HEADER_VERSION || spec_version(s) == HEADER_V1,
        spec_version(s) == HEADER_VERSION ==> spec_disk_size(s) == le64_at(s, 88),
        spec_version(s) == HEADER_V1 ==> spec_disk_size(s) == le64_at(s, 84),
{
}

/// Law: a header that breaks any single validation rule is rejected at open
/// time; [`BochsImage::new`] produces no image for it.
///
/// The rules: the magic and the two tags must match, the version must be
/// recognized, the extent size must be a power of two between one sector
/// and [`MAX_EXTENT_SIZE`], the catalog may not exceed
/// [`MAX_CATALOG_ENTRIES`] entries, and it must hold at least
/// `ceil(disk_size / extent_size)` of them.
pub proof fn lemma_invalid_header_rejected(s: Seq<u8>)
    requires
        ({
            ||| !spec_tags_ok(s)
            ||| spec_version(s) != HEADER_VERSION && spec_version(s) != HEADER_V1
            ||| spec_extent_size(s) < 512
            ||| !is_pow2(spec_extent_size(s) as int)
            ||| spec_extent_size(s) > MAX_EXTENT_SIZE
            ||| spec_catalog_entries(s) > MAX_CATALOG_ENTRIES
            ||| spec_extent_size(s) >= 512 && (spec_catalog_entries(s) as int) < spec_div_ceil(
                spec_disk_size(s) as int,
                spec_extent_size(s) as int,
            )
        }),
    ensures
        spec_open_error(s) is Some,
{
    if spec_open_error(s) is None {
        assert(spec_extent_size(s) >= 512);
        lemma_below_div_ceil(
            spec_disk_size(s) as int,
            spec_extent_size(s) as int,
            spec_catalog_entries(s) as int,
        );
    }
}

/// Law: inside a never-allocated extent (catalog entry [`UNALLOCATED`])
/// every logical byte reads as zero without consulting the backing store,
/// and a read request there maps to an unmapped run covering the full
/// extent.
pub proof fn lemma_unallocated_extent_reads_zero(img: BochsImage, o: int, l: int)
    requires
        img.wf(),
        0 <= o,
        0 < l,
        o + l <= img.size,
        img.spec_extent_unallocated(o),
    ensures
        img.byte_readable(o),
        img.disk_byte(o) == 0,
        img.spec_map(o, l) == Ok::<Mapping, BlockError>(
            Mapping {
                offset: (img.spec_extent_index(o) * img.extent_size) as u64,
                len: img.extent_size,
                target: MappingTarget::Unmapped,
            },
        ),
{
}

/// Law: in an allocated extent, a sector whose allocation-bitmap bit is
/// clear reads as zero, and a read request there maps to an unmapped run:
/// resolving it touches only the bitmap byte, no data address.
pub proof fn lemma_clear_bit_reads_zero(img: BochsImage, o: int, l: int)
    requires
        img.wf(),
        0 <= o,
        0 < l,
        o + l <= img.size,
        !img.spec_extent_unallocated(o),
        img.spec_bitmap_byte_addr(o) < img.store().len(),
        !img.spec_sector_bit_set(o),
    ensures
        img.byte_readable(o),
        img.disk_byte(o) == 0,
        img.spec_map(o, l) == Ok::<Mapping, BlockError>(
            Mapping {
                offset: (o - o % 512) as u64,
                len: (if l < 512 {
                    l
                } else {
                    512
                }) as u64,
                target: MappingTarget::Unmapped,
            },
        ),
{
}

/// Law: in an allocated extent, a sector whose allocation-bitmap bit is set
/// reads the backing store byte at
/// `extent_base + 512 * (bitmap_blocks + sector) + offset_in_sector`, and a
/// read request there maps to the data at that sector's base: a byte
/// pattern stored there round-trips unchanged through the translation.
pub proof fn lemma_set_bit_reads_data(img: BochsImage, o: int, l: int)
    requires
        img.wf(),
        0 <= o,
        0 < l,
        o + l <= img.size,
        !img.spec_extent_unallocated(o),
        img.spec_bitmap_byte_addr(o) < img.store().len(),
        img.spec_sector_bit_set(o),
        img.spec_data_byte_addr(o) < img.store().len(),
    ensures
        img.byte_readable(o),
        img.disk_byte(o) == img.store()[img.spec_extent_base(o) + 512 * (img.bitmap_blocks
            + img.spec_extent_sector(o)) + o % 512],
        img.spec_map(o, l) == Ok::<Mapping, BlockError>(
            Mapping {
                offset: (o - o % 512) as u64,
                len: (if l < 512 {
                    l
                } else {
                    512
                }) as u64,
                target: MappingTarget::Data {
                    node: (),
                    offset: (img.spec_extent_base(o) + 512 * (img.bitmap_blocks
                        + img.spec_extent_sector(o))) as u64,
                },
            },
        ),
{
    img.file.lemma_len_bound();
    lemma_mod_bound(o, 512);
}

} // verus!
