//! Generic mapping contract and the request-splitting read loop.
//!
//! A format driver implements [`BlockDriver`]: it reports the logical size of
//! its image and translates the first part of a read request into a
//! [`Mapping`], which either points into the backing store or declares the
//! range unallocated. The request-splitting loop [`bdrv_co_preadv_part`]
//! repeatedly asks the driver for the next mapping and resolves each answer
//! into a zero fill or a delegated read against the backing store.

use crate::iobuffer::SizedIoBuffer;
use vstd::prelude::*;

verus! {

/// Which constraint on the extent geometry a rejected image violated.
#[derive(Clone, Copy, Debug, PartialEq, Eq, Structural)]
pub enum GeometryViolation {
    /// The extent size is smaller than one sector.
    ExtentTooSmall,
    /// The extent size is not a power of two.
    ExtentNotPowerOfTwo,
    /// The extent size is larger than the supported maximum.
    ExtentTooLarge,
}

/// Errors of the block translation layer.
#[derive(Clone, Copy, Debug, PartialEq, Eq, Structural)]
pub enum BlockError {
    /// The magic, image-type tag or subtype tag does not match the format.
    FormatMismatch,
    /// The format version is not one of the recognized revisions.
    UnsupportedVersion,
    /// The extent size is out of range or not a power of two.
    InvalidGeometry(GeometryViolation),
    /// The catalog declares more entries than the supported maximum.
    CatalogTooLarge,
    /// The catalog cannot address the declared disk size.
    CatalogTooSmall,
    /// A read against the backing store failed.
    BackingIoError,
}

/// A request to a block driver.
#[derive(Clone, Copy, Debug, PartialEq, Eq, Structural)]
pub enum Request {
    Read { offset: u64, len: u64 },
}

impl Request {
    /// The starting byte offset of the request.
    pub open spec fn spec_offset(&self) -> u64 {
        match *self {
            Request::Read { offset, .. } => offset,
        }
    }

    /// The length in bytes of the request.
    pub open spec fn spec_len(&self) -> u64 {
        match *self {
            Request::Read { len, .. } => len,
        }
    }
}

/// The target for a number of guest blocks: either a location in the backing
/// store or the information that the described blocks are unmapped.
#[derive(Clone, Copy, Debug)]
pub enum MappingTarget {
    /// The described blocks are unallocated. Reading from them yields zeros.
    Unmapped,
    /// The described blocks are stored in a child node.
    Data {
        /// Child node in which the data is stored.
        node: (),
        /// Offset in the child node at which the data is stored.
        offset: u64,
    },
}

/// A mapping for a number of contiguous guest blocks.
#[derive(Clone, Copy, Debug)]
pub struct Mapping {
    /// Offset of the mapped blocks from the perspective of the guest.
    pub offset: u64,
    /// Length of the mapping in bytes.
    pub len: u64,
    /// Where the data for the described blocks is stored.
    pub target: MappingTarget,
}

/// The format-agnostic contract of a block format driver.
///
/// A driver translates logical byte offsets of its virtual disk into backing
/// store locations. The ghost functions fix the mathematical model: the
/// backing store contents, the logical size, which logical bytes the backing
/// store can deliver, and the value of every logical byte.
pub trait BlockDriver: Sized {
    /// The driver's open-time invariant.
    spec fn wf(&self) -> bool;

    /// The contents of the backing store the driver reads from.
    spec fn store(&self) -> Seq<u8>;

    /// The logical size of the image in bytes.
    spec fn spec_size(&self) -> u64;

    /// Whether the translation of logical byte `o` can be fully resolved
    /// against the backing store.
    spec fn byte_readable(&self, o: int) -> bool;

    /// The value of logical byte `o` of the virtual disk.
    spec fn disk_byte(&self, o: int) -> u8;

    /// Which read requests the driver accepts; the request-splitting loop
    /// only hands the driver admissible requests.
    spec fn req_admissible(&self, o: int, l: int) -> bool;

    /// Returns the size of the image in bytes.
    fn size(&self) -> (s: u64)
        requires
            self.wf(),
        ensures
            s == self.spec_size(),
    ;

    /// Returns the backing store child node.
    fn file(&self) -> (f: &BdrvChild)
        requires
            self.wf(),
        ensures
            f@ == self.store(),
    ;

    /// Returns the mapping for the first part of `req`. If the returned
    /// mapping is shorter than the request, the function can be called again
    /// with a shortened request to get the mapping for the remaining part.
    ///
    /// A successful mapping contains the request's first byte; up to the end
    /// of the mapping (or of the request, whichever comes first) an
    /// `Unmapped` target promises zero bytes and a `Data` target points at
    /// the bytes in the backing store. If the mapping ends before the request
    /// does, the remaining sub-request is again admissible. A failure is a
    /// backing I/O error and owns a witness byte whose translation the
    /// backing store cannot deliver.
    fn map(&self, req: &Request) -> (r: Result<Mapping, BlockError>)
        requires
            self.wf(),
            0 < req.spec_len(),
            req.spec_offset() + req.spec_len() <= self.spec_size(),
            self.req_admissible(req.spec_offset() as int, req.spec_len() as int),
        ensures
            ({
                let o = req.spec_offset() as int;
                let l = req.spec_len() as int;
                match r {
                    Ok(m) => {
                        let end = vstd::math::min(m.offset + m.len, o + l);
                        &&& m.offset <= o < m.offset + m.len
                        &&& match m.target {
                            MappingTarget::Unmapped => forall|i: int|
                                o <= i < end ==> self.byte_readable(i) && self.disk_byte(i)
                                    == 0,
                            MappingTarget::Data { node: _, offset: t } => forall|i: int|
                                o <= i < end ==> (self.byte_readable(i) <==> t + (i - m.offset)
                                    < self.store().len()) && (self.byte_readable(i)
                                    ==> self.disk_byte(i) == self.store()[t + (i - m.offset)]),
                        }
                        &&& end < o + l ==> self.req_admissible(end, o + l - end)
                    },
                    Err(e) => e == BlockError::BackingIoError && exists|i: int|
                        o <= i < o + l && !self.byte_readable(i),
                }
            }),
    ;
}

/// Appends `n` zero bytes to `out`.
fn zero_fill(out: &mut Vec<u8>, n: u64)
    ensures
        final(out)@.len() == old(out)@.len() + n,
        forall|i: int| 0 <= i < old(out)@.len() ==> final(out)@[i] == old(out)@[i],
        forall|i: int| old(out)@.len() <= i < final(out)@.len() ==> final(out)@[i] == 0,
{
    let mut k: u64 = 0;
    while k < n
        invariant
            k <= n,
            out@.len() == old(out)@.len() + k,
            forall|i: int| 0 <= i < old(out)@.len() ==> out@[i] == old(out)@[i],
            forall|i: int| old(out)@.len() <= i < out@.len() ==> out@[i] == 0,
        decreases n - k,
    {
        out.push(0);
        k = k + 1;
    }
}

/// Resolves a read request of `bytes` bytes at logical offset `offset` by
/// repeatedly asking the driver for the next mapping and either zero-filling
/// or delegating a read to the backing store, until the request is exhausted.
///
/// On success the returned buffer holds exactly the addressed bytes of the
/// virtual disk. On failure some byte in the range cannot be resolved against
/// the backing store; bytes resolved by earlier iterations are discarded.
pub fn bdrv_co_preadv_part<D: BlockDriver>(driver: &D, offset: u64, bytes: u64) -> (r: Result<
    Vec<u8>,
    BlockError,
>)
    requires
        driver.wf(),
        offset + bytes <= driver.spec_size(),
        bytes > 0 ==> driver.req_admissible(offset as int, bytes as int),
    ensures
        match r {
            Ok(v) => v@.len() == bytes && forall|i: int|
                0 <= i < bytes ==> v@[i] == driver.disk_byte(offset + i) && driver.byte_readable(
                    offset + i,
                ),
            Err(e) => e == BlockError::BackingIoError && exists|i: int|
                offset <= i < offset + bytes && !driver.byte_readable(i),
        },
{
    let mut out: Vec<u8> = Vec::new();
    let mut cur_offset: u64 = offset;
    let mut remaining: u64 = bytes;
    while remaining > 0
        invariant
            driver.wf(),
            offset + bytes <= driver.spec_size(),
            cur_offset == offset + out@.len(),
            remaining == bytes - out@.len(),
            out@.len() <= bytes,
            forall|i: int|
                0 <= i < out@.len() ==> out@[i] == driver.disk_byte(offset + i)
                    && driver.byte_readable(offset + i),
            remaining > 0 ==> driver.req_admissible(cur_offset as int, remaining as int),
        decreases remaining,
    {
        let req = Request::Read { offset: cur_offset, len: remaining };
        let mapping = match driver.map(&req) {
            Ok(m) => m,
            Err(e) => {
                return Err(e);
            },
        };
        let mapping_offset = cur_offset - mapping.offset;
        let avail = mapping.len - mapping_offset;
        let cur_bytes = if remaining < avail {
            remaining
        } else {
            avail
        };
        match mapping.target {
            MappingTarget::Unmapped => {
                zero_fill(&mut out, cur_bytes);
            },
            MappingTarget::Data { node: _, offset: target_offset } => {
                let file = driver.file();
                proof {
                    file.lemma_len_bound();
                }
                let read_offset = match target_offset.checked_add(mapping_offset) {
                    Some(x) => x,
                    None => {
                        proof {
                            assert(!driver.byte_readable(cur_offset as int));
                        }
                        return Err(BlockError::BackingIoError);
                    },
                };
                let mut data = match file.read(read_offset, cur_bytes) {
                    Ok(d) => d,
                    Err(e) => {
                        proof {
                            assert(!driver.byte_readable(cur_offset + cur_bytes - 1));
                        }
                        return Err(e);
                    },
                };
                out.append(&mut data);
            },
        }
        cur_offset = cur_offset + cur_bytes;
        remaining = remaining - cur_bytes;
    }
    Ok(out)
}

/// The connection between a parent and its child node: a byte-addressable
/// backing store holding the image file's contents.
pub struct BdrvChild {
    data: Vec<u8>,
}

impl View for BdrvChild {
    type V = Seq<u8>;

    closed spec fn view(&self) -> Seq<u8> {
        self.data@
    }
}

impl BdrvChild {
    /// Creates a child node backed by the given byte contents.
    pub fn new(data: Vec<u8>) -> (c: Self)
        ensures
            c@ == data@,
    {
        BdrvChild { data }
    }

    /// A child node's contents fit in memory.
    pub proof fn lemma_len_bound(&self)
        ensures
            self@.len() <= usize::MAX,
    {
        assert(self.data.len() == self.data@.len());
    }

    /// Reads `len` bytes starting at byte `offset` from the child node.
    ///
    /// Fails exactly when the range does not lie inside the child node.
    pub fn read(&self, offset: u64, len: u64) -> (r: Result<Vec<u8>, BlockError>)
        ensures
            match r {
                Ok(v) => offset + len <= self@.len() && v@ == self@.subrange(
                    offset as int,
                    offset + len,
                ),
                Err(e) => e == BlockError::BackingIoError && offset + len > self@.len(),
            },
    {
        let node_len = self.data.len();
        let in_range = match offset.checked_add(len) {
            Some(end) => end <= node_len as u64,
            None => false,
        };
        if !in_range {
            return Err(BlockError::BackingIoError);
        }
        let base: usize = offset as usize;
        let count: usize = len as usize;
        let mut v: Vec<u8> = Vec::new();
        let mut i: usize = 0;
        while i < count
            invariant
                base + count <= self.data@.len(),
                self.data@.len() <= usize::MAX,
                base == offset,
                count == len,
                i <= count,
                v@.len() == i,
                forall|j: int| 0 <= j < i ==> v@[j] == self.data@[base + j],
            decreases count - i,
        {
            v.push(self.data[base + i]);
            i = i + 1;
        }
        proof {
            assert(v@ =~= self@.subrange(offset as int, offset + len));
        }
        Ok(v)
    }

    /// Reads a typed value from the child node at byte `offset`, forming the
    /// value directly from the raw bytes.
    ///
    /// Fails exactly when the value's bytes do not lie inside the child node.
    pub fn read_uninit<T: SizedIoBuffer>(&self, offset: u64) -> (r: Result<T, BlockError>)
        ensures
            match r {
                Ok(v) => offset + T::spec_size() <= self@.len() && v.parsed_from(
                    self@.subrange(offset as int, offset + T::spec_size()),
                ),
                Err(e) => e == BlockError::BackingIoError && offset + T::spec_size()
                    > self@.len(),
            },
    {
        let size = T::byte_size();
        match self.read(offset, size as u64) {
            Ok(bytes) => match T::from_byte_slice(bytes.as_slice()) {
                Some(v) => {
                    proof {
                        assert(bytes@.take(T::spec_size() as int) =~= self@.subrange(
                            offset as int,
                            offset + T::spec_size(),
                        ));
                    }
                    Ok(v)
                },
                // The read delivered exactly `spec_size` bytes, so decoding
                // cannot come up short.
                None => vstd::pervasive::unreached(),
            },
            Err(e) => Err(e),
        }
    }
}

} // verus!
