use block::bochs::{BochsImage, HEADER_VERSION, UNALLOCATED};
use block::driver::{
    bdrv_co_preadv_part, BdrvChild, BlockDriver, BlockError, Mapping, MappingTarget, Request,
};

fn put_u32(v: &mut Vec<u8>, x: u32) {
    v.extend_from_slice(&x.to_le_bytes());
}

fn put_u64(v: &mut Vec<u8>, x: u64) {
    v.extend_from_slice(&x.to_le_bytes());
}

fn put_tag(v: &mut Vec<u8>, tag: &[u8], len: usize) {
    v.extend_from_slice(tag);
    v.resize(v.len() - tag.len() + len, 0);
}

/// Builds a newer-revision header followed by the catalog; the allocation
/// slots are appended by the individual tests.
fn make_image(extent_size: u32, bitmap_size: u32, catalog: &[u32], disk_size: u64) -> Vec<u8> {
    let mut v = Vec::new();
    put_tag(&mut v, b"Bochs Virtual HD Image", 32);
    put_tag(&mut v, b"Redolog", 16);
    put_tag(&mut v, b"Growing", 16);
    put_u32(&mut v, HEADER_VERSION);
    put_u32(&mut v, 512);
    put_u32(&mut v, catalog.len() as u32);
    put_u32(&mut v, bitmap_size);
    put_u32(&mut v, extent_size);
    put_u32(&mut v, 0); // timestamp
    put_u64(&mut v, disk_size);
    v.resize(512, 0);
    for e in catalog {
        put_u32(&mut v, *e);
    }
    v
}

/// A deterministic non-trivial byte pattern.
fn pattern(i: usize) -> u8 {
    ((i * 31 + 7) % 251) as u8
}

/// The example scenario: extent size 4096 (8 sectors), catalog
/// `[0, UNALLOCATED]`, bitmap of slot 0 = `0b0000_0011` (sectors 0 and 1
/// allocated). A 4096-byte read at offset 0 yields sectors 0 and 1 from the
/// data region and sectors 2..7 as zero; a 4096-byte read at offset 4096
/// yields all zero.
#[test]
fn example_scenario_two_extents() {
    let mut img = make_image(4096, 1, &[0, UNALLOCATED], 8192);
    let slot = 520; // data_offset: 512 + 2 * 4
    let data = slot + 512; // one bitmap sector, then extent data
    img.resize(data + 4096, 0);
    img[slot] = 0b0000_0011;
    for i in 0..1024 {
        img[data + i] = pattern(i);
    }
    let bochs = BochsImage::new(BdrvChild::new(img.clone())).expect("open must succeed");

    let out = bdrv_co_preadv_part(&bochs, 0, 4096).expect("read must succeed");
    assert_eq!(out.len(), 4096);
    assert_eq!(&out[..1024], &img[data..data + 1024]);
    assert!(out[1024..].iter().all(|b| *b == 0));

    let out2 = bdrv_co_preadv_part(&bochs, 4096, 4096).expect("read must succeed");
    assert_eq!(out2.len(), 4096);
    assert!(out2.iter().all(|b| *b == 0));

    // One request spanning both extents.
    let whole = bdrv_co_preadv_part(&bochs, 0, 8192).expect("read must succeed");
    assert_eq!(whole.len(), 8192);
    assert_eq!(&whole[..1024], &img[data..data + 1024]);
    assert!(whole[1024..].iter().all(|b| *b == 0));

    // The empty request reads nothing.
    let empty = bdrv_co_preadv_part(&bochs, 8192, 0).expect("read must succeed");
    assert!(empty.is_empty());
}

/// Reading anywhere inside a never-allocated extent yields zeros, and the
/// mapping covers the full extent.
#[test]
fn unallocated_extent_maps_whole_extent() {
    let img = make_image(4096, 1, &[UNALLOCATED, UNALLOCATED], 8192);
    let bochs = BochsImage::new(BdrvChild::new(img)).expect("open must succeed");

    let m: Mapping = bochs
        .map(&Request::Read { offset: 4096 + 512, len: 100 })
        .expect("map must succeed");
    assert_eq!(m.offset, 4096);
    assert_eq!(m.len, 4096);
    assert!(matches!(m.target, MappingTarget::Unmapped));

    let out = bdrv_co_preadv_part(&bochs, 1000, 5000).expect("read must succeed");
    assert_eq!(out.len(), 5000);
    assert!(out.iter().all(|b| *b == 0));
}

/// In an allocated extent, a sector with a clear allocation bit reads as
/// zero and maps to `Unmapped` — no data read is delegated for it.
#[test]
fn clear_bit_sector_reads_zero() {
    let mut img = make_image(4096, 1, &[0], 4096);
    let slot = 516; // data_offset: 512 + 4
    let data = slot + 512;
    img.resize(data + 4096, 0);
    img[slot] = 0b0000_0001; // only sector 0 written
    for i in 0..4096 {
        img[data + i] = pattern(i);
    }
    let bochs = BochsImage::new(BdrvChild::new(img)).expect("open must succeed");

    let m = bochs.map(&Request::Read { offset: 512, len: 512 }).expect("map must succeed");
    assert_eq!(m.offset, 512);
    assert_eq!(m.len, 512);
    assert!(matches!(m.target, MappingTarget::Unmapped));

    let out = bdrv_co_preadv_part(&bochs, 512, 512).expect("read must succeed");
    assert!(out.iter().all(|b| *b == 0));
}

/// In an allocated extent, a sector with a set allocation bit maps to
/// `extent_base + 512 * (bitmap_blocks + sector)` and a byte pattern stored
/// there round-trips unchanged through the translation.
#[test]
fn set_bit_sector_round_trips() {
    let mut img = make_image(4096, 1, &[0], 4096);
    let slot = 516;
    let data = slot + 512;
    img.resize(data + 4096, 0);
    img[slot] = 0b0000_0100; // only sector 2 written
    for i in 0..512 {
        img[data + 2 * 512 + i] = pattern(i);
    }
    let bochs = BochsImage::new(BdrvChild::new(img.clone())).expect("open must succeed");

    let m = bochs.map(&Request::Read { offset: 1024, len: 512 }).expect("map must succeed");
    assert_eq!(m.offset, 1024);
    assert_eq!(m.len, 512);
    match m.target {
        MappingTarget::Data { node: _, offset } => {
            assert_eq!(offset, (slot + 512 * (1 + 2)) as u64);
        },
        MappingTarget::Unmapped => panic!("expected a data mapping"),
    }

    let out = bdrv_co_preadv_part(&bochs, 1024, 512).expect("read must succeed");
    assert_eq!(&out[..], &img[data + 1024..data + 1536]);
}

/// A multi-sector read over an alternating allocation bitmap concatenates
/// the delegated-read and zero-fill segments with no sector dropped or
/// duplicated.
#[test]
fn alternating_bitmap_concatenates_segments() {
    let mut img = make_image(4096, 1, &[0], 4096);
    let slot = 516;
    let data = slot + 512;
    img.resize(data + 4096, 0);
    img[slot] = 0b0101_0101; // sectors 0, 2, 4, 6 written
    for i in 0..4096 {
        img[data + i] = pattern(i);
    }
    let bochs = BochsImage::new(BdrvChild::new(img.clone())).expect("open must succeed");

    let out = bdrv_co_preadv_part(&bochs, 0, 4096).expect("read must succeed");
    assert_eq!(out.len(), 4096);
    for sector in 0..8 {
        let lo = sector * 512;
        let hi = lo + 512;
        if sector % 2 == 0 {
            assert_eq!(&out[lo..hi], &img[data + lo..data + hi]);
        } else {
            assert!(out[lo..hi].iter().all(|b| *b == 0));
        }
    }
}

/// A read that starts inside a sector realigns after the first mapping.
#[test]
fn unaligned_read_with_whole_sector_remaining() {
    let mut img = make_image(4096, 1, &[0], 4096);
    let slot = 516;
    let data = slot + 512;
    img.resize(data + 4096, 0);
    img[slot] = 0b1111_1111;
    for i in 0..4096 {
        img[data + i] = pattern(i);
    }
    let bochs = BochsImage::new(BdrvChild::new(img.clone())).expect("open must succeed");

    let out = bdrv_co_preadv_part(&bochs, 100, 600).expect("read must succeed");
    assert_eq!(&out[..], &img[data + 100..data + 700]);
}

/// Sectors past the first eight are looked up in the following bitmap
/// bytes: one byte of the allocation bitmap covers eight sectors.
#[test]
fn bitmap_second_byte_addresses_high_sectors() {
    // Extent of 8192 bytes = 16 sectors; its bitmap needs two bytes.
    let mut img = make_image(8192, 2, &[0], 8192);
    let slot = 516; // data_offset: 512 + 4
    let data = slot + 512; // the two bitmap bytes still fit in one sector
    img.resize(data + 8192, 0);
    img[slot] = 0; // sectors 0..7 never written
    img[slot + 1] = 0b0000_0010; // sector 9 written
    for i in 0..8192 {
        img[data + i] = pattern(i);
    }
    let bochs = BochsImage::new(BdrvChild::new(img.clone())).expect("open must succeed");

    let m = bochs.map(&Request::Read { offset: 9 * 512, len: 512 }).expect("map must succeed");
    match m.target {
        MappingTarget::Data { node: _, offset } => {
            assert_eq!(offset, (slot + 512 * (1 + 9)) as u64);
        },
        MappingTarget::Unmapped => panic!("expected a data mapping"),
    }

    let out = bdrv_co_preadv_part(&bochs, 9 * 512, 512).expect("read must succeed");
    assert_eq!(&out[..], &img[data + 9 * 512..data + 10 * 512]);

    let zero = bdrv_co_preadv_part(&bochs, 8 * 512, 512).expect("read must succeed");
    assert!(zero.iter().all(|b| *b == 0));
}

/// A catalog entry whose slot lies beyond the backing store surfaces the
/// backing I/O error at mapping time; the image stays usable.
#[test]
fn bitmap_read_failure_surfaces_io_error() {
    let img = make_image(4096, 1, &[7, UNALLOCATED], 8192);
    let bochs = BochsImage::new(BdrvChild::new(img)).expect("open must succeed");

    let r = bdrv_co_preadv_part(&bochs, 0, 512);
    assert!(matches!(r, Err(BlockError::BackingIoError)));

    // A later request against the unallocated extent still succeeds.
    let out = bdrv_co_preadv_part(&bochs, 4096, 4096).expect("read must succeed");
    assert!(out.iter().all(|b| *b == 0));
}

/// Reads on the backing child node deliver its bytes exactly and fail
/// exactly outside its range.
#[test]
fn child_node_read_bounds() {
    let child = BdrvChild::new(vec![10, 20, 30, 40, 50]);
    assert_eq!(child.read(1, 3).expect("in range"), vec![20, 30, 40]);
    assert_eq!(child.read(5, 0).expect("empty at end"), Vec::<u8>::new());
    assert!(matches!(child.read(3, 3), Err(BlockError::BackingIoError)));
    assert!(matches!(child.read(u64::MAX, 2), Err(BlockError::BackingIoError)));
}
