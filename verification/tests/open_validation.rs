use block::bochs::{div_ceil, BochsImage, HEADER_V1, HEADER_VERSION, UNALLOCATED};
use block::driver::{BdrvChild, BlockDriver, BlockError, GeometryViolation};

fn put_u32(v: &mut Vec<u8>, x: u32) {
    v.extend_from_slice(&x.to_le_bytes());
}

fn put_u64(v: &mut Vec<u8>, x: u64) {
    v.extend_from_slice(&x.to_le_bytes());
}

fn put_tag(v: &mut Vec<u8>, tag: &[u8], len: usize) {
    v.extend_from_slice(tag);
    v.resize(v.len() - tag.len() + len, 0);
}

/// Builds a 512-byte header. For the newer revision the trailer is a zero
/// timestamp followed by the disk size; for the older one it is the disk
/// size alone.
fn make_header(
    version: u32,
    header_size: u32,
    catalog_entries: u32,
    bitmap_size: u32,
    extent_size: u32,
    disk_size: u64,
) -> Vec<u8> {
    let mut v = Vec::new();
    put_tag(&mut v, b"Bochs Virtual HD Image", 32);
    put_tag(&mut v, b"Redolog", 16);
    put_tag(&mut v, b"Growing", 16);
    put_u32(&mut v, version);
    put_u32(&mut v, header_size);
    put_u32(&mut v, catalog_entries);
    put_u32(&mut v, bitmap_size);
    put_u32(&mut v, extent_size);
    if version == HEADER_VERSION {
        put_u32(&mut v, 0); // timestamp
        put_u64(&mut v, disk_size);
    } else {
        put_u64(&mut v, disk_size);
    }
    v.resize(512, 0);
    v
}

/// Appends a catalog of the given entries at the current end of the image.
fn append_catalog(v: &mut Vec<u8>, entries: &[u32]) {
    for e in entries {
        put_u32(v, *e);
    }
}

#[test]
fn open_v2_reports_trailer_size() {
    let mut img = make_header(HEADER_VERSION, 512, 2, 1, 4096, 8192);
    append_catalog(&mut img, &[UNALLOCATED, UNALLOCATED]);
    let bochs = BochsImage::new(BdrvChild::new(img)).expect("open must succeed");
    assert_eq!(bochs.size(), 8192);
}

#[test]
fn open_v1_reports_trailer_size() {
    let mut img = make_header(HEADER_V1, 512, 2, 1, 4096, 6000);
    append_catalog(&mut img, &[UNALLOCATED, UNALLOCATED]);
    let bochs = BochsImage::new(BdrvChild::new(img)).expect("open must succeed");
    assert_eq!(bochs.size(), 6000);
}

/// The two revisions read the disk size from different trailer positions:
/// with identical trailer bytes, the declared version decides which field
/// is the size.
#[test]
fn version_selects_trailer_field() {
    // Identical trailer bytes: 16 at byte 84, zeros after. The older
    // revision reads its size at byte 84 and sees 16; the newer one reads
    // at byte 88 and sees 0.
    let mut v1 = make_header(HEADER_V1, 512, 4, 1, 4096, 0);
    let mut v2 = make_header(HEADER_VERSION, 512, 4, 1, 4096, 0);
    let trailer: [u8; 12] = [16, 0, 0, 0, 0, 0, 0, 0, 0, 0, 0, 0];
    v1[84..96].copy_from_slice(&trailer);
    v2[84..96].copy_from_slice(&trailer);
    append_catalog(&mut v1, &[UNALLOCATED; 4]);
    append_catalog(&mut v2, &[UNALLOCATED; 4]);
    let b1 = BochsImage::new(BdrvChild::new(v1)).expect("open must succeed");
    assert_eq!(b1.size(), 16);
    let b2 = BochsImage::new(BdrvChild::new(v2)).expect("open must succeed");
    assert_eq!(b2.size(), 0);
}

#[test]
fn open_rejects_truncated_header() {
    let img = make_header(HEADER_VERSION, 512, 1, 1, 4096, 4096);
    let short = img[..300].to_vec();
    let r = BochsImage::new(BdrvChild::new(short));
    assert!(matches!(r, Err(BlockError::BackingIoError)));
}

#[test]
fn open_rejects_bad_magic() {
    let mut img = make_header(HEADER_VERSION, 512, 1, 1, 4096, 4096);
    img[0] = b'X';
    append_catalog(&mut img, &[UNALLOCATED]);
    let r = BochsImage::new(BdrvChild::new(img));
    assert!(matches!(r, Err(BlockError::FormatMismatch)));
}

#[test]
fn open_rejects_wrong_type_tag() {
    let mut img = make_header(HEADER_VERSION, 512, 1, 1, 4096, 4096);
    img[32] = b'X';
    append_catalog(&mut img, &[UNALLOCATED]);
    let r = BochsImage::new(BdrvChild::new(img));
    assert!(matches!(r, Err(BlockError::FormatMismatch)));
}

#[test]
fn open_rejects_wrong_subtype_tag() {
    let mut img = make_header(HEADER_VERSION, 512, 1, 1, 4096, 4096);
    img[48] = b'X';
    append_catalog(&mut img, &[UNALLOCATED]);
    let r = BochsImage::new(BdrvChild::new(img));
    assert!(matches!(r, Err(BlockError::FormatMismatch)));
}

#[test]
fn open_rejects_unsupported_version() {
    let mut img = make_header(0x00030000, 512, 1, 1, 4096, 4096);
    append_catalog(&mut img, &[UNALLOCATED]);
    let r = BochsImage::new(BdrvChild::new(img));
    assert!(matches!(r, Err(BlockError::UnsupportedVersion)));
}

#[test]
fn open_rejects_extent_below_sector() {
    let mut img = make_header(HEADER_VERSION, 512, 1, 1, 256, 256);
    append_catalog(&mut img, &[UNALLOCATED]);
    let r = BochsImage::new(BdrvChild::new(img));
    assert!(matches!(
        r,
        Err(BlockError::InvalidGeometry(GeometryViolation::ExtentTooSmall))
    ));
}

#[test]
fn open_rejects_extent_not_power_of_two() {
    let mut img = make_header(HEADER_VERSION, 512, 1, 1, 4097, 4097);
    append_catalog(&mut img, &[UNALLOCATED]);
    let r = BochsImage::new(BdrvChild::new(img));
    assert!(matches!(
        r,
        Err(BlockError::InvalidGeometry(GeometryViolation::ExtentNotPowerOfTwo))
    ));
}

#[test]
fn open_rejects_extent_too_large() {
    let mut img = make_header(HEADER_VERSION, 512, 1, 1, 0x1000000, 0x1000000);
    append_catalog(&mut img, &[UNALLOCATED]);
    let r = BochsImage::new(BdrvChild::new(img));
    assert!(matches!(
        r,
        Err(BlockError::InvalidGeometry(GeometryViolation::ExtentTooLarge))
    ));
}

#[test]
fn open_rejects_catalog_too_large() {
    // The entry cap is checked before the catalog is read, so the store may
    // end right after the header.
    let img = make_header(HEADER_VERSION, 512, 0x100001, 1, 4096, 4096);
    let r = BochsImage::new(BdrvChild::new(img));
    assert!(matches!(r, Err(BlockError::CatalogTooLarge)));
}

#[test]
fn open_rejects_catalog_too_small() {
    // Two extents are needed for 8192 bytes, but only one entry is declared.
    let mut img = make_header(HEADER_VERSION, 512, 1, 1, 4096, 8192);
    append_catalog(&mut img, &[UNALLOCATED]);
    let r = BochsImage::new(BdrvChild::new(img));
    assert!(matches!(r, Err(BlockError::CatalogTooSmall)));
}

#[test]
fn open_rejects_truncated_catalog() {
    // Header valid, but the store ends before the declared catalog does.
    let mut img = make_header(HEADER_VERSION, 512, 2, 1, 4096, 8192);
    append_catalog(&mut img, &[UNALLOCATED]);
    let r = BochsImage::new(BdrvChild::new(img));
    assert!(matches!(r, Err(BlockError::BackingIoError)));
}

#[test]
fn open_loads_catalog_in_order() {
    let mut img = make_header(HEADER_VERSION, 512, 3, 1, 4096, 12288);
    append_catalog(&mut img, &[1, UNALLOCATED, 0]);
    let bochs = BochsImage::new(BdrvChild::new(img)).expect("open must succeed");
    assert_eq!(bochs.catalog_bitmap, vec![1, UNALLOCATED, 0]);
    assert_eq!(bochs.extent_size, 4096);
    assert_eq!(bochs.extent_blocks, 8);
    assert_eq!(bochs.bitmap_blocks, 1);
    assert_eq!(bochs.data_offset, 512 + 12);
}

#[test]
fn open_accepts_boundary_geometry() {
    // Smallest and largest accepted extent sizes.
    let mut small = make_header(HEADER_VERSION, 512, 1, 1, 512, 512);
    append_catalog(&mut small, &[UNALLOCATED]);
    assert!(BochsImage::new(BdrvChild::new(small)).is_ok());

    let mut large = make_header(HEADER_VERSION, 512, 1, 1, 0x800000, 0x800000);
    append_catalog(&mut large, &[UNALLOCATED]);
    assert!(BochsImage::new(BdrvChild::new(large)).is_ok());
}

#[test]
fn open_accepts_catalog_at_cap() {
    let mut img = make_header(HEADER_VERSION, 512, 0x100000, 1, 512, 512);
    for _ in 0..0x100000 {
        put_u32(&mut img, UNALLOCATED);
    }
    let bochs = BochsImage::new(BdrvChild::new(img)).expect("open must succeed");
    assert_eq!(bochs.catalog_bitmap.len(), 0x100000);
}

#[test]
fn div_ceil_exact_values() {
    assert_eq!(div_ceil(0, 512), 0);
    assert_eq!(div_ceil(1, 512), 1);
    assert_eq!(div_ceil(512, 512), 1);
    assert_eq!(div_ceil(513, 512), 2);
    assert_eq!(div_ceil(8192, 4096), 2);
    assert_eq!(div_ceil(8193, 4096), 3);
}
