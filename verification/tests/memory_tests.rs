use remote_probe::mem::MemoryImage;
use remote_probe::players::Rotation2;
use remote_probe::scatter::ScatterBatch;
use remote_probe::ProbeError;

fn image_with(entries: &[(u64, Vec<u8>)]) -> MemoryImage {
    let mut img = MemoryImage::new();
    for (base, bytes) in entries {
        assert!(img.add_region(*base, bytes.clone()));
    }
    img
}

#[test]
fn image_reads_back_what_was_added() {
    let img = image_with(&[(0x1000, vec![1, 2, 3, 4])]);
    assert_eq!(img.read_bytes(0x1000, 4), Some(vec![1, 2, 3, 4]));
    assert_eq!(img.read_bytes(0x1001, 2), Some(vec![2, 3]));
    assert_eq!(img.read_bytes(0x1000, 5), None);
    assert_eq!(img.read_bytes(0xFFF, 2), None);
}

#[test]
fn image_refuses_overlapping_regions() {
    let mut img = MemoryImage::new();
    assert!(img.add_region(0x1000, vec![0; 16]));
    assert!(!img.add_region(0x100F, vec![0; 4]));
    assert!(img.add_region(0x1010, vec![0; 4]));
}

#[test]
fn typed_reads_are_little_endian() {
    let img = image_with(&[
        (0x2000, 0x1122334455667788u64.to_le_bytes().to_vec()),
        (0x3000, (-7i32).to_le_bytes().to_vec()),
        (0x4000, 0x7FFFFFFFi32.to_le_bytes().to_vec()),
    ]);
    assert_eq!(img.read_u64(0x2000), Some(0x1122334455667788));
    assert_eq!(img.read_i32(0x3000), Some(-7));
    assert_eq!(img.read_i32(0x4000), Some(0x7FFFFFFF));
    assert_eq!(img.read_u64(0x2001), None);
}

#[test]
fn chain_resolution_equals_manual_dereference() {
    // base --+0x10--> a --+0x08--> b, checked against two manual reads
    let mut img = MemoryImage::new();
    assert!(img.add_region(0x5010, 0x6000u64.to_le_bytes().to_vec()));
    assert!(img.add_region(0x6008, 0x7777u64.to_le_bytes().to_vec()));
    let chain = vec![0x10u64, 0x08];
    let resolved = img.mem_read_chain(0x5000, &chain).unwrap();
    let step1 = img.read_u64(0x5000 + 0x10).unwrap();
    let step2 = img.read_u64(step1 + 0x08).unwrap();
    assert_eq!(resolved, step2);
    assert_eq!(resolved, 0x7777);
}

#[test]
fn empty_chain_returns_base_unchanged() {
    let img = MemoryImage::new();
    let chain: Vec<u64> = Vec::new();
    assert_eq!(img.mem_read_chain(0xABCD, &chain), Ok(0xABCD));
}

#[test]
fn chain_reports_the_failing_address() {
    let img = MemoryImage::new();
    let chain = vec![0x10u64];
    assert_eq!(
        img.mem_read_chain(0x5000, &chain),
        Err(ProbeError::MemoryRead { addr: 0x5010, len: 8 })
    );
}

#[test]
fn array_reader_returns_each_element() {
    let mut bytes = Vec::new();
    for v in [11u64, 22, 33] {
        bytes.extend_from_slice(&v.to_le_bytes());
    }
    let img = image_with(&[(0x8000, bytes)]);
    let arr = img.mem_read_array_into_buffer(0x8000, 3).unwrap();
    assert_eq!(arr, vec![11u64, 22, 33]);
    assert!(img.mem_read_array_into_buffer(0x8000, 4).is_err());
}

#[test]
fn scatter_value_unreadable_before_execute() {
    let img = image_with(&[(0x9000, 2048i32.to_le_bytes().to_vec())]);
    let mut batch = ScatterBatch::new();
    batch.prepare(0x9000, 4);
    assert!(batch.read_i32_cached(0x9000).is_err());
    batch.execute(&img);
    assert_eq!(batch.read_i32_cached(0x9000), Ok(2048));
}

#[test]
fn scatter_caches_rotation_bit_patterns() {
    let x = 1.5f32;
    let y = -0.25f32;
    let mut bytes = x.to_le_bytes().to_vec();
    bytes.extend_from_slice(&y.to_le_bytes());
    let img = image_with(&[(0xA000, bytes)]);
    let mut batch = ScatterBatch::new();
    batch.prepare(0xA000, 8);
    batch.execute(&img);
    let rot = batch.read_rotation_cached(0xA000).unwrap();
    assert_eq!(
        rot,
        Rotation2 { x_bits: x.to_bits(), y_bits: y.to_bits() }
    );
    assert_eq!(f32::from_bits(rot.x_bits), 1.5);
    assert_eq!(f32::from_bits(rot.y_bits), -0.25);
}

#[test]
fn scatter_entry_missing_from_image_stays_unfilled() {
    let img = MemoryImage::new();
    let mut batch = ScatterBatch::new();
    batch.prepare(0xB000, 4);
    batch.execute(&img);
    assert_eq!(
        batch.read_i32_cached(0xB000),
        Err(ProbeError::MemoryRead { addr: 0xB000, len: 4 })
    );
    assert_eq!(
        batch.read_i32_cached(0xC000),
        Err(ProbeError::MemoryRead { addr: 0xC000, len: 4 })
    );
}
