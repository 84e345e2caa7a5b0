use block_device::data_type::{unmap_block, DataBlock, BLOCK_SIZE};
use block_device::device_error::DeviceError;
use block_device::simple_fake_device::SimpleFakeDevice;

#[test]
fn snapshot_layout_is_flat_blocks() {
    let mut device = SimpleFakeDevice::new("layout".to_string(), BLOCK_SIZE as u64 * 4)
        .expect("Failed to create fake device");
    device
        .write(1, 1, vec![DataBlock([0xABu8; BLOCK_SIZE])])
        .unwrap();

    let bytes = device.flush_to_bytes();
    assert_eq!(bytes.len(), 4 * BLOCK_SIZE);
    // Block i sits at byte offset i * BLOCK_SIZE.
    assert_eq!(bytes[0], 0);
    assert_eq!(bytes[BLOCK_SIZE - 1], 0);
    assert_eq!(bytes[BLOCK_SIZE], 0xAB);
    assert_eq!(bytes[2 * BLOCK_SIZE - 1], 0xAB);
    assert_eq!(bytes[2 * BLOCK_SIZE], 0);
}

#[test]
fn snapshot_round_trips_a_full_pattern() {
    let mut device = SimpleFakeDevice::new("round".to_string(), BLOCK_SIZE as u64 * 16)
        .expect("Failed to create fake device");
    let mut pattern = Vec::new();
    for lba in 0..16u8 {
        pattern.push(DataBlock([lba.wrapping_mul(17); BLOCK_SIZE]));
    }
    device.write(0, 16, pattern.clone()).unwrap();

    let bytes = device.flush_to_bytes();

    let mut restored = SimpleFakeDevice::new("round".to_string(), BLOCK_SIZE as u64 * 16)
        .expect("Failed to create fake device");
    restored.load_from_snapshot(Some(&bytes)).unwrap();
    assert_eq!(restored.read(0, 16).unwrap(), pattern);
}

#[test]
fn concrete_snapshot_scenario() {
    // Device "d1" of 1024 blocks; block i is filled with the byte i mod 256.
    let size: u64 = 4096 * 1024;
    assert_eq!(BLOCK_SIZE, 4096);

    let mut first = SimpleFakeDevice::new("d1".to_string(), size).unwrap();
    let mut pattern = Vec::new();
    for lba in 0..1024usize {
        pattern.push(DataBlock([(lba % 256) as u8; BLOCK_SIZE]));
    }
    first.write(0, 1024, pattern.clone()).unwrap();
    let snapshot = first.flush_to_bytes();

    let mut second = SimpleFakeDevice::new("d1".to_string(), size).unwrap();
    let before_load = second.read(0, 1024).unwrap();
    for block in before_load.iter() {
        assert_eq!(*block, unmap_block());
    }

    second.load_from_snapshot(Some(&snapshot)).unwrap();
    assert_eq!(second.read(0, 1024).unwrap(), pattern);
}

#[test]
fn load_without_store_keeps_state_untouched() {
    let mut device = SimpleFakeDevice::new("fresh".to_string(), BLOCK_SIZE as u64 * 8)
        .expect("Failed to create fake device");
    assert_eq!(
        device.load_from_snapshot(None).unwrap_err(),
        DeviceError::NotFound
    );
    // The failed load changed nothing: every block still reads as unmap.
    let contents = device.read(0, 8).unwrap();
    for block in contents.iter() {
        assert_eq!(*block, unmap_block());
    }
}

#[test]
fn wrong_sized_snapshot_is_a_medium_error() {
    let mut device = SimpleFakeDevice::new("bad_snap".to_string(), BLOCK_SIZE as u64 * 4)
        .expect("Failed to create fake device");
    device
        .write(0, 1, vec![DataBlock([5u8; BLOCK_SIZE])])
        .unwrap();

    let short = vec![0u8; 100];
    assert_eq!(
        device.load_from_snapshot(Some(&short)).unwrap_err(),
        DeviceError::MediumError(-1)
    );
    // The failed load left the previous contents in place.
    assert_eq!(
        device.read(0, 1).unwrap(),
        vec![DataBlock([5u8; BLOCK_SIZE])]
    );
}

#[test]
fn loading_an_unmap_snapshot_resets_written_blocks() {
    let fresh = SimpleFakeDevice::new("reset".to_string(), BLOCK_SIZE as u64 * 4)
        .expect("Failed to create fake device");
    let all_unmap = fresh.flush_to_bytes();

    let mut device = SimpleFakeDevice::new("reset".to_string(), BLOCK_SIZE as u64 * 4)
        .expect("Failed to create fake device");
    device
        .write(0, 4, vec![DataBlock([1u8; BLOCK_SIZE]); 4])
        .unwrap();
    device.load_from_snapshot(Some(&all_unmap)).unwrap();
    let contents = device.read(0, 4).unwrap();
    for block in contents.iter() {
        assert_eq!(*block, unmap_block());
    }
}
