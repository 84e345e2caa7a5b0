use block_device::data_type::{unmap_block, DataBlock, BLOCK_SIZE};
use block_device::device_error::DeviceError;
use block_device::simple_fake_device::{Data, SimpleFakeDevice};

fn make_device(name: &str, blocks: u64) -> SimpleFakeDevice {
    SimpleFakeDevice::new(name.to_string(), BLOCK_SIZE as u64 * blocks)
        .expect("Failed to create fake device")
}

#[test]
fn data_should_be_loaded_from_the_file() {
    let snapshot;
    {
        let mut device = SimpleFakeDevice::new(
            "data_should_be_loaded_from_the_file".to_string(),
            BLOCK_SIZE as u64 * 1024,
        )
        .expect("Failed to create fake device");

        let mut test_data: Data = Data::new(1024);
        for lba in 0..1024 {
            test_data.0[lba] = DataBlock([lba as u8; BLOCK_SIZE]);
        }

        device.write(0, 1024, test_data.clone().0).unwrap();
        snapshot = device.flush_to_bytes();
    }

    {
        let mut device = SimpleFakeDevice::new(
            "data_should_be_loaded_from_the_file".to_string(),
            BLOCK_SIZE as u64 * 1024,
        )
        .expect("Failed to create fake device");

        let read_before_load = device.read(0, 1024).unwrap();
        for lba in 0..1024 {
            assert_eq!(read_before_load[lba], unmap_block());
        }

        device
            .load_from_snapshot(Some(&snapshot))
            .expect("Failed to load data");

        let read_after_load = device.read(0, 1024).unwrap();
        for lba in 0..1024 {
            assert_eq!(read_after_load[lba], DataBlock([lba as u8; BLOCK_SIZE]));
        }
    }
}

#[test]
fn load_should_fail_when_there_is_no_file() {
    let mut device = SimpleFakeDevice::new(
        "load_should_fail_when_there_is_no_file".to_string(),
        BLOCK_SIZE as u64 * 1024,
    )
    .expect("Failed to create fake device");

    assert_eq!(device.load_from_snapshot(None).is_err(), true);
}

#[test]
fn data_new_fills_every_block_with_unmap() {
    let data = Data::new(16);
    assert_eq!(data.0.len(), 16);
    for block in data.0.iter() {
        assert_eq!(*block, unmap_block());
    }
}

#[test]
fn construction_rejects_invalid_sizes() {
    assert_eq!(
        SimpleFakeDevice::new("bad".to_string(), 0).unwrap_err(),
        DeviceError::ConfigError
    );
    assert_eq!(
        SimpleFakeDevice::new("bad".to_string(), BLOCK_SIZE as u64 - 1).unwrap_err(),
        DeviceError::ConfigError
    );
    assert_eq!(
        SimpleFakeDevice::new("bad".to_string(), BLOCK_SIZE as u64 + 1).unwrap_err(),
        DeviceError::ConfigError
    );
}

#[test]
fn info_reports_name_and_capacity() {
    let device = make_device("d0", 8);
    assert_eq!(device.info().name().as_str(), "d0");
    assert_eq!(device.info().total_size(), BLOCK_SIZE as u64 * 8);
    assert_eq!(device.info().num_blocks(), 8);
}

#[test]
fn range_validation_rejects_bad_requests() {
    let mut device = make_device("range", 8);
    assert!(device.is_valid_range(0, 8));
    assert!(device.is_valid_range(7, 1));
    assert!(!device.is_valid_range(0, 0));
    assert!(!device.is_valid_range(8, 1));
    assert!(!device.is_valid_range(7, 2));

    let buffer = vec![DataBlock([1u8; BLOCK_SIZE]); 2];
    assert_eq!(
        device.write(7, 2, buffer).unwrap_err(),
        DeviceError::InvalidRange
    );
    assert_eq!(
        device.write(0, 0, Vec::new()).unwrap_err(),
        DeviceError::InvalidRange
    );
    assert_eq!(device.read(8, 1).unwrap_err(), DeviceError::InvalidRange);
    assert_eq!(device.read(0, 0).unwrap_err(), DeviceError::InvalidRange);
    assert_eq!(device.read(4, 5).unwrap_err(), DeviceError::InvalidRange);

    // A rejected request changes nothing: every block still reads as unmap.
    let contents = device.read(0, 8).unwrap();
    for block in contents.iter() {
        assert_eq!(*block, unmap_block());
    }
}

#[test]
fn buffer_size_mismatch_is_reported() {
    let mut device = make_device("mismatch", 8);
    let one = vec![DataBlock([1u8; BLOCK_SIZE])];
    let three = vec![DataBlock([1u8; BLOCK_SIZE]); 3];
    assert_eq!(
        device.write(0, 2, one).unwrap_err(),
        DeviceError::BufferSizeMismatch
    );
    assert_eq!(
        device.write(0, 2, three).unwrap_err(),
        DeviceError::BufferSizeMismatch
    );

    // The buffer length is checked first: a request that is bad on both
    // counts is rejected as a buffer-size mismatch, whatever its range.
    let one_more = vec![DataBlock([1u8; BLOCK_SIZE])];
    assert_eq!(
        device.write(7, 3, one_more).unwrap_err(),
        DeviceError::BufferSizeMismatch
    );
}

#[test]
fn read_after_write_returns_written_buffer() {
    let mut device = make_device("raw", 8);
    let buffer = vec![
        DataBlock([11u8; BLOCK_SIZE]),
        DataBlock([22u8; BLOCK_SIZE]),
        DataBlock([33u8; BLOCK_SIZE]),
    ];
    device.write(2, 3, buffer.clone()).unwrap();
    let read_back = device.read(2, 3).unwrap();
    assert_eq!(read_back, buffer);
}

#[test]
fn unwritten_blocks_read_as_unmap() {
    let mut device = make_device("unmap", 8);
    let fresh = device.read(0, 8).unwrap();
    for block in fresh.iter() {
        assert_eq!(*block, unmap_block());
    }

    device
        .write(3, 2, vec![DataBlock([9u8; BLOCK_SIZE]); 2])
        .unwrap();
    let contents = device.read(0, 8).unwrap();
    for (lba, block) in contents.iter().enumerate() {
        if lba == 3 || lba == 4 {
            assert_eq!(*block, DataBlock([9u8; BLOCK_SIZE]));
        } else {
            assert_eq!(*block, unmap_block());
        }
    }
}
