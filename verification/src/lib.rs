//! A block-storage abstraction: fixed-size blocks addressed by logical block
//! address (LBA), served either from an in-memory store or through a kernel
//! asynchronous I/O ring against a backing file.

pub mod data_type;
pub mod device_error;
pub mod device_info;
pub mod io_uring_fake_device;
pub mod simple_fake_device;
