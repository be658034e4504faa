pub mod access;
pub mod bytes;
pub mod fdt;
pub mod uart;
pub mod utils;
pub mod virtio;
pub mod working_kernel;
