//! A CHIP-8 virtual machine: address space, framebuffer, key matrix and the
//! fetch-decode-execute engine, each with a verified contract.
pub mod display;
pub mod error;
pub mod laws;
pub mod machine;
pub mod memory;
pub mod processor;

pub use display::MMIO;
pub use error::Chip8Error;
pub use machine::StepEvent;
pub use memory::FileDriver;
pub use processor::CPU;
