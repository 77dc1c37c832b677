pub mod cpu;
pub mod laws;
pub mod memory;
