pub mod cpu;
pub mod cpu_laws;
pub mod emulator;
pub mod opcode;
mod random;
pub mod screen;
