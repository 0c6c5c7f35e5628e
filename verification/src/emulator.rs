pub mod cpu;
pub mod instructions;
pub mod io;
pub mod laws;
