//! The hardware of a hand-held game console with an 8-bit processor.

pub mod bits;
pub mod bus;
pub mod bus_laws;
pub mod cartridge;
pub mod cartridge_laws;
pub mod channels;
pub mod cpu;
pub mod cpu_laws;
pub mod host;
pub mod isa;
pub mod isa_laws;
pub mod joypad;
pub mod picture_laws;
pub mod ppu;
pub mod scanline;
pub mod sound;
pub mod sound_laws;
