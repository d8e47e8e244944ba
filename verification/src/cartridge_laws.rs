//! Laws of the cartridge: what the header bytes mean, which bytes of ROM and RAM
//! the CPU sees, and which write sets which register.

use vstd::arithmetic::power2::{lemma_pow2_unfold, pow2};
use vstd::bits::{lemma_usize_pow2_no_overflow, lemma_usize_shl_is_mul};
use vstd::prelude::*;

use crate::cartridge::{
    cartridge_reset, law_rom_sizes, ram_read, ram_write, rom_read, rom_write, rtc_latch, rtc_read,
    rtc_write, type_supported, CartridgeState, MbcType, RtcRegisters,
};

verus! {

/// The byte of ROM at an offset, and 0 where the ROM is shorter.
pub open spec fn rom_byte(rom: Seq<u8>, offset: int) -> u8 {
    if rom.len() > offset {
        rom[offset]
    } else {
        0
    }
}

/// The byte of a memory at an offset, and 0xFF where it is shorter.
pub open spec fn seen(memory: Seq<u8>, offset: int) -> u8 {
    if memory.len() > offset {
        memory[offset]
    } else {
        0xFF
    }
}

// ---- The header ----

/// The byte at 0x0147 selects the controller: an MBC1 exactly where it is 0x01,
/// 0x02 or 0x03, an MBC3 exactly where it is 0x0F, 0x10, 0x11, 0x12 or 0x13, and
/// none for every other value. The supported types are these and 0, so that a
/// supported type other than 0 loads with its banking.
pub proof fn law_controller(rom: Seq<u8>)
    ensures
        ({
            let code = rom_byte(rom, 0x0147);
            let mbc1 = code == 0x01 || code == 0x02 || code == 0x03;
            let mbc3 = code == 0x0F || code == 0x10 || code == 0x11 || code == 0x12 || code
                == 0x13;
            let loaded = cartridge_reset(rom).mbc_type;
            &&& loaded == MbcType::Mbc1 <==> mbc1
            &&& loaded == MbcType::Mbc3 <==> mbc3
            &&& loaded == MbcType::RomOnly <==> !mbc1 && !mbc3
            &&& type_supported(code) <==> code == 0 || mbc1 || mbc3
        }),
{
}

/// The byte at 0x0148 tells the number of ROM banks, two doubled as often as it
/// says. The byte at 0x0149 tells the RAM: 2 KB, 8 KB, 32 KB, 128 KB and 64 KB
/// for 1 to 5, in banks of 8 KB, and none otherwise. It starts out zeroed.
pub proof fn law_header_sizes(rom: Seq<u8>, i: int)
    ensures
        ({
            let c = cartridge_reset(rom);
            let size = rom_byte(rom, 0x0149);
            let banks = rom_byte(rom, 0x0148);
            &&& size == 1 ==> c.ram.len() == 2 * 1024 && c.ram_bank_count == 1
            &&& size == 2 ==> c.ram.len() == 8 * 1024 && c.ram_bank_count == 1
            &&& size == 3 ==> c.ram.len() == 32 * 1024 && c.ram_bank_count == 4
            &&& size == 4 ==> c.ram.len() == 128 * 1024 && c.ram_bank_count == 16
            &&& size == 5 ==> c.ram.len() == 64 * 1024 && c.ram_bank_count == 8
            &&& size == 0 || size > 5 ==> c.ram.len() == 0 && c.ram_bank_count == 0
            &&& 0 <= i < c.ram.len() ==> c.ram[i] == 0
            &&& banks == 0 ==> c.rom_bank_count == 2
            &&& banks == 1 ==> c.rom_bank_count == 4
            &&& banks == 2 ==> c.rom_bank_count == 8
            &&& banks == 3 ==> c.rom_bank_count == 16
            &&& banks == 4 ==> c.rom_bank_count == 32
            &&& banks == 5 ==> c.rom_bank_count == 64
            &&& banks == 6 ==> c.rom_bank_count == 128
            &&& banks == 7 ==> c.rom_bank_count == 256
            &&& banks == 8 ==> c.rom_bank_count == 512
        }),
{
    if rom_byte(rom, 0x0148) <= 8 {
        law_rom_sizes(rom);
    }
}

/// Every step of the byte at 0x0148 doubles the number of ROM banks, up to what
/// the machine can count; there the steps begin anew.
pub proof fn law_rom_banks_double(rom: Seq<u8>)
    ensures
        ({
            let steps = rom_byte(rom, 0x0148) as nat % usize::BITS as nat;
            steps + 1 < usize::BITS ==> cartridge_reset(rom).rom_bank_count == pow2(steps + 1)
        }),
{
    let steps = rom_byte(rom, 0x0148) as nat % usize::BITS as nat;
    if steps + 1 < usize::BITS {
        lemma_usize_pow2_no_overflow(steps + 1);
        lemma_pow2_unfold(steps + 1);
        lemma_usize_shl_is_mul(2, steps as usize);
    }
}

/// A cartridge that was just plugged in shows its first 32 KB and keeps its RAM
/// closed, whatever its controller is.
pub proof fn law_fresh_cartridge(rom: Seq<u8>, address: u16)
    requires
        address < 0x8000,
        rom_byte(rom, 0x0148) <= 8,
    ensures
        rom_read(cartridge_reset(rom), address) == seen(rom, address as int),
        cartridge_reset(rom).rom == rom,
        !cartridge_reset(rom).ram_enabled,
{
    law_header_sizes(rom, 0);
    let count = cartridge_reset(rom).rom_bank_count;
    vstd::arithmetic::div_mod::lemma_small_mod(1, count as nat);
}

/// The registers of a cartridge that was just plugged in: ROM bank 1, RAM bank 0,
/// mode 0, no latch begun, and a clock at zero.
pub proof fn law_fresh_registers(rom: Seq<u8>)
    ensures
        ({
            let c = cartridge_reset(rom);
            &&& c.rom_bank_low == 1
            &&& c.mbc3_rom_bank == 1
            &&& c.ram_bank == 0
            &&& c.mbc3_ram_bank_or_rtc == 0
            &&& c.banking_mode == 0
            &&& c.mbc3_latch_prev == 0xFF
            &&& c.rtc == (RtcRegisters {
                seconds: 0,
                minutes: 0,
                hours: 0,
                day_low: 0,
                day_high: 0,
                latched_seconds: 0,
                latched_minutes: 0,
                latched_hours: 0,
                latched_day_low: 0,
                latched_day_high: 0,
            })
        }),
{
}

// ---- What the CPU sees ----

/// Below 0x4000 the CPU sees the first 16 KB of ROM. From 0x4000 on it sees the
/// second without a controller. An MBC3 shows the bank of its register, and an
/// MBC1 that of its low register plus, in mode 0, 32 times its high one, where a
/// register of 0 counts as 1. Both wrap at the number of banks, where there is one.
pub proof fn law_rom_window(s: CartridgeState, address: u16)
    requires
        address < 0x8000,
    ensures
        ({
            let low = if s.rom_bank_low == 0 {
                1
            } else {
                s.rom_bank_low as int
            };
            let mbc3 = if s.mbc3_rom_bank == 0 {
                1
            } else {
                s.mbc3_rom_bank as int
            };
            let mbc1 = if s.banking_mode == 0 {
                32 * s.ram_bank + low
            } else {
                low
            };
            let wrapped = |bank: int|
                if s.rom_bank_count == 0 {
                    bank
                } else {
                    bank % s.rom_bank_count as int
                };
            let within = address - 0x4000;
            &&& address < 0x4000 ==> rom_read(s, address) == seen(s.rom, address as int)
            &&& address >= 0x4000 ==> rom_read(s, address) == match s.mbc_type {
                MbcType::RomOnly => seen(s.rom, address as int),
                MbcType::Mbc1 => seen(s.rom, 0x4000 * wrapped(mbc1) + within),
                MbcType::Mbc3 => seen(s.rom, 0x4000 * wrapped(mbc3) + within),
            }
        }),
{
}

/// The registers that a write to the ROM area sets. Both controllers open the
/// RAM for a low nibble of 0x0A below 0x2000. An MBC1 takes five bits of the bank
/// below 0x4000, two bits below 0x6000 and its mode below 0x8000. An MBC3 takes
/// seven bits of the bank below 0x4000, and the RAM bank or clock register below
/// 0x6000. Without a controller nothing is set.
pub proof fn law_controller_registers(s: CartridgeState, address: u16, v: u8)
    requires
        address < 0x8000,
    ensures
        ({
            let t = rom_write(s, address, v);
            &&& s.mbc_type == MbcType::RomOnly ==> t == s
            &&& s.mbc_type != MbcType::RomOnly && address < 0x2000 ==> t == (CartridgeState {
                ram_enabled: v % 16 == 10,
                ..s
            })
            &&& s.mbc_type == MbcType::Mbc1 ==> {
                &&& 0x2000 <= address < 0x4000 ==> t == (CartridgeState {
                    rom_bank_low: (v % 32) as u8,
                    ..s
                })
                &&& 0x4000 <= address < 0x6000 ==> t == (CartridgeState {
                    ram_bank: (v % 4) as u8,
                    ..s
                })
                &&& 0x6000 <= address ==> t == (CartridgeState { banking_mode: (v % 2) as u8, ..s })
            }
            &&& s.mbc_type == MbcType::Mbc3 ==> {
                &&& 0x2000 <= address < 0x4000 ==> t == (CartridgeState {
                    mbc3_rom_bank: (v % 128) as u8,
                    ..s
                })
                &&& 0x4000 <= address < 0x6000 ==> t == (CartridgeState {
                    mbc3_ram_bank_or_rtc: v,
                    ..s
                })
                &&& 0x6000 <= address ==> t == (CartridgeState {
                    mbc3_latch_prev: v,
                    rtc: t.rtc,
                    ..s
                })
                &&& 0x6000 <= address && s.mbc3_latch_prev == 0 && v == 1 ==> t.rtc == rtc_latch(
                    s.rtc,
                )
                &&& 0x6000 <= address && (s.mbc3_latch_prev != 0 || v != 1) ==> t.rtc == s.rtc
            }
        }),
{
}

/// Opened RAM shows, from 0xA000 on, bank 0 without a controller and on an MBC1
/// in mode 0, the bank of the high register on an MBC1 in mode 1, and the bank of
/// the low two bits on an MBC3 whose register is below 8. The bank wraps at the
/// number of banks. A write changes the byte that a read at the same address
/// gives, and nothing where there is none.
pub proof fn law_ram_window(s: CartridgeState, address: u16, v: u8)
    requires
        0xA000 <= address < 0xC000,
        s.ram_enabled,
        s.ram_bank_count > 0,
        s.mbc_type == MbcType::Mbc3 ==> s.mbc3_ram_bank_or_rtc < 8,
    ensures
        ({
            let selected = match s.mbc_type {
                MbcType::RomOnly => 0int,
                MbcType::Mbc1 => if s.banking_mode == 1 {
                    s.ram_bank as int
                } else {
                    0int
                },
                MbcType::Mbc3 => s.mbc3_ram_bank_or_rtc as int % 4,
            };
            let offset = 0x2000 * (selected % s.ram_bank_count as int) + (address - 0xA000);
            &&& ram_read(s, address) == seen(s.ram, offset)
            &&& offset < s.ram.len() ==> ram_write(s, address, v) == (CartridgeState {
                ram: s.ram.update(offset, v),
                ..s
            })
            &&& offset >= s.ram.len() ==> ram_write(s, address, v) == s
        }),
{
}

/// Without RAM, the area from 0xA000 on reads 0xFF and takes no write, unless it
/// shows the clock. Closed RAM does the same.
pub proof fn law_no_ram(s: CartridgeState, address: u16, v: u8)
    requires
        s.ram.len() == 0 && !(s.mbc_type == MbcType::Mbc3 && s.mbc3_ram_bank_or_rtc >= 8)
            || !s.ram_enabled,
    ensures
        ram_read(s, address) == 0xFF,
        ram_write(s, address, v) == s,
{
}

/// An opened MBC3 whose register is 8 or more shows the clock instead, at every
/// address.
pub proof fn law_clock_window(s: CartridgeState, address: u16, v: u8)
    requires
        s.mbc_type == MbcType::Mbc3,
        s.ram_enabled,
        s.mbc3_ram_bank_or_rtc >= 8,
    ensures
        ram_read(s, address) == rtc_read(s.rtc, s.mbc3_ram_bank_or_rtc),
        ram_write(s, address, v) == (CartridgeState {
            rtc: rtc_write(s.rtc, s.mbc3_ram_bank_or_rtc, v),
            ..s
        }),
{
}

/// The clock registers 8 to 12 are seconds, minutes, hours and the low and high
/// byte of the day. Writes go to the running registers and reads to the latched
/// ones, which a latch copies from the running ones.
pub proof fn law_clock_registers(s: RtcRegisters, register: u8, v: u8)
    ensures
        rtc_write(s, 8, v) == (RtcRegisters { seconds: v, ..s }),
        rtc_write(s, 9, v) == (RtcRegisters { minutes: v, ..s }),
        rtc_write(s, 10, v) == (RtcRegisters { hours: v, ..s }),
        rtc_write(s, 11, v) == (RtcRegisters { day_low: v, ..s }),
        rtc_write(s, 12, v) == (RtcRegisters { day_high: v, ..s }),
        register < 8 || register > 12 ==> rtc_write(s, register, v) == s && rtc_read(s, register)
            == 0xFF,
        rtc_read(s, 8) == s.latched_seconds,
        rtc_read(s, 9) == s.latched_minutes,
        rtc_read(s, 10) == s.latched_hours,
        rtc_read(s, 11) == s.latched_day_low,
        rtc_read(s, 12) == s.latched_day_high,
        rtc_latch(s) == (RtcRegisters {
            latched_seconds: s.seconds,
            latched_minutes: s.minutes,
            latched_hours: s.hours,
            latched_day_low: s.day_low,
            latched_day_high: s.day_high,
            ..s
        }),
{
}

} // verus!
