//! The cartridge: ROM, external RAM and the memory bank controller.
//!
//! Cartridges without a controller, with an MBC1 and with an MBC3 (clock
//! registers included) are banked. Any other type loads like one without a
//! controller, so only its first two ROM banks can be read.

use vstd::prelude::*;

use crate::bits::lemma_fields;

verus! {

/// The memory bank controller of a cartridge.
#[derive(PartialEq, Eq, Clone, Copy, Debug, Structural)]
pub enum MbcType {
    RomOnly,
    Mbc1,
    Mbc3,
}

/// The clock registers of an MBC3, and the copies that a latch takes of them.
/// The clock does not advance by itself.
#[derive(PartialEq, Eq, Clone, Copy, Debug, Structural)]
pub struct RtcRegisters {
    pub seconds: u8,
    pub minutes: u8,
    pub hours: u8,
    pub day_low: u8,
    pub day_high: u8,
    pub latched_seconds: u8,
    pub latched_minutes: u8,
    pub latched_hours: u8,
    pub latched_day_low: u8,
    pub latched_day_high: u8,
}

/// All clock registers at zero.
pub open spec fn rtc_reset() -> RtcRegisters {
    RtcRegisters {
        seconds: 0,
        minutes: 0,
        hours: 0,
        day_low: 0,
        day_high: 0,
        latched_seconds: 0,
        latched_minutes: 0,
        latched_hours: 0,
        latched_day_low: 0,
        latched_day_high: 0,
    }
}

/// The live registers copied into the latched ones.
pub open spec fn rtc_latch(s: RtcRegisters) -> RtcRegisters {
    RtcRegisters {
        latched_seconds: s.seconds,
        latched_minutes: s.minutes,
        latched_hours: s.hours,
        latched_day_low: s.day_low,
        latched_day_high: s.day_high,
        ..s
    }
}

/// A clock register as it is read: the latched copy.
pub open spec fn rtc_read(s: RtcRegisters, register: u8) -> u8 {
    match register {
        0x08 => s.latched_seconds,
        0x09 => s.latched_minutes,
        0x0A => s.latched_hours,
        0x0B => s.latched_day_low,
        0x0C => s.latched_day_high,
        _ => 0xFF,
    }
}

/// A write to a clock register: it changes the live one.
pub open spec fn rtc_write(s: RtcRegisters, register: u8, value: u8) -> RtcRegisters {
    match register {
        0x08 => RtcRegisters { seconds: value, ..s },
        0x09 => RtcRegisters { minutes: value, ..s },
        0x0A => RtcRegisters { hours: value, ..s },
        0x0B => RtcRegisters { day_low: value, ..s },
        0x0C => RtcRegisters { day_high: value, ..s },
        _ => s,
    }
}

impl RtcRegisters {
    fn zeroed() -> (r: Self)
        ensures
            r == rtc_reset(),
    {
        RtcRegisters {
            seconds: 0,
            minutes: 0,
            hours: 0,
            day_low: 0,
            day_high: 0,
            latched_seconds: 0,
            latched_minutes: 0,
            latched_hours: 0,
            latched_day_low: 0,
            latched_day_high: 0,
        }
    }

    fn latch(&mut self)
        ensures
            *final(self) == rtc_latch(*old(self)),
    {
        self.latched_seconds = self.seconds;
        self.latched_minutes = self.minutes;
        self.latched_hours = self.hours;
        self.latched_day_low = self.day_low;
        self.latched_day_high = self.day_high;
    }

    fn read(&self, register: u8) -> (r: u8)
        ensures
            r == rtc_read(*self, register),
    {
        match register {
            0x08 => self.latched_seconds,
            0x09 => self.latched_minutes,
            0x0A => self.latched_hours,
            0x0B => self.latched_day_low,
            0x0C => self.latched_day_high,
            _ => 0xFF,
        }
    }

    fn write(&mut self, register: u8, value: u8)
        ensures
            *final(self) == rtc_write(*old(self), register, value),
    {
        match register {
            0x08 => self.seconds = value,
            0x09 => self.minutes = value,
            0x0A => self.hours = value,
            0x0B => self.day_low = value,
            0x0C => self.day_high = value,
            _ => {},
        }
    }
}

/// The state of a cartridge.
pub struct CartridgeState {
    pub rom: Seq<u8>,
    pub ram: Seq<u8>,
    pub mbc_type: MbcType,
    /// How many 16 KB banks the header promises; 0 where that number does not
    /// fit the machine.
    pub rom_bank_count: usize,
    /// How many 8 KB banks of RAM the header promises.
    pub ram_bank_count: usize,
    pub ram_enabled: bool,
    /// The low five bits of an MBC1's ROM bank number.
    pub rom_bank_low: u8,
    /// An MBC1's RAM bank number, or the upper bits of its ROM bank number.
    pub ram_bank: u8,
    /// An MBC1's banking mode: 0 banks ROM, 1 banks RAM.
    pub banking_mode: u8,
    pub mbc3_rom_bank: u8,
    /// The RAM bank or the clock register that an MBC3 maps.
    pub mbc3_ram_bank_or_rtc: u8,
    /// The last value written to an MBC3's latch.
    pub mbc3_latch_prev: u8,
    pub rtc: RtcRegisters,
}

impl CartridgeState {
    /// The controller's registers hold no more bits than they have.
    pub open spec fn wf(self) -> bool {
        &&& self.rom_bank_low < 0x20
        &&& self.ram_bank < 4
        &&& self.banking_mode < 2
        &&& self.mbc3_rom_bank < 0x80
    }
}

// ---- The header ----

/// A header byte; 0 where the ROM ends before it.
pub open spec fn header_byte(rom: Seq<u8>, offset: int) -> u8 {
    if offset < rom.len() {
        rom[offset]
    } else {
        0
    }
}

/// Whether the header byte names no controller, an MBC1 or an MBC3.
pub open spec fn type_supported(code: u8) -> bool {
    code == 0 || 0x01 <= code <= 0x03 || 0x0F <= code <= 0x13
}

/// The controller that the header byte at 0x0147 names.
pub open spec fn header_mbc_type(rom: Seq<u8>) -> MbcType {
    let code = header_byte(rom, 0x0147);
    if 0x01 <= code <= 0x03 {
        MbcType::Mbc1
    } else if 0x0F <= code <= 0x13 {
        MbcType::Mbc3
    } else {
        MbcType::RomOnly
    }
}

/// The ROM banks that the header byte at 0x0148 promises: 2 shifted left by
/// it, the shift taken modulo the width of a machine word.
pub open spec fn header_rom_bank_count(rom: Seq<u8>) -> usize {
    2usize << (header_byte(rom, 0x0148) as u32 % usize::BITS)
}

/// The size in bytes and in banks of the external RAM that the header byte at
/// 0x0149 names.
pub open spec fn header_ram_size(rom: Seq<u8>) -> (usize, usize) {
    match header_byte(rom, 0x0149) {
        0x01 => (0x800, 1),
        0x02 => (0x2000, 1),
        0x03 => (0x8000, 4),
        0x04 => (0x20000, 16),
        0x05 => (0x10000, 8),
        _ => (0, 0),
    }
}

/// A cartridge as it is when it is plugged in.
pub open spec fn cartridge_reset(rom: Seq<u8>) -> CartridgeState {
    CartridgeState {
        rom,
        ram: Seq::new(header_ram_size(rom).0 as nat, |i: int| 0u8),
        mbc_type: header_mbc_type(rom),
        rom_bank_count: header_rom_bank_count(rom),
        ram_bank_count: header_ram_size(rom).1,
        ram_enabled: false,
        rom_bank_low: 1,
        ram_bank: 0,
        banking_mode: 0,
        mbc3_rom_bank: 1,
        mbc3_ram_bank_or_rtc: 0,
        mbc3_latch_prev: 0xFF,
        rtc: rtc_reset(),
    }
}

// ---- Banking ----

/// A bank register whose value 0 selects bank 1.
pub open spec fn nonzero_bank(bank: u8) -> int {
    if bank == 0 {
        1
    } else {
        bank as int
    }
}

/// The ROM bank that the registers select, before it is wrapped to the ROM.
pub open spec fn selected_rom_bank(s: CartridgeState) -> int {
    match s.mbc_type {
        MbcType::RomOnly => 1,
        MbcType::Mbc1 => nonzero_bank(s.rom_bank_low) + (if s.banking_mode == 0 {
            s.ram_bank * 32
        } else {
            0
        }),
        MbcType::Mbc3 => nonzero_bank(s.mbc3_rom_bank),
    }
}

/// The ROM bank at 0x4000 to 0x7FFF: the selected one modulo the number of
/// banks. Without a controller it is always bank 1.
pub open spec fn rom_bank(s: CartridgeState) -> int {
    if s.mbc_type == MbcType::RomOnly || s.rom_bank_count == 0 {
        selected_rom_bank(s)
    } else {
        selected_rom_bank(s) % (s.rom_bank_count as int)
    }
}

/// The RAM bank that the registers select, before it is wrapped to the RAM.
pub open spec fn selected_ram_bank(s: CartridgeState) -> int {
    match s.mbc_type {
        MbcType::RomOnly => 0,
        MbcType::Mbc1 => if s.banking_mode == 1 {
            s.ram_bank as int
        } else {
            0
        },
        MbcType::Mbc3 => s.mbc3_ram_bank_or_rtc as int % 4,
    }
}

/// The RAM bank at 0xA000 to 0xBFFF: the selected one modulo the number of
/// banks.
pub open spec fn ram_bank(s: CartridgeState) -> int {
    if s.ram_bank_count == 0 {
        selected_ram_bank(s)
    } else {
        selected_ram_bank(s) % (s.ram_bank_count as int)
    }
}

/// A byte of `memory`; open bus past its end.
pub open spec fn byte_or_open_bus(memory: Seq<u8>, offset: int) -> u8 {
    if offset < memory.len() {
        memory[offset]
    } else {
        0xFF
    }
}

/// The offset into ROM of an address below 0x8000.
pub open spec fn rom_offset(s: CartridgeState, address: u16) -> int {
    if address < 0x4000 {
        address as int
    } else {
        rom_bank(s) * 0x4000 + (address - 0x4000)
    }
}

/// What the CPU reads from the ROM area.
pub open spec fn rom_read(s: CartridgeState, address: u16) -> u8 {
    if address < 0x8000 {
        byte_or_open_bus(s.rom, rom_offset(s, address))
    } else {
        0xFF
    }
}

/// Whether writing `value` to the RAM enable register enables the RAM.
pub open spec fn enables_ram(value: u8) -> bool {
    value % 16 == 0x0A
}

/// A CPU write to the ROM area of an MBC1.
pub open spec fn mbc1_write(s: CartridgeState, address: u16, value: u8) -> CartridgeState {
    if address < 0x2000 {
        CartridgeState { ram_enabled: enables_ram(value), ..s }
    } else if address < 0x4000 {
        CartridgeState { rom_bank_low: value % 32, ..s }
    } else if address < 0x6000 {
        CartridgeState { ram_bank: value % 4, ..s }
    } else if address < 0x8000 {
        CartridgeState { banking_mode: value % 2, ..s }
    } else {
        s
    }
}

/// A CPU write to the ROM area of an MBC3. Writing 0 and then 1 to the latch
/// copies the clock.
pub open spec fn mbc3_write(s: CartridgeState, address: u16, value: u8) -> CartridgeState {
    if address < 0x2000 {
        CartridgeState { ram_enabled: enables_ram(value), ..s }
    } else if address < 0x4000 {
        CartridgeState { mbc3_rom_bank: value % 128, ..s }
    } else if address < 0x6000 {
        CartridgeState { mbc3_ram_bank_or_rtc: value, ..s }
    } else if address < 0x8000 {
        CartridgeState {
            rtc: if s.mbc3_latch_prev == 0 && value == 1 {
                rtc_latch(s.rtc)
            } else {
                s.rtc
            },
            mbc3_latch_prev: value,
            ..s
        }
    } else {
        s
    }
}

/// A CPU write to the ROM area: it sets the controller's registers and never
/// changes ROM.
pub open spec fn rom_write(s: CartridgeState, address: u16, value: u8) -> CartridgeState {
    match s.mbc_type {
        MbcType::RomOnly => s,
        MbcType::Mbc1 => mbc1_write(s, address, value),
        MbcType::Mbc3 => mbc3_write(s, address, value),
    }
}

/// Whether the clock, and not RAM, answers at 0xA000 to 0xBFFF.
pub open spec fn rtc_mapped(s: CartridgeState) -> bool {
    s.mbc_type == MbcType::Mbc3 && s.mbc3_ram_bank_or_rtc >= 0x08
}

/// Whether an access at 0xA000 to 0xBFFF goes to the RAM of the cartridge.
pub open spec fn ram_mapped(s: CartridgeState) -> bool {
    s.ram_enabled && !rtc_mapped(s) && s.ram.len() > 0
}

/// The offset into RAM of an address from 0xA000 to 0xBFFF.
pub open spec fn ram_offset(s: CartridgeState, address: u16) -> int {
    ram_bank(s) * 0x2000 + (address - 0xA000)
}

/// What the CPU reads from the RAM area: open bus where the RAM is disabled
/// or absent.
pub open spec fn ram_read(s: CartridgeState, address: u16) -> u8 {
    if s.ram_enabled && rtc_mapped(s) {
        rtc_read(s.rtc, s.mbc3_ram_bank_or_rtc)
    } else if ram_mapped(s) {
        byte_or_open_bus(s.ram, ram_offset(s, address))
    } else {
        0xFF
    }
}

/// A CPU write to the RAM area: ignored where the RAM is disabled or absent.
pub open spec fn ram_write(s: CartridgeState, address: u16, value: u8) -> CartridgeState {
    if s.ram_enabled && rtc_mapped(s) {
        CartridgeState { rtc: rtc_write(s.rtc, s.mbc3_ram_bank_or_rtc, value), ..s }
    } else if ram_mapped(s) && ram_offset(s, address) < s.ram.len() {
        CartridgeState { ram: s.ram.update(ram_offset(s, address), value), ..s }
    } else {
        s
    }
}

// ---- The cartridge ----

pub struct Cartridge {
    rom: Vec<u8>,
    ram: Vec<u8>,
    mbc_type: MbcType,
    rom_bank_count: usize,
    ram_bank_count: usize,
    ram_enabled: bool,
    rom_bank_low: u8,
    ram_bank: u8,
    banking_mode: u8,
    mbc3_rom_bank: u8,
    mbc3_ram_bank_or_rtc: u8,
    mbc3_latch_prev: u8,
    rtc: RtcRegisters,
}

impl View for Cartridge {
    type V = CartridgeState;

    closed spec fn view(&self) -> CartridgeState {
        CartridgeState {
            rom: self.rom@,
            ram: self.ram@,
            mbc_type: self.mbc_type,
            rom_bank_count: self.rom_bank_count,
            ram_bank_count: self.ram_bank_count,
            ram_enabled: self.ram_enabled,
            rom_bank_low: self.rom_bank_low,
            ram_bank: self.ram_bank,
            banking_mode: self.banking_mode,
            mbc3_rom_bank: self.mbc3_rom_bank,
            mbc3_ram_bank_or_rtc: self.mbc3_ram_bank_or_rtc,
            mbc3_latch_prev: self.mbc3_latch_prev,
            rtc: self.rtc,
        }
    }
}

/// The byte of `memory` at `offset`, or `default` past the end.
fn get_or(memory: &Vec<u8>, offset: usize, default: u8) -> (r: u8)
    ensures
        r == (if offset < memory@.len() {
            memory@[offset as int]
        } else {
            default
        }),
{
    if offset < memory.len() {
        memory[offset]
    } else {
        default
    }
}

impl Cartridge {
    /// Builds the cartridge whose ROM image is `rom`.
    pub fn load(rom: Vec<u8>) -> (r: Self)
        ensures
            r@ == cartridge_reset(rom@),
            r@.wf(),
    {
        let mbc_type = Self::mbc_type_from_header(&rom);
        let rom_bank_count: usize = Self::rom_bank_count_from_header(&rom);
        let (ram_size, ram_bank_count): (usize, usize) = Self::ram_size_from_header(&rom);
        let ghost image = rom@;
        let r = Cartridge {
            rom,
            ram: vec![0; ram_size],
            mbc_type,
            rom_bank_count,
            ram_bank_count,
            ram_enabled: false,
            rom_bank_low: 1,
            ram_bank: 0,
            banking_mode: 0,
            mbc3_rom_bank: 1,
            mbc3_ram_bank_or_rtc: 0,
            mbc3_latch_prev: 0xFF,
            rtc: RtcRegisters::zeroed(),
        };
        proof {
            assert(r@.ram =~= cartridge_reset(image).ram);
        }
        r
    }

    /// The cartridge type at 0x0147 where it is one that loads without its
    /// banking.
    pub fn unbanked_type(rom: &Vec<u8>) -> (r: Option<u8>)
        ensures
            r == (if type_supported(header_byte(rom@, 0x0147)) {
                None::<u8>
            } else {
                Some(header_byte(rom@, 0x0147))
            }),
    {
        match get_or(rom, 0x0147, 0) {
            0x00 | 0x01..=0x03 | 0x0F..=0x13 => None,
            other => Some(other),
        }
    }

    fn mbc_type_from_header(rom: &Vec<u8>) -> (r: MbcType)
        ensures
            r == header_mbc_type(rom@),
    {
        match get_or(rom, 0x0147, 0) {
            0x00 => MbcType::RomOnly,
            0x01..=0x03 => MbcType::Mbc1,
            0x0F..=0x13 => MbcType::Mbc3,
            _ => MbcType::RomOnly,
        }
    }

    fn rom_bank_count_from_header(rom: &Vec<u8>) -> (r: usize)
        ensures
            r == header_rom_bank_count(rom@),
    {
        let code: u8 = get_or(rom, 0x0148, 0);
        2usize.wrapping_shl(code as u32)
    }

    fn ram_size_from_header(rom: &Vec<u8>) -> (r: (usize, usize))
        ensures
            r == header_ram_size(rom@),
    {
        match get_or(rom, 0x0149, 0) {
            0x00 => (0, 0),
            0x01 => (0x800, 1),
            0x02 => (0x2000, 1),
            0x03 => (0x8000, 4),
            0x04 => (0x20000, 16),
            0x05 => (0x10000, 8),
            _ => (0, 0),
        }
    }

    /// The ROM bank at 0x4000 to 0x7FFF.
    fn current_rom_bank(&self) -> (r: usize)
        requires
            self@.wf(),
        ensures
            r == rom_bank(self@),
            r < 0x80,
    {
        let bank: usize = match self.mbc_type {
            MbcType::RomOnly => {
                return 1;
            },
            MbcType::Mbc1 => {
                let mut low: u8 = self.rom_bank_low & 0x1F;
                proof {
                    lemma_fields(self.rom_bank_low);
                }
                if low == 0 {
                    low = 1;
                }
                if self.banking_mode == 0 {
                    proof {
                        lemma_join_bank(self.ram_bank as usize, low as usize);
                    }
                    ((self.ram_bank as usize) << 5) | low as usize
                } else {
                    low as usize
                }
            },
            MbcType::Mbc3 => {
                let bank: u8 = self.mbc3_rom_bank & 0x7F;
                proof {
                    lemma_fields(self.mbc3_rom_bank);
                }
                if bank == 0 {
                    1
                } else {
                    bank as usize
                }
            },
        };
        if self.rom_bank_count == 0 {
            bank
        } else {
            proof {
                vstd::arithmetic::div_mod::lemma_mod_decreases(
                    bank as nat,
                    self.rom_bank_count as nat,
                );
            }
            bank % self.rom_bank_count
        }
    }

    /// The RAM bank at 0xA000 to 0xBFFF.
    fn current_ram_bank(&self) -> (r: usize)
        requires
            self@.wf(),
        ensures
            r == ram_bank(self@),
            r < 4,
    {
        let bank: usize = match self.mbc_type {
            MbcType::Mbc1 if self.banking_mode == 1 => self.ram_bank as usize,
            MbcType::Mbc3 => {
                proof {
                    lemma_fields(self.mbc3_ram_bank_or_rtc);
                }
                (self.mbc3_ram_bank_or_rtc & 0x03) as usize
            },
            _ => 0,
        };
        if self.ram_bank_count == 0 {
            bank
        } else {
            proof {
                vstd::arithmetic::div_mod::lemma_mod_decreases(
                    bank as nat,
                    self.ram_bank_count as nat,
                );
            }
            bank % self.ram_bank_count
        }
    }

    /// Reads the ROM area. The address is the one the CPU sees.
    pub fn read(&self, address: u16) -> (r: u8)
        requires
            self@.wf(),
        ensures
            r == rom_read(self@, address),
    {
        match address {
            0x0000..=0x3FFF => get_or(&self.rom, address as usize, 0xFF),
            0x4000..=0x7FFF => {
                let bank: usize = self.current_rom_bank();
                let offset: usize = bank * 0x4000 + (address - 0x4000) as usize;
                get_or(&self.rom, offset, 0xFF)
            },
            _ => 0xFF,
        }
    }

    /// Writes the ROM area, which sets the controller's registers.
    pub fn write(&mut self, address: u16, value: u8)
        requires
            old(self)@.wf(),
        ensures
            final(self)@ == rom_write(old(self)@, address, value),
            final(self)@.wf(),
    {
        match self.mbc_type {
            MbcType::RomOnly => {},
            MbcType::Mbc1 => self.write_mbc1(address, value),
            MbcType::Mbc3 => self.write_mbc3(address, value),
        }
    }

    fn write_mbc1(&mut self, address: u16, value: u8)
        requires
            old(self)@.wf(),
        ensures
            final(self)@ == mbc1_write(old(self)@, address, value),
            final(self)@.wf(),
    {
        proof {
            lemma_fields(value);
        }
        match address {
            0x0000..=0x1FFF => {
                self.ram_enabled = (value & 0x0F) == 0x0A;
            },
            0x2000..=0x3FFF => {
                self.rom_bank_low = value & 0x1F;
            },
            0x4000..=0x5FFF => {
                self.ram_bank = value & 0x03;
            },
            0x6000..=0x7FFF => {
                self.banking_mode = value & 0x01;
            },
            _ => {},
        }
    }

    fn write_mbc3(&mut self, address: u16, value: u8)
        requires
            old(self)@.wf(),
        ensures
            final(self)@ == mbc3_write(old(self)@, address, value),
            final(self)@.wf(),
    {
        proof {
            lemma_fields(value);
        }
        match address {
            0x0000..=0x1FFF => {
                self.ram_enabled = (value & 0x0F) == 0x0A;
            },
            0x2000..=0x3FFF => {
                self.mbc3_rom_bank = value & 0x7F;
            },
            0x4000..=0x5FFF => {
                self.mbc3_ram_bank_or_rtc = value;
            },
            0x6000..=0x7FFF => {
                if self.mbc3_latch_prev == 0x00 && value == 0x01 {
                    self.rtc.latch();
                }
                self.mbc3_latch_prev = value;
            },
            _ => {},
        }
    }

    /// Reads the RAM area. The address is the one the CPU sees.
    pub fn read_ram(&self, address: u16) -> (r: u8)
        requires
            self@.wf(),
            ram_mapped(self@) ==> address >= 0xA000,
        ensures
            r == ram_read(self@, address),
    {
        if !self.ram_enabled {
            return 0xFF;
        }
        if self.mbc_type == MbcType::Mbc3 && self.mbc3_ram_bank_or_rtc >= 0x08 {
            return self.rtc.read(self.mbc3_ram_bank_or_rtc);
        }
        if self.ram.len() == 0 {
            return 0xFF;
        }
        let bank: usize = self.current_ram_bank();
        let offset: usize = bank * 0x2000 + (address - 0xA000) as usize;
        get_or(&self.ram, offset, 0xFF)
    }

    /// Writes the RAM area.
    pub fn write_ram(&mut self, address: u16, value: u8)
        requires
            old(self)@.wf(),
            ram_mapped(old(self)@) ==> address >= 0xA000,
        ensures
            final(self)@ == ram_write(old(self)@, address, value),
            final(self)@.wf(),
    {
        if !self.ram_enabled {
            return ;
        }
        if self.mbc_type == MbcType::Mbc3 && self.mbc3_ram_bank_or_rtc >= 0x08 {
            self.rtc.write(self.mbc3_ram_bank_or_rtc, value);
            return ;
        }
        if self.ram.len() == 0 {
            return ;
        }
        let bank: usize = self.current_ram_bank();
        let offset: usize = bank * 0x2000 + (address - 0xA000) as usize;
        if offset < self.ram.len() {
            self.ram[offset] = value;
        }
    }
}

/// Joining the two parts of an MBC1 bank number adds them.
proof fn lemma_join_bank(high: usize, low: usize)
    requires
        high < 4,
        low < 32,
    ensures
        (high << 5) | low == high * 32 + low,
{
    assert((high << 5) | low == high * 32 + low) by (bit_vector)
        requires
            high < 4,
            low < 32,
    ;
}

// ---- Laws ----

/// Writes to the ROM area and to the RAM area keep the controller's registers
/// in range, and change neither the ROM, the type, nor the size of the RAM.
pub proof fn law_writes_keep(s: CartridgeState, address: u16, value: u8)
    requires
        s.wf(),
    ensures
        rom_write(s, address, value).wf(),
        rom_write(s, address, value).rom == s.rom,
        rom_write(s, address, value).ram == s.ram,
        rom_write(s, address, value).mbc_type == s.mbc_type,
        ram_write(s, address, value).wf(),
        ram_write(s, address, value).rom == s.rom,
        0xA000 <= address ==> ram_write(s, address, value).ram.len() == s.ram.len(),
        ram_write(s, address, value).mbc_type == s.mbc_type,
{
}

/// A cartridge of a type that is not supported loads like one without a
/// controller.
pub proof fn law_unsupported_types(rom: Seq<u8>)
    requires
        !type_supported(header_byte(rom, 0x0147)),
    ensures
        cartridge_reset(rom).mbc_type == MbcType::RomOnly,
        !cartridge_reset(rom).ram_enabled,
{
}

/// A ROM size code `n` stands for 32 KB shifted left by `n`: two banks, and
/// twice as many with every step.
pub proof fn law_rom_sizes(rom: Seq<u8>)
    requires
        header_byte(rom, 0x0148) <= 8,
    ensures
        ({
            let count = header_rom_bank_count(rom);
            match header_byte(rom, 0x0148) {
                0 => count == 2,
                1 => count == 4,
                2 => count == 8,
                3 => count == 16,
                4 => count == 32,
                5 => count == 64,
                6 => count == 128,
                7 => count == 256,
                _ => count == 512,
            }
        }),
{
    let code = header_byte(rom, 0x0148) as u32;
    assert(code % usize::BITS == code);
    assert(2usize << 0u32 == 2 && 2usize << 1u32 == 4 && 2usize << 2u32 == 8 && 2usize << 3u32 == 16
        && 2usize << 4u32 == 32 && 2usize << 5u32 == 64 && 2usize << 6u32 == 128 && 2usize << 7u32
        == 256 && 2usize << 8u32 == 512) by (bit_vector);
}

/// No write switches the first 16 KB of ROM, and without a controller none
/// switches the second either.
pub proof fn law_fixed_banks(s: CartridgeState, written: u16, value: u8, address: u16)
    requires
        address < 0x8000,
        address < 0x4000 || s.mbc_type == MbcType::RomOnly,
    ensures
        rom_read(s, address) == byte_or_open_bus(s.rom, address as int),
        rom_read(rom_write(s, written, value), address) == rom_read(s, address),
{
}

/// Selecting ROM bank 0 selects bank 1. On an MBC1 this goes by the low five
/// bits alone, so the banks 0x20, 0x40 and 0x60 cannot be reached either.
pub proof fn law_bank_zero(s: CartridgeState, address: u16, value: u8)
    requires
        0x2000 <= address < 0x4000,
        s.mbc_type == MbcType::Mbc1 && value % 32 == 0 || s.mbc_type == MbcType::Mbc3 && value % 128
            == 0,
    ensures
        rom_bank(rom_write(s, address, value)) == rom_bank(rom_write(s, address, 1)),
{
}

/// A bank number written to an MBC3 that the ROM has is the bank read from
/// 0x4000 on.
pub proof fn law_mbc3_bank(s: CartridgeState, register: u16, bank: u8, address: u16)
    requires
        s.mbc_type == MbcType::Mbc3,
        0x2000 <= register < 0x4000,
        0 < bank < 0x80,
        bank < s.rom_bank_count,
        0x4000 <= address < 0x8000,
    ensures
        rom_read(rom_write(s, register, bank), address) == byte_or_open_bus(
            s.rom,
            bank * 0x4000 + (address - 0x4000),
        ),
{
    vstd::arithmetic::div_mod::lemma_small_mod(bank as nat, s.rom_bank_count as nat);
}

/// The two registers of an MBC1 select a bank together while mode 0 is set.
pub proof fn law_mbc1_bank(s: CartridgeState, low: u8, high: u8, address: u16)
    requires
        s.mbc_type == MbcType::Mbc1,
        s.banking_mode == 0,
        0 < low < 0x20,
        high < 4,
        high * 0x20 + low < s.rom_bank_count,
        0x4000 <= address < 0x8000,
    ensures
        rom_read(rom_write(rom_write(s, 0x2000, low), 0x4000, high), address) == byte_or_open_bus(
            s.rom,
            (high * 0x20 + low) * 0x4000 + (address - 0x4000),
        ),
{
    vstd::arithmetic::div_mod::lemma_small_mod(
        (high * 0x20 + low) as nat,
        s.rom_bank_count as nat,
    );
}

/// Writing 0x0A to the lowest register enables the RAM, writing any other low
/// nibble disables it.
pub proof fn law_ram_gate(s: CartridgeState, address: u16, value: u8)
    requires
        s.mbc_type != MbcType::RomOnly,
        address < 0x2000,
    ensures
        rom_write(s, address, value).ram_enabled == (value % 16 == 0x0A),
{
}

/// While the RAM is disabled it reads 0xFF and keeps what it holds.
pub proof fn law_ram_disabled(s: CartridgeState, address: u16, value: u8)
    requires
        !s.ram_enabled,
    ensures
        ram_read(s, address) == 0xFF,
        ram_write(s, address, value) == s,
{
}

/// Where RAM answers at an address, it reads back what was written there, and
/// a write changes no other address.
pub proof fn law_ram_read_back(s: CartridgeState, a: u16, b: u16, value: u8)
    requires
        s.wf(),
        ram_mapped(s),
        0xA000 <= a < 0xC000,
        0xA000 <= b < 0xC000,
        ram_offset(s, a) < s.ram.len(),
    ensures
        ram_read(ram_write(s, a, value), a) == value,
        a != b ==> ram_read(ram_write(s, a, value), b) == ram_read(s, b),
{
}

/// Selecting a RAM bank that the cartridge does not have selects the bank that
/// its number is modulo the number of banks: both read alike, and what is
/// written through one is read through the other.
pub proof fn law_ram_banks_wrap(s: CartridgeState, bank: u8, address: u16, value: u8)
    requires
        s.wf(),
        s.mbc_type == MbcType::Mbc1 && s.banking_mode == 1 || s.mbc_type == MbcType::Mbc3,
        s.ram_enabled,
        0 < s.ram_bank_count,
        bank < 4,
        0xA000 <= address < 0xC000,
    ensures
        ({
            let wrapped = (bank as int % s.ram_bank_count as int) as u8;
            let through = rom_write(s, 0x4000, bank);
            let direct = rom_write(s, 0x4000, wrapped);
            &&& ram_read(through, address) == ram_read(direct, address)
            &&& ram_offset(direct, address) < s.ram.len() ==> ram_read(
                rom_write(ram_write(through, address, value), 0x4000, wrapped),
                address,
            ) == value
        }),
{
    let count = s.ram_bank_count as int;
    let wrapped = bank as int % count;
    vstd::arithmetic::div_mod::lemma_mod_decreases(bank as nat, s.ram_bank_count as nat);
    vstd::arithmetic::div_mod::lemma_small_mod(wrapped as nat, s.ram_bank_count as nat);
    let through = rom_write(s, 0x4000, bank);
    let direct = rom_write(s, 0x4000, wrapped as u8);
    assert(ram_bank(through) == wrapped);
    assert(ram_bank(direct) == wrapped);
}

/// The RAM banks of an MBC3 are separate: what was written to one is still
/// there after the same address of another was written.
pub proof fn law_ram_banks_separate(s: CartridgeState, p: u8, q: u8, address: u16, v: u8, w: u8)
    requires
        s.wf(),
        s.mbc_type == MbcType::Mbc3,
        s.ram_enabled,
        s.ram.len() == s.ram_bank_count * 0x2000,
        p < 4,
        q < 4,
        p < s.ram_bank_count,
        q < s.ram_bank_count,
        p != q,
        0xA000 <= address < 0xC000,
    ensures
        ({
            let first = ram_write(rom_write(s, 0x4000, p), address, v);
            let second = ram_write(rom_write(first, 0x4000, q), address, w);
            &&& ram_read(second, address) == w
            &&& ram_read(rom_write(second, 0x4000, p), address) == v
        }),
{
    let in_p = rom_write(s, 0x4000, p);
    let first = ram_write(in_p, address, v);
    let in_q = rom_write(first, 0x4000, q);
    vstd::arithmetic::div_mod::lemma_small_mod(p as nat, s.ram_bank_count as nat);
    vstd::arithmetic::div_mod::lemma_small_mod(q as nat, s.ram_bank_count as nat);
    assert(ram_offset(in_p, address) == p * 0x2000 + (address - 0xA000));
    assert(ram_offset(in_q, address) == q * 0x2000 + (address - 0xA000));
}

/// The clock is read as it was latched: a write to a register changes no
/// reading until writing 0 and then 1 to the latch takes the copies.
pub proof fn law_rtc_latch(s: CartridgeState, register: u8, value: u8, address: u16)
    requires
        s.mbc_type == MbcType::Mbc3,
        s.ram_enabled,
        0x08 <= register <= 0x0C,
        0xA000 <= address < 0xC000,
    ensures
        ({
            let mapped = rom_write(s, 0x4000, register);
            let written = ram_write(mapped, address, value);
            let latched = rom_write(rom_write(written, 0x6000, 0), 0x6000, 1);
            &&& ram_read(written, address) == ram_read(mapped, address)
            &&& ram_read(latched, address) == value
        }),
{
}

} // verus!
