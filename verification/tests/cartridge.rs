use gameboy::cartridge::Cartridge;

/// A ROM of `banks` banks. Every byte of a bank holds the bank's number, but
/// for the header.
fn rom(code: u8, banks: usize, rom_size: u8, ram_size: u8) -> Vec<u8> {
    let mut rom = Vec::new();
    for bank in 0..banks {
        for _ in 0..0x4000 {
            rom.push(bank as u8);
        }
    }
    rom[0x0147] = code;
    rom[0x0148] = rom_size;
    rom[0x0149] = ram_size;
    rom
}

#[test]
fn rom_only_reads_two_banks() {
    let mut cartridge = Cartridge::load(rom(0x00, 2, 0, 0));
    assert_eq!(cartridge.read(0x0000), 0);
    assert_eq!(cartridge.read(0x4000), 1);
    assert_eq!(cartridge.read(0x7FFF), 1);
    cartridge.write(0x2000, 0x00);
    cartridge.write(0x0000, 0x0A);
    assert_eq!(cartridge.read(0x4000), 1);
    assert_eq!(cartridge.read_ram(0xA000), 0xFF);
}

#[test]
fn reads_past_the_rom_are_open_bus() {
    let cartridge = Cartridge::load(vec![0x11, 0x22]);
    assert_eq!(cartridge.read(0x0001), 0x22);
    assert_eq!(cartridge.read(0x0002), 0xFF);
    assert_eq!(cartridge.read(0x4000), 0xFF);
    let empty = Cartridge::load(vec![]);
    assert_eq!(empty.read(0x0000), 0xFF);
    assert_eq!(empty.read(0x8000), 0xFF);
}

#[test]
fn unbanked_types_are_named() {
    for code in [0x00u8, 0x01, 0x02, 0x03, 0x0F, 0x10, 0x11, 0x12, 0x13] {
        assert_eq!(Cartridge::unbanked_type(&rom(code, 2, 0, 0)), None);
    }
    for code in [0x04u8, 0x05, 0x08, 0x0E, 0x14, 0x19, 0xFF] {
        assert_eq!(Cartridge::unbanked_type(&rom(code, 2, 0, 0)), Some(code));
    }
    assert_eq!(Cartridge::unbanked_type(&vec![]), None);
}

#[test]
fn unbanked_types_load_like_rom_only() {
    let mut cartridge = Cartridge::load(rom(0x19, 4, 1, 3));
    cartridge.write(0x2000, 0x02);
    cartridge.write(0x0000, 0x0A);
    assert_eq!(cartridge.read(0x4000), 1);
    assert_eq!(cartridge.read_ram(0xA000), 0xFF);
}

#[test]
fn mbc1_switches_rom_banks() {
    let mut cartridge = Cartridge::load(rom(0x01, 128, 6, 0));
    assert_eq!(cartridge.read(0x4000), 1);
    cartridge.write(0x2000, 0x12);
    assert_eq!(cartridge.read(0x4000), 0x12);
    assert_eq!(cartridge.read(0x3FFF), 0);
    // Only five bits count.
    cartridge.write(0x3FFF, 0xE3);
    assert_eq!(cartridge.read(0x4000), 0x03);
    // The second register holds the upper two bits.
    cartridge.write(0x4000, 0x02);
    assert_eq!(cartridge.read(0x7FFF), 0x43);
    // In mode 1 it does not.
    cartridge.write(0x6000, 0x01);
    assert_eq!(cartridge.read(0x4000), 0x03);
}

#[test]
fn bank_zero_selects_bank_one() {
    let mut mbc1 = Cartridge::load(rom(0x01, 128, 6, 0));
    mbc1.write(0x2000, 0x00);
    assert_eq!(mbc1.read(0x4000), 0x01);
    mbc1.write(0x4000, 0x01);
    assert_eq!(mbc1.read(0x4000), 0x21);
    let mut mbc3 = Cartridge::load(rom(0x11, 128, 6, 0));
    mbc3.write(0x2000, 0x80);
    assert_eq!(mbc3.read(0x4000), 0x01);
    mbc3.write(0x2000, 0x20);
    assert_eq!(mbc3.read(0x4000), 0x20);
}

#[test]
fn bank_numbers_wrap_to_the_rom() {
    let mut cartridge = Cartridge::load(rom(0x01, 4, 1, 0));
    cartridge.write(0x2000, 0x07);
    assert_eq!(cartridge.read(0x4000), 0x03);
    cartridge.write(0x2000, 0x04);
    assert_eq!(cartridge.read(0x4000), 0x00);
}

#[test]
fn mbc3_switches_rom_banks() {
    let mut cartridge = Cartridge::load(rom(0x13, 128, 6, 3));
    for bank in 1..128u8 {
        cartridge.write(0x2000, bank);
        assert_eq!(cartridge.read(0x5000), bank);
    }
}

#[test]
fn ram_is_enabled_by_0a() {
    let mut cartridge = Cartridge::load(rom(0x03, 2, 0, 2));
    cartridge.write_ram(0xA000, 0x42);
    assert_eq!(cartridge.read_ram(0xA000), 0xFF);
    cartridge.write(0x0000, 0x0A);
    assert_eq!(cartridge.read_ram(0xA000), 0x00);
    cartridge.write_ram(0xA000, 0x42);
    cartridge.write_ram(0xBFFF, 0x43);
    assert_eq!(cartridge.read_ram(0xA000), 0x42);
    assert_eq!(cartridge.read_ram(0xBFFF), 0x43);
    cartridge.write(0x1FFF, 0x0B);
    assert_eq!(cartridge.read_ram(0xA000), 0xFF);
    cartridge.write(0x0000, 0xFA);
    assert_eq!(cartridge.read_ram(0xA000), 0x42);
}

#[test]
fn small_ram_ends_in_open_bus() {
    let mut cartridge = Cartridge::load(rom(0x03, 2, 0, 1));
    cartridge.write(0x0000, 0x0A);
    cartridge.write_ram(0xA7FF, 0x11);
    cartridge.write_ram(0xA800, 0x22);
    assert_eq!(cartridge.read_ram(0xA7FF), 0x11);
    assert_eq!(cartridge.read_ram(0xA800), 0xFF);
    let mut without = Cartridge::load(rom(0x01, 2, 0, 0));
    without.write(0x0000, 0x0A);
    without.write_ram(0xA000, 0x33);
    assert_eq!(without.read_ram(0xA000), 0xFF);
}

#[test]
fn mbc1_banks_ram_in_mode_one() {
    let mut cartridge = Cartridge::load(rom(0x03, 2, 0, 3));
    cartridge.write(0x0000, 0x0A);
    cartridge.write(0x6000, 0x01);
    for bank in 0..4u8 {
        cartridge.write(0x4000, bank);
        cartridge.write_ram(0xA123, 0x50 + bank);
    }
    for bank in 0..4u8 {
        cartridge.write(0x4000, bank);
        assert_eq!(cartridge.read_ram(0xA123), 0x50 + bank);
    }
    // Mode 0 fixes the RAM to bank 0.
    cartridge.write(0x6000, 0x00);
    assert_eq!(cartridge.read_ram(0xA123), 0x50);
}

#[test]
fn ram_bank_numbers_wrap_to_the_ram() {
    // One bank of 8 KB: bank 2 is bank 0.
    let mut cartridge = Cartridge::load(rom(0x03, 2, 0, 2));
    cartridge.write(0x0000, 0x0A);
    cartridge.write(0x6000, 0x01);
    cartridge.write(0x4000, 0x02);
    cartridge.write_ram(0xA000, 0x5A);
    assert_eq!(cartridge.read_ram(0xA000), 0x5A);
    cartridge.write(0x4000, 0x00);
    assert_eq!(cartridge.read_ram(0xA000), 0x5A);
    // The same with an MBC3.
    let mut cartridge = Cartridge::load(rom(0x13, 2, 0, 2));
    cartridge.write(0x0000, 0x0A);
    cartridge.write(0x4000, 0x03);
    cartridge.write_ram(0xBFFF, 0xA5);
    cartridge.write(0x4000, 0x01);
    assert_eq!(cartridge.read_ram(0xBFFF), 0xA5);
}

#[test]
fn mbc3_ram_banks_are_separate() {
    let mut cartridge = Cartridge::load(rom(0x13, 2, 0, 3));
    cartridge.write(0x0000, 0x0A);
    for bank in 0..4u8 {
        cartridge.write(0x4000, bank);
        cartridge.write_ram(0xB000, 0x60 + bank);
    }
    for bank in 0..4u8 {
        cartridge.write(0x4000, bank);
        assert_eq!(cartridge.read_ram(0xB000), 0x60 + bank);
    }
}

#[test]
fn the_clock_reads_what_was_latched() {
    let mut cartridge = Cartridge::load(rom(0x0F, 2, 0, 0));
    cartridge.write(0x0000, 0x0A);
    for register in 0x08..=0x0Cu8 {
        cartridge.write(0x4000, register);
        cartridge.write_ram(0xA000, register * 3);
        assert_eq!(cartridge.read_ram(0xA000), 0x00);
    }
    // A first 1 does not latch, 0 and then 1 does.
    cartridge.write(0x6000, 0x01);
    assert_eq!(cartridge.read_ram(0xA000), 0x00);
    cartridge.write(0x6000, 0x00);
    cartridge.write(0x6000, 0x01);
    for register in 0x08..=0x0Cu8 {
        cartridge.write(0x4000, register);
        assert_eq!(cartridge.read_ram(0xA000), register * 3);
        cartridge.write_ram(0xA000, 0x00);
        assert_eq!(cartridge.read_ram(0xBFFF), register * 3);
    }
    cartridge.write(0x4000, 0x0D);
    assert_eq!(cartridge.read_ram(0xA000), 0xFF);
    cartridge.write(0x0000, 0x00);
    cartridge.write(0x4000, 0x08);
    assert_eq!(cartridge.read_ram(0xA000), 0xFF);
}
