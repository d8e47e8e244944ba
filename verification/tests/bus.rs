use gameboy::bus::{Bus, ConsoleEvent};
use gameboy::cartridge::Cartridge;
use gameboy::joypad::Button;

fn bus() -> Bus {
    Bus::new(Cartridge::load(vec![0x5A; 0x8000]), 44_100)
}

// ---- The address map ----

#[test]
fn ram_reads_back() {
    let mut bus = bus();
    for address in [0xC000u16, 0xCFFF, 0xDFFF, 0xFF80, 0xFFFE] {
        bus.write_byte(address, 0xA7);
        assert_eq!(bus.read_byte(address), 0xA7);
        assert_eq!(bus.read_byte(address ^ 1), 0x00);
        bus.write_byte(address, 0x00);
    }
}

#[test]
fn echo_ram_mirrors_work_ram() {
    let mut bus = bus();
    bus.write_byte(0xC123, 0x11);
    assert_eq!(bus.read_byte(0xE123), 0x11);
    bus.write_byte(0xFDFF, 0x22);
    assert_eq!(bus.read_byte(0xDDFF), 0x22);
}

#[test]
fn rom_is_not_written() {
    let mut bus = bus();
    bus.write_byte(0x0000, 0x00);
    bus.write_byte(0x7FFF, 0x00);
    assert_eq!(bus.read_byte(0x0000), 0x5A);
    assert_eq!(bus.read_byte(0x7FFF), 0x5A);
}

#[test]
fn the_unusable_area_is_open_bus() {
    let mut bus = bus();
    bus.write_byte(0xFEA0, 0x12);
    bus.write_byte(0xFEFF, 0x12);
    assert_eq!(bus.read_byte(0xFEA0), 0xFF);
    assert_eq!(bus.read_byte(0xFEFF), 0xFF);
}

#[test]
fn other_io_registers_are_plain_bytes() {
    let mut bus = bus();
    for address in [0xFF01u16, 0xFF03, 0xFF27, 0xFF4C, 0xFF7F] {
        assert_eq!(bus.read_byte(address), 0x00);
        bus.write_byte(address, 0x9C);
        assert_eq!(bus.read_byte(address), 0x9C);
    }
}

#[test]
fn video_memory_is_on_the_bus() {
    let mut bus = bus();
    bus.write_byte(0x8000, 0x77);
    assert_eq!(bus.read_byte(0x8000), 0x77);
    assert_eq!(bus.read_byte(0xFF40), 0x91);
    bus.write_byte(0xFF42, 0x31);
    assert_eq!(bus.read_byte(0xFF42), 0x31);
    // OAM is locked at power-on, while the first line is scanned.
    assert_eq!(bus.read_byte(0xFE00), 0xFF);
    // Drawing locks VRAM too.
    bus.tick(80);
    assert_eq!(bus.read_byte(0x8000), 0xFF);
    bus.tick(172);
    assert_eq!(bus.read_byte(0x8000), 0x77);
    assert_eq!(bus.read_byte(0xFE00), 0x00);
}

#[test]
fn dma_fills_oam() {
    let mut bus = bus();
    for i in 0..0xA0u16 {
        bus.write_byte(0xC100 + i, i as u8 ^ 0x33);
    }
    // OAM is locked for the processor, and not for the transfer.
    bus.write_byte(0xFF46, 0xC1);
    bus.tick(252);
    for i in 0..0xA0u16 {
        assert_eq!(bus.read_byte(0xFE00 + i), i as u8 ^ 0x33);
    }
    assert_eq!(bus.read_byte(0xFF46), 0x00);
}

// ---- Timer ----

#[test]
fn div_is_the_high_byte_of_a_counter() {
    let mut bus = bus();
    bus.tick(255);
    assert_eq!(bus.read_byte(0xFF04), 0);
    bus.tick(1);
    assert_eq!(bus.read_byte(0xFF04), 1);
    bus.tick(256 * 255);
    assert_eq!(bus.read_byte(0xFF04), 0);
    bus.tick(700);
    assert_eq!(bus.read_byte(0xFF04), 2);
    bus.write_byte(0xFF04, 0x55);
    assert_eq!(bus.read_byte(0xFF04), 0);
    bus.tick(255);
    assert_eq!(bus.read_byte(0xFF04), 0);
}

#[test]
fn timer_registers_read_back() {
    let mut bus = bus();
    bus.write_byte(0xFF05, 0x12);
    bus.write_byte(0xFF06, 0x34);
    bus.write_byte(0xFF07, 0xFB);
    assert_eq!(bus.read_byte(0xFF05), 0x12);
    assert_eq!(bus.read_byte(0xFF06), 0x34);
    assert_eq!(bus.read_byte(0xFF07), 0xFB);
    bus.write_byte(0xFF07, 0x00);
    assert_eq!(bus.read_byte(0xFF07), 0xF8);
}

#[test]
fn tima_counts_at_the_selected_rate() {
    for (select, period) in [(0x04u8, 1024u32), (0x05, 16), (0x06, 64), (0x07, 256)] {
        let mut bus = bus();
        bus.write_byte(0xFF07, select);
        bus.tick(period - 1);
        assert_eq!(bus.read_byte(0xFF05), 0);
        bus.tick(1);
        assert_eq!(bus.read_byte(0xFF05), 1);
        bus.tick(10 * period);
        assert_eq!(bus.read_byte(0xFF05), 11);
    }
}

#[test]
fn a_stopped_timer_does_not_count() {
    let mut bus = bus();
    bus.write_byte(0xFF07, 0x01);
    bus.tick(100_000);
    assert_eq!(bus.read_byte(0xFF05), 0);
}

#[test]
fn overflow_reloads_and_interrupts() {
    let mut bus = bus();
    bus.write_byte(0xFF05, 0xFF);
    bus.write_byte(0xFF06, 0xC0);
    bus.write_byte(0xFF07, 0x05);
    bus.tick(15);
    assert_eq!(bus.interrupt_flag, 0x00);
    bus.tick(1);
    assert_eq!(bus.read_byte(0xFF05), 0xC0);
    assert_eq!(bus.read_byte(0xFF0F), 0x04);
    // One call can span several increments.
    bus.interrupt_flag = 0;
    bus.tick(16 * 0x40);
    assert_eq!(bus.read_byte(0xFF05), 0xC0);
    assert_eq!(bus.interrupt_flag, 0x04);
}

#[test]
fn writing_div_does_not_disturb_tima() {
    let mut bus = bus();
    bus.write_byte(0xFF07, 0x05);
    bus.tick(12);
    bus.write_byte(0xFF04, 0x00);
    bus.tick(4);
    assert_eq!(bus.read_byte(0xFF05), 1);
}

#[test]
fn ticking_in_parts_is_ticking_at_once() {
    let mut whole = bus();
    let mut parts = bus();
    for bus in [&mut whole, &mut parts] {
        bus.write_byte(0xFF07, 0x06);
        bus.write_byte(0xFF41, 0x78);
    }
    whole.tick(70_224);
    for _ in 0..17_556 {
        parts.tick(4);
    }
    for address in [0xFF04u16, 0xFF05, 0xFF0F, 0xFF41, 0xFF44] {
        assert_eq!(whole.read_byte(address), parts.read_byte(address));
    }
    assert_eq!(whole.take_audio_samples(), parts.take_audio_samples());
}

#[test]
fn time_alone_changes_no_memory() {
    let mut bus = Bus::new(Cartridge::load(vec![0x11; 0x8000]), 44_100);
    // An MBC3 with the clock mapped: the clock does not advance.
    bus.write_byte(0x0000, 0x0A);
    bus.write_byte(0x4000, 0x08);
    bus.write_byte(0xA000, 0x2A);
    bus.write_byte(0x6000, 0x00);
    bus.write_byte(0x6000, 0x01);
    bus.write_byte(0x8123, 0x55);
    bus.write_byte(0xC000, 0x66);
    bus.write_byte(0xFF90, 0x77);
    bus.write_byte(0xFF43, 0x88);
    bus.tick(70_224);
    bus.write_byte(0x6000, 0x00);
    bus.write_byte(0x6000, 0x01);
    assert_eq!(bus.read_byte(0xA000), 0x2A);
    assert_eq!(bus.read_byte(0x8123), 0x55);
    assert_eq!(bus.read_byte(0xC000), 0x66);
    assert_eq!(bus.read_byte(0xFF90), 0x77);
    assert_eq!(bus.read_byte(0xFF43), 0x88);
}

// ---- Serial ----

#[test]
fn serial_bytes_reach_the_console() {
    let mut bus = bus();
    for byte in [b'O', b'k'] {
        bus.write_byte(0xFF01, byte);
        bus.write_byte(0xFF02, 0x81);
        assert_eq!(bus.read_byte(0xFF02), 0x00);
    }
    assert_eq!(
        bus.take_console(),
        vec![ConsoleEvent::Serial(b'O'), ConsoleEvent::Serial(b'k')]
    );
    assert!(bus.take_console().is_empty());
}

#[test]
fn bits_7_and_0_start_a_transfer() {
    let mut bus = bus();
    bus.write_byte(0xFF01, 0x41);
    for control in [0x83u8, 0xFF, 0xC1] {
        bus.write_byte(0xFF02, control);
        assert_eq!(bus.take_console(), vec![ConsoleEvent::Serial(0x41)]);
        assert_eq!(bus.read_byte(0xFF02), 0x00);
        assert_eq!(bus.read_byte(0xFF01), 0x41);
    }
}

#[test]
fn other_serial_controls_send_nothing() {
    let mut bus = bus();
    bus.write_byte(0xFF01, b'x');
    for control in [0x00u8, 0x01, 0x80, 0x7F, 0xFE] {
        bus.write_byte(0xFF02, control);
        assert_eq!(bus.read_byte(0xFF02), control);
    }
    assert!(bus.take_console().is_empty());
}

// ---- Interrupts ----

#[test]
fn requests_and_acknowledgements_touch_one_bit() {
    let mut bus = bus();
    bus.request_interrupt(0);
    bus.request_interrupt(3);
    bus.request_interrupt(3);
    assert_eq!(bus.interrupt_flag, 0x09);
    bus.acknowledge(0);
    assert_eq!(bus.interrupt_flag, 0x08);
    bus.write_byte(0xFFFF, 0x17);
    assert_eq!(bus.pending(), 0x00);
    bus.write_byte(0xFFFF, 0xFF);
    bus.write_byte(0xFF0F, 0xFF);
    assert_eq!(bus.pending(), 0x1F);
    assert_eq!(bus.read_byte(0xFFFF), 0xFF);
}

#[test]
fn time_requests_no_serial_or_joypad_interrupt() {
    let mut bus = bus();
    bus.write_byte(0xFF07, 0x05);
    bus.write_byte(0xFF41, 0x78);
    bus.tick(70_224);
    assert_eq!(bus.interrupt_flag, 0x07);
    bus.interrupt_flag = 0x48;
    bus.tick(70_224);
    assert_eq!(bus.interrupt_flag, 0x4F);
}

#[test]
fn interrupt_registers_can_be_set() {
    let mut bus = bus();
    bus.set_interrupt_flag(0x15);
    bus.set_interrupt_enable(0x0C);
    assert_eq!(bus.interrupt_registers(), (0x15, 0x0C));
    assert_eq!(bus.interrupt_flag, 0x15);
    assert_eq!(bus.read_byte(0xFFFF), 0x0C);
    assert_eq!(bus.pending(), 0x04);
}

#[test]
fn the_screen_interrupts_the_processor() {
    let mut bus = bus();
    bus.tick(65_663);
    assert_eq!(bus.interrupt_flag & 0x01, 0x00);
    bus.tick(1);
    assert_eq!(bus.interrupt_flag & 0x01, 0x01);
    // LYC is 0 and so is LY at the start: STAT fires at once when it is asked
    // to.
    let mut other = self::bus();
    other.write_byte(0xFF41, 0x40);
    other.tick(1);
    assert_eq!(other.interrupt_flag & 0x02, 0x02);
}

#[test]
fn a_press_interrupts_on_its_edge() {
    let mut bus = bus();
    bus.press_button(Button::Start);
    assert_eq!(bus.interrupt_flag, 0x10);
    bus.interrupt_flag = 0;
    bus.press_button(Button::Start);
    assert_eq!(bus.interrupt_flag, 0x00);
    bus.write_byte(0xFF00, 0x10);
    assert_eq!(bus.read_byte(0xFF00), 0xD7);
    bus.release_button(Button::Start);
    assert_eq!(bus.interrupt_flag, 0x00);
    assert_eq!(bus.read_byte(0xFF00), 0xDF);
}

#[test]
fn sound_registers_are_on_the_bus() {
    let mut bus = bus();
    assert_eq!(bus.read_byte(0xFF26), 0x70);
    bus.write_byte(0xFF26, 0x80);
    bus.write_byte(0xFF25, 0xF3);
    bus.write_byte(0xFF30, 0xAB);
    assert_eq!(bus.read_byte(0xFF26), 0xF0);
    assert_eq!(bus.read_byte(0xFF25), 0xF3);
    assert_eq!(bus.read_byte(0xFF30), 0xAB);
}
