//! Laws of the bus: which address reaches what, how fast the timer runs, which
//! bit each interrupt has, and which line each button pulls.

use vstd::prelude::*;

use crate::bits::{bit, law_bits};
use crate::bus::{
    bus_cycles, bus_read, bus_reset, bus_write, law_request, lemma_timer_cycles_frame, press,
    release, timer_cycle, timer_cycles, with_interrupt, BusState, ConsoleEvent,
};
use crate::cartridge::{ram_read, ram_write, rom_read, rom_write, CartridgeState};
use crate::cpu::cpu_reset;
use crate::joypad::{
    is_held, joypad_press, joypad_release, joypad_value, joypad_write, law_register_bits,
    law_write_selects, Button, JoypadState,
};
use crate::ppu::{
    oam_read, oam_write, ppu_cycles, ppu_register_read, ppu_register_write, vram_read, vram_write,
};
use crate::sound::{sound_cycles, sound_read, sound_write};

verus! {

// ---- Addresses ----

/// What answers a read: ROM up to 0x7FFF, video RAM up to 0x9FFF, the RAM of the
/// cartridge up to 0xBFFF, work RAM up to 0xDFFF and once more up to 0xFDFF, OAM
/// up to 0xFE9F, nothing up to 0xFEFF, high RAM from 0xFF80 on and the interrupt
/// enable at 0xFFFF.
pub proof fn law_read_map(s: BusState, a: u16)
    ensures
        a <= 0x7FFF ==> bus_read(s, a) == rom_read(s.cartridge, a),
        0x8000 <= a <= 0x9FFF ==> bus_read(s, a) == vram_read(s.ppu, a),
        0xA000 <= a <= 0xBFFF ==> bus_read(s, a) == ram_read(s.cartridge, a),
        0xC000 <= a <= 0xDFFF ==> bus_read(s, a) == s.wram[a - 0xC000],
        0xE000 <= a <= 0xFDFF ==> bus_read(s, a) == s.wram[a - 0xE000],
        0xFE00 <= a <= 0xFE9F ==> bus_read(s, a) == oam_read(s.ppu, a),
        0xFEA0 <= a <= 0xFEFF ==> bus_read(s, a) == 0xFF,
        0xFF80 <= a <= 0xFFFE ==> bus_read(s, a) == s.hram[a - 0xFF80],
        bus_read(s, 0xFFFF) == s.interrupt_enable,
{
}

/// What takes a write, by the same addresses.
pub proof fn law_write_map(s: BusState, a: u16, v: u8)
    ensures
        a <= 0x7FFF ==> bus_write(s, a, v) == (BusState {
            cartridge: rom_write(s.cartridge, a, v),
            ..s
        }),
        0x8000 <= a <= 0x9FFF ==> bus_write(s, a, v) == (BusState {
            ppu: vram_write(s.ppu, a, v),
            ..s
        }),
        0xA000 <= a <= 0xBFFF ==> bus_write(s, a, v) == (BusState {
            cartridge: ram_write(s.cartridge, a, v),
            ..s
        }),
        0xC000 <= a <= 0xDFFF ==> bus_write(s, a, v) == (BusState {
            wram: s.wram.update(a - 0xC000, v),
            ..s
        }),
        0xE000 <= a <= 0xFDFF ==> bus_write(s, a, v) == (BusState {
            wram: s.wram.update(a - 0xE000, v),
            ..s
        }),
        0xFE00 <= a <= 0xFE9F ==> bus_write(s, a, v) == (BusState {
            ppu: oam_write(s.ppu, a, v),
            ..s
        }),
        0xFEA0 <= a <= 0xFEFF ==> bus_write(s, a, v) == s,
        0xFF80 <= a <= 0xFFFE ==> bus_write(s, a, v) == (BusState {
            hram: s.hram.update(a - 0xFF80, v),
            ..s
        }),
        bus_write(s, 0xFFFF, v) == (BusState { interrupt_enable: v, ..s }),
{
}

/// Whether an address of the I/O page belongs to no unit and is plain storage.
pub open spec fn is_plain_io(a: u16) -> bool {
    ||| a == 0xFF01
    ||| a == 0xFF03
    ||| 0xFF08 <= a <= 0xFF0E
    ||| 0xFF27 <= a <= 0xFF2F
    ||| 0xFF4C <= a <= 0xFF7F
}

/// The I/O page: the joypad at 0xFF00, DIV, TIMA, TMA and TAC from 0xFF04 on, the
/// interrupt flag at 0xFF0F, sound from 0xFF10 on and the LCD from 0xFF40 on. The
/// other addresses store a byte.
pub proof fn law_io_map(s: BusState, a: u16, v: u8)
    ensures
        bus_read(s, 0xFF00) == joypad_value(s.joypad),
        bus_write(s, 0xFF00, v) == (BusState { joypad: joypad_write(s.joypad, v), ..s }),
        bus_read(s, 0xFF04) == s.div_counter / 256,
        bus_write(s, 0xFF04, v) == (BusState { div_counter: 0, ..s }),
        bus_read(s, 0xFF05) == s.tima,
        bus_write(s, 0xFF05, v) == (BusState { tima: v, ..s }),
        bus_read(s, 0xFF06) == s.tma,
        bus_write(s, 0xFF06, v) == (BusState { tma: v, ..s }),
        bus_write(s, 0xFF07, v) == (BusState { tac: (v % 8) as u8, ..s }),
        bus_read(s, 0xFF0F) == s.interrupt_flag,
        bus_write(s, 0xFF0F, v) == (BusState { interrupt_flag: v, ..s }),
        0xFF10 <= a <= 0xFF26 || 0xFF30 <= a <= 0xFF3F ==> {
            &&& bus_read(s, a) == sound_read(s.sound, a)
            &&& bus_write(s, a, v) == (BusState { sound: sound_write(s.sound, a, v), ..s })
        },
        0xFF40 <= a <= 0xFF4B && a != 0xFF46 ==> {
            &&& bus_read(s, a) == ppu_register_read(s.ppu, a)
            &&& bus_write(s, a, v) == (BusState { ppu: ppu_register_write(s.ppu, a, v), ..s })
        },
        bus_read(s, 0xFF46) == s.io[0x46],
        is_plain_io(a) ==> {
            &&& bus_read(s, a) == s.io[a - 0xFF00]
            &&& bus_write(s, a, v) == (BusState { io: s.io.update(a - 0xFF00, v), ..s })
        },
{
}

/// Writing a value with bits 7 and 0 to the serial control at 0xFF02 sends the
/// byte stored at 0xFF01 and clears the control; any other value is stored.
pub proof fn law_serial_port(s: BusState, v: u8)
    requires
        s.wf(),
    ensures
        v >= 128 && v % 2 == 1 ==> bus_write(s, 0xFF02, v) == (BusState {
            io: s.io.update(2, 0),
            console: s.console.push(ConsoleEvent::Serial(s.io[1])),
            ..s
        }),
        v < 128 || v % 2 == 0 ==> bus_write(s, 0xFF02, v) == (BusState {
            io: s.io.update(2, v),
            ..s
        }),
        bus_read(s, 0xFF02) == s.io[2],
{
    law_bits(v);
}

// ---- Time ----

/// Bit 2 of TAC lets TIMA count, once in 1024, 16, 64 or 256 T-cycles for 0, 1, 2
/// or 3 in its low bits. Past 255 it goes on from TMA and requests interrupt 2.
/// DIV counts every T-cycle.
pub proof fn law_timer_cycle(s: BusState, m: u8)
    requires
        s.wf(),
        m < 8,
    ensures
        ({
            let t = timer_cycle(s);
            let selects = s.tac % 4;
            let period: int = if selects == 0 {
                1024
            } else if selects == 1 {
                16
            } else if selects == 2 {
                64
            } else {
                256
            };
            let counts = s.tac >= 4;
            let ticks = counts && s.timer_subcounter + 1 >= period;
            let overflows = ticks && s.tima == 255;
            &&& t.div_counter == (s.div_counter + 1) % 0x10000
            &&& t.timer_subcounter == (if !counts {
                s.timer_subcounter as int
            } else if ticks {
                0int
            } else {
                s.timer_subcounter + 1
            })
            &&& t.tima == (if overflows {
                s.tma as int
            } else if ticks {
                s.tima + 1
            } else {
                s.tima as int
            })
            &&& bit(t.interrupt_flag, m) == (bit(s.interrupt_flag, m) || overflows && m == 2)
            &&& t == (BusState {
                div_counter: t.div_counter,
                timer_subcounter: t.timer_subcounter,
                tima: t.tima,
                interrupt_flag: t.interrupt_flag,
                ..s
            })
        }),
{
    law_bits(s.tac);
    law_request(s.interrupt_flag, 2, m);
}

/// Time runs for the timer, the PPU and the sound alike. Interrupt 0 is requested
/// where the PPU enters the vertical blank and interrupt 1 where its STAT line
/// rises; the other bits are those that the timer leaves.
pub proof fn law_bus_time(s: BusState, n: nat, m: u8)
    requires
        m < 8,
    ensures
        ({
            let t = bus_cycles(s, n);
            let timer = timer_cycles(s, n);
            let (ppu, vblank, stat) = ppu_cycles(s.ppu, n);
            &&& t.ppu == ppu
            &&& t.sound == sound_cycles(s.sound, n)
            &&& bit(t.interrupt_flag, m) == (bit(timer.interrupt_flag, m) || (m == 0 && vblank)
                || (m == 1 && stat))
            &&& t == (BusState {
                ppu: t.ppu,
                sound: t.sound,
                interrupt_flag: t.interrupt_flag,
                ..timer
            })
        }),
{
    lemma_timer_cycles_frame(s, n);
    let f = timer_cycles(s, n).interrupt_flag;
    law_request(f, 0, m);
    law_request(f, 1, m);
    law_request(with_interrupt(f, 0), 1, m);
}

// ---- Buttons ----

/// With bit 4 of the register clear the directions pull its lines: Right line 0,
/// Left line 1, Up line 2 and Down line 3. With bit 5 clear the others do: A, B,
/// Select and Start. A line reads 0 while a button pulls it.
pub proof fn law_joypad_lines(s: JoypadState)
    requires
        s.wf(),
    ensures
        ({
            let v = joypad_value(s);
            let directions = !bit(s.select, 4);
            let others = !bit(s.select, 5);
            &&& bit(v, 0) == !(directions && is_held(s, Button::Right) || others && is_held(
                s,
                Button::A,
            ))
            &&& bit(v, 1) == !(directions && is_held(s, Button::Left) || others && is_held(
                s,
                Button::B,
            ))
            &&& bit(v, 2) == !(directions && is_held(s, Button::Up) || others && is_held(
                s,
                Button::Select,
            ))
            &&& bit(v, 3) == !(directions && is_held(s, Button::Down) || others && is_held(
                s,
                Button::Start,
            ))
            &&& bit(v, 4) == bit(s.select, 4)
            &&& bit(v, 5) == bit(s.select, 5)
            &&& bit(v, 6)
            &&& bit(v, 7)
        }),
{
    law_register_bits(s);
}

/// A write to 0xFF00 selects by its bits 4 and 5 and changes no button.
pub proof fn law_joypad_select(s: BusState, v: u8)
    ensures
        bit(bus_write(s, 0xFF00, v).joypad.select, 4) == bit(v, 4),
        bit(bus_write(s, 0xFF00, v).joypad.select, 5) == bit(v, 5),
        bus_write(s, 0xFF00, v).joypad.held == s.joypad.held,
{
    law_write_selects(s.joypad, v);
}

/// A press that finds the button released requests interrupt 4, and no other. A
/// release requests nothing.
pub proof fn law_button_interrupt(s: BusState, button: Button, m: u8)
    requires
        m < 8,
    ensures
        bit(press(s, button).interrupt_flag, m) == (bit(s.interrupt_flag, m) || (m == 4
            && !is_held(s.joypad, button))),
        press(s, button) == (BusState {
            joypad: joypad_press(s.joypad, button),
            interrupt_flag: press(s, button).interrupt_flag,
            ..s
        }),
        release(s, button) == (BusState { joypad: joypad_release(s.joypad, button), ..s }),
{
    law_request(s.interrupt_flag, 4, m);
}

// ---- Power-on ----

/// The state at power-on, whatever the cartridge is: the registers that the boot
/// code leaves, execution at 0x0100, empty memory, the LCD on with a blank
/// picture, no button held, sound off and no interrupt pending or enabled.
pub proof fn law_power_on(cartridge: CartridgeState, sample_rate: u32, i: int)
    ensures
        ({
            let bus = bus_reset(cartridge, sample_rate);
            let cpu = cpu_reset(bus);
            &&& cpu.bus == bus
            &&& bus.cartridge == cartridge
            &&& 256 * cpu.a + cpu.f == 0x01B0
            &&& 256 * cpu.b + cpu.c == 0x0013
            &&& 256 * cpu.d + cpu.e == 0x00D8
            &&& 256 * cpu.h + cpu.l == 0x014D
            &&& cpu.sp == 0xFFFE
            &&& cpu.pc == 0x0100
            &&& !cpu.halted
            &&& !cpu.ime
            &&& cpu.ime_delay == 0
            &&& bus.interrupt_flag == 0
            &&& bus.interrupt_enable == 0
            &&& bus.div_counter == 0
            &&& bus.tima == 0
            &&& bus.tma == 0
            &&& bus.tac == 0
            &&& bus.timer_subcounter == 0
            &&& bus.console.len() == 0
            &&& 0 <= i < 0x2000 ==> bus.wram[i] == 0 && bus.ppu.vram[i] == 0
            &&& 0 <= i < 0x7F ==> bus.hram[i] == 0
            &&& 0 <= i < 0x80 ==> bus.io[i] == 0
            &&& 0 <= i < 0xA0 ==> bus.ppu.oam[i] == 0
            &&& 0 <= i < 160 * 144 ==> bus.ppu.framebuffer[i] == 0
            &&& bus.ppu.lcdc == 0x91
            &&& bus.ppu.stat == 0
            &&& bus.ppu.bgp == 0xFC
            &&& bus.ppu.obp0 == 0xFF
            &&& bus.ppu.obp1 == 0xFF
            &&& bus.ppu.scy == 0
            &&& bus.ppu.scx == 0
            &&& bus.ppu.ly == 0
            &&& bus.ppu.lyc == 0
            &&& bus.ppu.wy == 0
            &&& bus.ppu.wx == 0
            &&& bus.ppu.window_line == 0
            &&& !bus.ppu.stat_irq_line
            &&& !bus.sound.enabled
            &&& bus.sound.sample_rate == sample_rate
            &&& bus.sound.samples.len() == 0
            &&& 0 <= i < 16 ==> bus.sound.wave_ram[i] == 0
            &&& 0 <= i < 8 ==> !bus.joypad.held[i]
            &&& bus.joypad.select == 0x30
        }),
{
}

/// A run of T-cycles of the timer is that many T-cycles one after the other.
pub proof fn law_timer_run(s: BusState, n: nat)
    ensures
        timer_cycles(s, 0) == s,
        timer_cycles(s, n + 1) == timer_cycle(timer_cycles(s, n)),
{
}

} // verus!
