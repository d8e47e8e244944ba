//! The memory bus: the address map, the timer and the interrupt registers.
//!
//! Everything the CPU reaches, it reaches through the bus. A DMA transfer into
//! OAM completes at once, and the timer counts its own divider, so writing DIV
//! does not disturb TIMA.

use vstd::prelude::*;

use crate::bits::{bit, lemma_fields, lemma_masks, lemma_single_bit, lemma_split_word};
use crate::cartridge::{ram_read, ram_write, rom_read, rom_write, Cartridge, CartridgeState};
use crate::joypad::{
    is_held, joypad_press, joypad_release, joypad_reset, joypad_value, joypad_write,
    lemma_select_bits, Button, Joypad, JoypadState,
};
use crate::ppu::{
    lemma_cycles_add, lemma_cycles_keep_memory, lemma_cycles_wf, lemma_stat_mask, oam_read,
    oam_write, ppu_cycles, ppu_register_read, ppu_register_write, ppu_reset, same_video_memory,
    vram_read, vram_write, Ppu, PpuState, SCREEN_PIXELS,
};
use crate::sound::{
    lemma_sound_cycles_add, lemma_sound_cycles_wf, lemma_sound_write_wf, sound_cycles, sound_read,
    sound_reset, sound_write, SampleFrame, Sound, SoundState,
};

verus! {

/// Something to be shown on the host's console.
#[derive(PartialEq, Eq, Clone, Copy, Debug, Structural)]
pub enum ConsoleEvent {
    /// A byte sent over the serial port.
    Serial(u8),
    /// An opcode that does not exist was executed.
    UnknownOpcode(u8),
}

/// The state of the bus and of everything on it.
pub struct BusState {
    pub cartridge: CartridgeState,
    pub ppu: PpuState,
    pub joypad: JoypadState,
    pub sound: SoundState,
    pub wram: Seq<u8>,
    /// The I/O registers without a meaning of their own.
    pub io: Seq<u8>,
    pub hram: Seq<u8>,
    /// The 16-bit counter whose upper byte is DIV.
    pub div_counter: u16,
    pub tima: u8,
    pub tma: u8,
    pub tac: u8,
    /// T-cycles counted towards the next increment of TIMA.
    pub timer_subcounter: u32,
    pub interrupt_flag: u8,
    pub interrupt_enable: u8,
    /// What is waiting to be shown on the console.
    pub console: Seq<ConsoleEvent>,
}

impl BusState {
    pub open spec fn wf(self) -> bool {
        &&& self.cartridge.wf()
        &&& self.ppu.wf()
        &&& self.joypad.wf()
        &&& self.sound.wf()
        &&& self.wram.len() == 0x2000
        &&& self.io.len() == 0x80
        &&& self.hram.len() == 0x7F
        &&& self.tac < 8
        &&& self.timer_subcounter < 1024
    }
}

/// The bus with a cartridge plugged in, as it is switched on.
pub open spec fn bus_reset(cartridge: CartridgeState, sample_rate: u32) -> BusState {
    BusState {
        cartridge,
        ppu: ppu_reset(),
        joypad: joypad_reset(),
        sound: sound_reset(sample_rate),
        wram: Seq::new(0x2000, |i: int| 0u8),
        io: Seq::new(0x80, |i: int| 0u8),
        hram: Seq::new(0x7F, |i: int| 0u8),
        div_counter: 0,
        tima: 0,
        tma: 0,
        tac: 0,
        timer_subcounter: 0,
        interrupt_flag: 0,
        interrupt_enable: 0,
        console: Seq::empty(),
    }
}

// ---- The address map ----

/// Whether the address is one of the PPU's registers. 0xFF46 starts a DMA
/// transfer and is not.
pub open spec fn is_ppu_register(address: u16) -> bool {
    0xFF40 <= address <= 0xFF4B && address != 0xFF46
}

/// Whether the address belongs to the audio processing unit.
pub open spec fn is_sound_register(address: u16) -> bool {
    0xFF10 <= address <= 0xFF26 || 0xFF30 <= address <= 0xFF3F
}

/// What an I/O register at 0xFF00 to 0xFF7F reads.
pub open spec fn io_read(s: BusState, address: u16) -> u8 {
    if address == 0xFF00 {
        joypad_value(s.joypad)
    } else if address == 0xFF04 {
        (s.div_counter / 256) as u8
    } else if address == 0xFF05 {
        s.tima
    } else if address == 0xFF06 {
        s.tma
    } else if address == 0xFF07 {
        s.tac | 0xF8
    } else if address == 0xFF0F {
        s.interrupt_flag
    } else if is_sound_register(address) {
        sound_read(s.sound, address)
    } else if is_ppu_register(address) {
        ppu_register_read(s.ppu, address)
    } else {
        s.io[address - 0xFF00]
    }
}

/// What the CPU reads at an address.
pub open spec fn bus_read(s: BusState, address: u16) -> u8 {
    if address < 0x8000 {
        rom_read(s.cartridge, address)
    } else if address < 0xA000 {
        vram_read(s.ppu, address)
    } else if address < 0xC000 {
        ram_read(s.cartridge, address)
    } else if address < 0xE000 {
        s.wram[address - 0xC000]
    } else if address < 0xFE00 {
        s.wram[address - 0xE000]
    } else if address < 0xFEA0 {
        oam_read(s.ppu, address)
    } else if address < 0xFF00 {
        0xFF
    } else if address < 0xFF80 {
        io_read(s, address)
    } else if address < 0xFFFF {
        s.hram[address - 0xFF80]
    } else {
        s.interrupt_enable
    }
}

/// A DMA transfer: OAM becomes a copy of the 160 bytes that the CPU would read
/// from `page * 0x100` on.
pub open spec fn oam_dma(s: BusState, page: u8) -> BusState {
    BusState {
        ppu: PpuState {
            oam: Seq::new(0xA0, |i: int| bus_read(s, (page * 0x100 + i) as u16)),
            ..s.ppu
        },
        ..s
    }
}

/// Whether a value written to the serial control register starts a transfer on
/// the internal clock: bits 7 and 0 are both set.
pub open spec fn starts_transfer(value: u8) -> bool {
    bit(value, 7) && bit(value, 0)
}

/// A write to the serial control register. Starting a transfer sends the byte
/// in the data register and clears the control register.
pub open spec fn serial_control(s: BusState, value: u8) -> BusState {
    if starts_transfer(value) {
        BusState {
            io: s.io.update(2, 0),
            console: s.console.push(ConsoleEvent::Serial(s.io[1])),
            ..s
        }
    } else {
        BusState { io: s.io.update(2, value), ..s }
    }
}

/// A CPU write to an I/O register at 0xFF00 to 0xFF7F.
pub open spec fn io_write(s: BusState, address: u16, value: u8) -> BusState {
    if address == 0xFF00 {
        BusState { joypad: joypad_write(s.joypad, value), ..s }
    } else if address == 0xFF02 {
        serial_control(s, value)
    } else if address == 0xFF04 {
        BusState { div_counter: 0, ..s }
    } else if address == 0xFF05 {
        BusState { tima: value, ..s }
    } else if address == 0xFF06 {
        BusState { tma: value, ..s }
    } else if address == 0xFF07 {
        BusState { tac: value % 8, ..s }
    } else if address == 0xFF0F {
        BusState { interrupt_flag: value, ..s }
    } else if is_sound_register(address) {
        BusState { sound: sound_write(s.sound, address, value), ..s }
    } else if is_ppu_register(address) {
        BusState { ppu: ppu_register_write(s.ppu, address, value), ..s }
    } else if address == 0xFF46 {
        oam_dma(s, value)
    } else {
        BusState { io: s.io.update(address - 0xFF00, value), ..s }
    }
}

/// A CPU write to an address.
pub open spec fn bus_write(s: BusState, address: u16, value: u8) -> BusState {
    if address < 0x8000 {
        BusState { cartridge: rom_write(s.cartridge, address, value), ..s }
    } else if address < 0xA000 {
        BusState { ppu: vram_write(s.ppu, address, value), ..s }
    } else if address < 0xC000 {
        BusState { cartridge: ram_write(s.cartridge, address, value), ..s }
    } else if address < 0xE000 {
        BusState { wram: s.wram.update(address - 0xC000, value), ..s }
    } else if address < 0xFE00 {
        BusState { wram: s.wram.update(address - 0xE000, value), ..s }
    } else if address < 0xFEA0 {
        BusState { ppu: oam_write(s.ppu, address, value), ..s }
    } else if address < 0xFF00 {
        s
    } else if address < 0xFF80 {
        io_write(s, address, value)
    } else if address < 0xFFFF {
        BusState { hram: s.hram.update(address - 0xFF80, value), ..s }
    } else {
        BusState { interrupt_enable: value, ..s }
    }
}

// ---- Interrupts ----

/// The interrupt flag with the pending bit of an interrupt set.
pub open spec fn with_interrupt(flags: u8, n: u8) -> u8 {
    flags | (1u8 << n)
}

/// The interrupts that are both pending and enabled, one bit each.
pub open spec fn pending_interrupts(s: BusState) -> u8 {
    s.interrupt_flag & s.interrupt_enable & 0x1F
}

/// The pending bit of an interrupt cleared.
pub open spec fn acknowledged(s: BusState, n: u8) -> BusState {
    BusState { interrupt_flag: s.interrupt_flag & !(1u8 << n), ..s }
}

// ---- Time ----

/// T-cycles per increment of TIMA, from the low bits of TAC.
pub open spec fn timer_threshold(tac: u8) -> int {
    if tac % 4 == 0 {
        1024
    } else if tac % 4 == 1 {
        16
    } else if tac % 4 == 2 {
        64
    } else {
        256
    }
}

/// Whether TAC lets TIMA count.
pub open spec fn timer_enabled(s: BusState) -> bool {
    bit(s.tac, 2)
}

/// One increment of TIMA. An overflow reloads it from TMA and requests the
/// timer interrupt.
pub open spec fn timer_increment(s: BusState) -> BusState {
    if s.tima == 0xFF {
        BusState { tima: s.tma, interrupt_flag: with_interrupt(s.interrupt_flag, 2), ..s }
    } else {
        BusState { tima: (s.tima + 1) as u8, ..s }
    }
}

/// One T-cycle of DIV and of the timer.
pub open spec fn timer_cycle(s: BusState) -> BusState {
    let t = BusState { div_counter: ((s.div_counter + 1) % 0x10000) as u16, ..s };
    if !timer_enabled(s) {
        t
    } else if s.timer_subcounter + 1 >= timer_threshold(s.tac) {
        timer_increment(BusState { timer_subcounter: 0, ..t })
    } else {
        BusState { timer_subcounter: (s.timer_subcounter + 1) as u32, ..t }
    }
}

/// `n` T-cycles of DIV and of the timer.
pub open spec fn timer_cycles(s: BusState, n: nat) -> BusState
    decreases n,
{
    if n == 0 {
        s
    } else {
        timer_cycle(timer_cycles(s, (n - 1) as nat))
    }
}

/// The interrupt flag with those of VBlank and STAT that fired.
pub open spec fn with_ppu_interrupts(flags: u8, vblank: bool, stat: bool) -> u8 {
    let f = if vblank {
        with_interrupt(flags, 0)
    } else {
        flags
    };
    if stat {
        with_interrupt(f, 1)
    } else {
        f
    }
}

/// `n` T-cycles of everything on the bus.
pub open spec fn bus_cycles(s: BusState, n: nat) -> BusState {
    let t = timer_cycles(s, n);
    let (ppu, vblank, stat) = ppu_cycles(t.ppu, n);
    BusState {
        ppu,
        interrupt_flag: with_ppu_interrupts(t.interrupt_flag, vblank, stat),
        sound: sound_cycles(t.sound, n),
        ..t
    }
}

// ---- Buttons ----

/// A button pressed: the joypad interrupt is requested on the edge.
pub open spec fn press(s: BusState, button: Button) -> BusState {
    BusState {
        joypad: joypad_press(s.joypad, button),
        interrupt_flag: if is_held(s.joypad, button) {
            s.interrupt_flag
        } else {
            with_interrupt(s.interrupt_flag, 4)
        },
        ..s
    }
}

/// A button released.
pub open spec fn release(s: BusState, button: Button) -> BusState {
    BusState { joypad: joypad_release(s.joypad, button), ..s }
}

// ---- The bus ----

pub struct Bus {
    cartridge: Cartridge,
    ppu: Ppu,
    joypad: Joypad,
    sound: Sound,
    wram: [u8; 0x2000],
    io: [u8; 0x80],
    hram: [u8; 0x7F],
    div_counter: u16,
    tima: u8,
    tma: u8,
    tac: u8,
    timer_subcounter: u32,
    console: Vec<ConsoleEvent>,
    /// Which interrupts are pending.
    pub interrupt_flag: u8,
    /// Which interrupts the program has enabled.
    pub interrupt_enable: u8,
}

impl View for Bus {
    type V = BusState;

    closed spec fn view(&self) -> BusState {
        BusState {
            cartridge: self.cartridge@,
            ppu: self.ppu@,
            joypad: self.joypad@,
            sound: self.sound@,
            wram: self.wram@,
            io: self.io@,
            hram: self.hram@,
            div_counter: self.div_counter,
            tima: self.tima,
            tma: self.tma,
            tac: self.tac,
            timer_subcounter: self.timer_subcounter,
            interrupt_flag: self.interrupt_flag,
            interrupt_enable: self.interrupt_enable,
            console: self.console@,
        }
    }
}

impl Bus {
    /// Connects a cartridge to fresh hardware. `sample_rate` is that of the
    /// host's audio device.
    pub fn new(cartridge: Cartridge, sample_rate: u32) -> (r: Self)
        requires
            cartridge@.wf(),
        ensures
            r@ == bus_reset(cartridge@, sample_rate),
            r@.wf(),
    {
        let ghost plugged = cartridge@;
        let r = Bus {
            cartridge,
            ppu: Ppu::new(),
            joypad: Joypad::new(),
            sound: Sound::new(sample_rate),
            wram: [0; 0x2000],
            io: [0; 0x80],
            hram: [0; 0x7F],
            div_counter: 0,
            tima: 0,
            tma: 0,
            tac: 0,
            timer_subcounter: 0,
            console: Vec::new(),
            interrupt_flag: 0,
            interrupt_enable: 0,
        };
        proof {
            let reset = bus_reset(plugged, sample_rate);
            assert(r@.wram =~= reset.wram);
            assert(r@.io =~= reset.io);
            assert(r@.hram =~= reset.hram);
        }
        r
    }

    /// Reads one byte for the CPU.
    pub fn read_byte(&self, address: u16) -> (r: u8)
        requires
            self@.wf(),
        ensures
            r == bus_read(self@, address),
    {
        match address {
            0x0000..=0x7FFF => self.cartridge.read(address),
            0x8000..=0x9FFF => self.ppu.read_vram(address),
            0xA000..=0xBFFF => self.cartridge.read_ram(address),
            0xC000..=0xDFFF => self.wram[(address - 0xC000) as usize],
            0xE000..=0xFDFF => self.wram[(address - 0xE000) as usize],
            0xFE00..=0xFE9F => self.ppu.read_oam(address),
            0xFEA0..=0xFEFF => 0xFF,
            0xFF40..=0xFF45 | 0xFF47..=0xFF4B => self.ppu.read_register(address),
            0xFF04 => {
                proof {
                    lemma_split_word(self.div_counter);
                }
                (self.div_counter >> 8) as u8
            },
            0xFF05 => self.tima,
            0xFF06 => self.tma,
            0xFF07 => self.tac | 0xF8,
            0xFF0F => self.interrupt_flag,
            0xFF00 => self.joypad.read(),
            0xFF10..=0xFF26 => self.sound.read(address),
            0xFF30..=0xFF3F => self.sound.read(address),
            0xFF01..=0xFF7F => self.io[(address - 0xFF00) as usize],
            0xFF80..=0xFFFE => self.hram[(address - 0xFF80) as usize],
            0xFFFF => self.interrupt_enable,
        }
    }

    /// Writes one byte for the CPU.
    pub fn write_byte(&mut self, address: u16, value: u8)
        requires
            old(self)@.wf(),
        ensures
            final(self)@ == bus_write(old(self)@, address, value),
            final(self)@.wf(),
    {
        match address {
            0x0000..=0x7FFF => self.cartridge.write(address, value),
            0x8000..=0x9FFF => self.ppu.write_vram(address, value),
            0xA000..=0xBFFF => self.cartridge.write_ram(address, value),
            0xC000..=0xDFFF => {
                self.wram[(address - 0xC000) as usize] = value;
            },
            0xE000..=0xFDFF => {
                self.wram[(address - 0xE000) as usize] = value;
            },
            0xFE00..=0xFE9F => self.ppu.write_oam(address, value),
            0xFEA0..=0xFEFF => {},
            0xFF40..=0xFF45 | 0xFF47..=0xFF4B => self.ppu.write_register(address, value),
            0xFF46 => self.copy_to_oam(value),
            0xFF04 => {
                self.div_counter = 0;
            },
            0xFF05 => {
                self.tima = value;
            },
            0xFF06 => {
                self.tma = value;
            },
            0xFF07 => {
                proof {
                    lemma_fields(value);
                }
                self.tac = value & 0x07;
            },
            0xFF0F => {
                self.interrupt_flag = value;
            },
            0xFF10..=0xFF26 => self.sound.write(address, value),
            0xFF30..=0xFF3F => self.sound.write(address, value),
            0xFF02 => {
                proof {
                    lemma_transfer_mask(value);
                }
                self.io[2] = value;
                if value & 0x81 == 0x81 {
                    let byte: u8 = self.io[1];
                    self.console.push(ConsoleEvent::Serial(byte));
                    self.io[2] = 0;
                    proof {
                        assert(self.io@ =~= old(self)@.io.update(2, 0));
                    }
                }
            },
            0xFF00 => self.joypad.write(value),
            0xFF01..=0xFF7F => {
                self.io[(address - 0xFF00) as usize] = value;
            },
            0xFF80..=0xFFFE => {
                self.hram[(address - 0xFF80) as usize] = value;
            },
            0xFFFF => {
                self.interrupt_enable = value;
            },
        }
    }

    /// Copies 160 bytes into OAM, from the page that `page` names.
    fn copy_to_oam(&mut self, page: u8)
        requires
            old(self)@.wf(),
        ensures
            final(self)@ == oam_dma(old(self)@, page),
            final(self)@.wf(),
    {
        let ghost s = self@;
        let source_base: u16 = (page as u16) << 8;
        assert((page as u16) << 8 == page * 0x100) by (bit_vector);
        let mut i: u16 = 0;
        while i < 0xA0
            invariant
                i <= 0xA0,
                source_base == page * 0x100,
                s.wf(),
                self@.wf(),
                self@ == (BusState { ppu: PpuState { oam: self@.ppu.oam, ..s.ppu }, ..s }),
                forall|j: int|
                    0 <= j < i ==> #[trigger] self@.ppu.oam[j] == bus_read(
                        s,
                        (page * 0x100 + j) as u16,
                    ),
                forall|j: int| i <= j < 0xA0 ==> #[trigger] self@.ppu.oam[j] == s.ppu.oam[j],
            decreases 0xA0 - i,
        {
            let byte: u8 = self.read_byte(source_base + i);
            proof {
                lemma_read_of_oam(s, self@, (source_base + i) as u16);
            }
            self.ppu.dma_write_oam(i as u8, byte);
            i += 1;
        }
        proof {
            assert(self@.ppu.oam =~= oam_dma(s, page).ppu.oam);
        }
    }

    /// Sets the pending bit of an interrupt: 0 VBlank, 1 STAT, 2 timer,
    /// 3 serial, 4 joypad.
    pub fn request_interrupt(&mut self, n: u8)
        requires
            n < 8,
        ensures
            final(self)@ == (BusState {
                interrupt_flag: with_interrupt(old(self)@.interrupt_flag, n),
                ..old(self)@
            }),
    {
        self.interrupt_flag = self.interrupt_flag | (1u8 << n);
    }

    /// The two interrupt registers: which interrupts are pending, and which the
    /// program has enabled.
    pub fn interrupt_registers(&self) -> (r: (u8, u8))
        ensures
            r == (self@.interrupt_flag, self@.interrupt_enable),
    {
        (self.interrupt_flag, self.interrupt_enable)
    }

    /// Sets which interrupts are pending.
    pub fn set_interrupt_flag(&mut self, value: u8)
        requires
            old(self)@.wf(),
        ensures
            final(self)@ == (BusState { interrupt_flag: value, ..old(self)@ }),
            final(self)@.wf(),
    {
        self.interrupt_flag = value;
    }

    /// Sets which interrupts are enabled.
    pub fn set_interrupt_enable(&mut self, value: u8)
        requires
            old(self)@.wf(),
        ensures
            final(self)@ == (BusState { interrupt_enable: value, ..old(self)@ }),
            final(self)@.wf(),
    {
        self.interrupt_enable = value;
    }

    /// The interrupts that are both pending and enabled.
    pub fn pending(&self) -> (r: u8)
        ensures
            r == pending_interrupts(self@),
    {
        self.interrupt_flag & self.interrupt_enable & 0x1F
    }

    /// Clears the pending bit of an interrupt.
    pub fn acknowledge(&mut self, n: u8)
        requires
            n < 8,
        ensures
            final(self)@ == acknowledged(old(self)@, n),
    {
        self.interrupt_flag = self.interrupt_flag & !(1u8 << n);
    }

    /// Advances everything on the bus by `cycles` T-cycles.
    pub fn tick(&mut self, cycles: u32)
        requires
            old(self)@.wf(),
        ensures
            final(self)@ == bus_cycles(old(self)@, cycles as nat),
            final(self)@.wf(),
    {
        let mut done: u32 = 0;
        while done < cycles
            invariant
                done <= cycles,
                self@ == timer_cycles(old(self)@, done as nat),
                self@.wf(),
            decreases cycles - done,
        {
            self.tick_one();
            done += 1;
        }
        let ppu_interrupts = self.ppu.tick(cycles);
        if ppu_interrupts.vblank {
            self.request_interrupt(0);
        }
        if ppu_interrupts.stat {
            self.request_interrupt(1);
        }
        self.sound.tick(cycles);
    }

    /// Advances DIV and the timer by one T-cycle.
    fn tick_one(&mut self)
        requires
            old(self)@.wf(),
        ensures
            final(self)@ == timer_cycle(old(self)@),
            final(self)@.wf(),
    {
        proof {
            lemma_masks(self.tac);
            lemma_fields(self.tac);
        }
        self.div_counter = self.div_counter.wrapping_add(1);
        if self.tac & 0x04 == 0 {
            return ;
        }
        let threshold: u32 = match self.tac & 0x03 {
            0 => 1024,
            1 => 16,
            2 => 64,
            _ => 256,
        };
        self.timer_subcounter += 1;
        if self.timer_subcounter >= threshold {
            self.timer_subcounter = 0;
            self.tima = self.tima.wrapping_add(1);
            if self.tima == 0 {
                self.tima = self.tma;
                self.request_interrupt(2);
            }
        }
    }

    /// The current frame, as [`Ppu::framebuffer`] gives it.
    pub fn framebuffer(&self) -> (r: &[u8; SCREEN_PIXELS])
        ensures
            r@ == self@.ppu.framebuffer,
    {
        self.ppu.framebuffer()
    }

    /// Takes the mixer frames of all T-cycles since the last call.
    pub fn take_audio_samples(&mut self) -> (r: Vec<SampleFrame>)
        requires
            old(self)@.wf(),
        ensures
            r@ == old(self)@.sound.samples,
            final(self)@ == (BusState {
                sound: SoundState { samples: Seq::empty(), ..old(self)@.sound },
                ..old(self)@
            }),
            final(self)@.wf(),
    {
        self.sound.take_samples()
    }

    /// Takes what is waiting to be shown on the console, oldest first.
    pub fn take_console(&mut self) -> (r: Vec<ConsoleEvent>)
        requires
            old(self)@.wf(),
        ensures
            r@ == old(self)@.console,
            final(self)@ == (BusState { console: Seq::empty(), ..old(self)@ }),
            final(self)@.wf(),
    {
        let mut taken: Vec<ConsoleEvent> = Vec::new();
        core::mem::swap(&mut taken, &mut self.console);
        taken
    }

    /// Reports an opcode that does not exist on the console.
    pub fn report_unknown_opcode(&mut self, opcode: u8)
        requires
            old(self)@.wf(),
        ensures
            final(self)@ == (BusState {
                console: old(self)@.console.push(ConsoleEvent::UnknownOpcode(opcode)),
                ..old(self)@
            }),
            final(self)@.wf(),
    {
        self.console.push(ConsoleEvent::UnknownOpcode(opcode));
    }

    /// Presses a button. Only a new press requests the joypad interrupt.
    pub fn press_button(&mut self, button: Button)
        requires
            old(self)@.wf(),
        ensures
            final(self)@ == press(old(self)@, button),
            final(self)@.wf(),
    {
        if self.joypad.press(button) {
            self.request_interrupt(4);
        }
    }

    /// Releases a button.
    pub fn release_button(&mut self, button: Button)
        requires
            old(self)@.wf(),
        ensures
            final(self)@ == release(old(self)@, button),
            final(self)@.wf(),
    {
        self.joypad.release(button);
    }
}

/// Testing the mask of bits 7 and 0.
proof fn lemma_transfer_mask(value: u8)
    by (bit_vector)
    ensures
        (value & 0x81 == 0x81) == (bit(value, 7) && bit(value, 0)),
{
}

/// A read depends on no byte of OAM but the one at its address.
proof fn lemma_read_of_oam(s: BusState, t: BusState, address: u16)
    requires
        t == (BusState { ppu: PpuState { oam: t.ppu.oam, ..s.ppu }, ..s }),
        0xFE00 <= address <= 0xFE9F ==> t.ppu.oam[address - 0xFE00] == s.ppu.oam[address
            - 0xFE00],
    ensures
        bus_read(t, address) == bus_read(s, address),
{
}

// ---- Laws: memory ----

/// Whether the address is RAM that the CPU can always use: work RAM, its echo
/// and high RAM.
pub open spec fn is_plain_ram(address: u16) -> bool {
    0xC000 <= address <= 0xFDFF || 0xFF80 <= address <= 0xFFFE
}

/// Whether two addresses reach the same byte of work RAM, or are the same.
pub open spec fn same_cell(a: u16, b: u16) -> bool {
    ||| a == b
    ||| 0xC000 <= a <= 0xDDFF && b == a + 0x2000
    ||| 0xC000 <= b <= 0xDDFF && a == b + 0x2000
}

/// A write keeps the state well-formed.
pub proof fn lemma_bus_write_wf(s: BusState, address: u16, value: u8)
    requires
        s.wf(),
    ensures
        bus_write(s, address, value).wf(),
{
    lemma_select_bits(value);
    lemma_stat_mask(value);
    if is_sound_register(address) {
        lemma_sound_write_wf(s.sound, address, value);
    }
}

/// RAM gives back what was written to it, at every address that reaches the
/// same cell.
pub proof fn law_ram_read_back(s: BusState, a: u16, b: u16, value: u8)
    requires
        s.wf(),
        is_plain_ram(a),
        same_cell(a, b),
    ensures
        bus_read(bus_write(s, a, value), b) == value,
{
}

/// A write to RAM changes no other address.
pub proof fn law_ram_write_is_local(s: BusState, a: u16, b: u16, value: u8)
    requires
        s.wf(),
        is_plain_ram(a),
        !same_cell(a, b),
    ensures
        bus_read(bus_write(s, a, value), b) == bus_read(s, b),
{
    let t = bus_write(s, a, value);
    if 0xFF00 <= b < 0xFF80 {
        assert(io_read(t, b) == io_read(s, b));
    }
}

/// Echo RAM mirrors work RAM: both areas read alike, and a write to one is a
/// write to the other.
pub proof fn law_echo_mirrors(s: BusState, address: u16, value: u8)
    requires
        0xC000 <= address <= 0xDDFF,
    ensures
        bus_read(s, (address + 0x2000) as u16) == bus_read(s, address),
        bus_write(s, (address + 0x2000) as u16, value) == bus_write(s, address, value),
{
}

/// No write changes the ROM of the cartridge or its type.
pub proof fn law_rom_is_constant(s: BusState, address: u16, value: u8)
    ensures
        bus_write(s, address, value).cartridge.rom == s.cartridge.rom,
        bus_write(s, address, value).cartridge.mbc_type == s.cartridge.mbc_type,
{
}

/// The unusable area reads 0xFF, and writing there does nothing.
pub proof fn law_unusable_area(s: BusState, address: u16, value: u8)
    requires
        0xFEA0 <= address <= 0xFEFF,
    ensures
        bus_read(s, address) == 0xFF,
        bus_write(s, address, value) == s,
{
}

/// A DMA transfer fills OAM with the 160 bytes that the CPU reads from the
/// page, in whatever mode the PPU is, and changes nothing else.
pub proof fn law_oam_dma(s: BusState, page: u8, i: int)
    requires
        0 <= i < 0xA0,
    ensures
        bus_write(s, 0xFF46, page).ppu.oam.len() == 0xA0,
        bus_write(s, 0xFF46, page).ppu.oam[i] == bus_read(s, (page * 0x100 + i) as u16),
        bus_write(s, 0xFF46, page) == (BusState {
            ppu: PpuState { oam: bus_write(s, 0xFF46, page).ppu.oam, ..s.ppu },
            ..s
        }),
{
}

/// The timer's registers, and the interrupt registers, read back what was
/// written. DIV reads 0 after any write, and the upper bits of TAC read as 1.
pub proof fn law_timer_registers(s: BusState, value: u8)
    ensures
        bus_read(bus_write(s, 0xFF04, value), 0xFF04) == 0,
        bus_read(bus_write(s, 0xFF05, value), 0xFF05) == value,
        bus_read(bus_write(s, 0xFF06, value), 0xFF06) == value,
        bus_read(bus_write(s, 0xFF07, value), 0xFF07) == value | 0xF8,
        bus_read(bus_write(s, 0xFF0F, value), 0xFF0F) == value,
        bus_read(bus_write(s, 0xFFFF, value), 0xFFFF) == value,
{
    assert((value % 8) | 0xF8 == value | 0xF8) by (bit_vector);
}

/// Starting a serial transfer sends the byte of the data register and leaves
/// the control register at 0. No other write to it sends anything.
pub proof fn law_serial(s: BusState, value: u8)
    requires
        s.wf(),
    ensures
        starts_transfer(value) ==> bus_write(s, 0xFF02, value).console == s.console.push(
            ConsoleEvent::Serial(bus_read(s, 0xFF01)),
        ) && bus_read(bus_write(s, 0xFF02, value), 0xFF02) == 0,
        !starts_transfer(value) ==> bus_write(s, 0xFF02, value).console == s.console && bus_read(
            bus_write(s, 0xFF02, value),
            0xFF02,
        ) == value,
{
}

// ---- Laws: time ----

/// A T-cycle of the timer keeps its counters in range and leaves the rest of
/// the bus alone.
pub proof fn lemma_timer_cycles_frame(s: BusState, n: nat)
    ensures
        ({
            let t = timer_cycles(s, n);
            &&& t == (BusState {
                div_counter: t.div_counter,
                tima: t.tima,
                timer_subcounter: t.timer_subcounter,
                interrupt_flag: t.interrupt_flag,
                ..s
            })
            &&& s.timer_subcounter < 1024 ==> t.timer_subcounter < 1024
        }),
    decreases n,
{
    if n > 0 {
        lemma_timer_cycles_frame(s, (n - 1) as nat);
    }
}

/// Any number of T-cycles keeps the state well-formed.
pub proof fn lemma_bus_cycles_wf(s: BusState, n: nat)
    requires
        s.wf(),
    ensures
        bus_cycles(s, n).wf(),
{
    lemma_timer_cycles_frame(s, n);
    lemma_cycles_wf(s.ppu, n);
    lemma_sound_cycles_wf(s.sound, n);
}

/// The timer after `a` and then `b` T-cycles is the timer after `a + b`.
proof fn lemma_timer_cycles_add(s: BusState, a: nat, b: nat)
    ensures
        timer_cycles(s, a + b) == timer_cycles(timer_cycles(s, a), b),
    decreases b,
{
    if b > 0 {
        lemma_timer_cycles_add(s, a, (b - 1) as nat);
        assert((a + b - 1) as nat == a + (b - 1) as nat);
    }
}

/// The interrupt flag of a run of the timer: what was pending stays, and the
/// timer bit is added or not, whatever was pending.
proof fn lemma_timer_flags(s: BusState, flags: u8, n: nat)
    ensures
        ({
            let t = timer_cycles(s, n);
            let u = timer_cycles(BusState { interrupt_flag: flags, ..s }, n);
            &&& u == (BusState { interrupt_flag: u.interrupt_flag, ..t })
            &&& (t.interrupt_flag == s.interrupt_flag && u.interrupt_flag == flags) || (
            t.interrupt_flag == with_interrupt(s.interrupt_flag, 2) && u.interrupt_flag
                == with_interrupt(flags, 2))
        }),
    decreases n,
{
    if n > 0 {
        lemma_timer_flags(s, flags, (n - 1) as nat);
        lemma_request_algebra(s.interrupt_flag, 2, 2);
        lemma_request_algebra(flags, 2, 2);
    }
}

/// Requesting interrupts is idempotent and does not depend on the order.
pub proof fn lemma_request_algebra(flags: u8, a: u8, b: u8)
    requires
        a < 8,
        b < 8,
    ensures
        with_interrupt(with_interrupt(flags, a), b) == with_interrupt(with_interrupt(flags, b), a),
        with_interrupt(with_interrupt(flags, a), a) == with_interrupt(flags, a),
{
    assert((flags | (1u8 << a)) | (1u8 << b) == (flags | (1u8 << b)) | (1u8 << a) && (flags | (1u8
        << a)) | (1u8 << a) == flags | (1u8 << a)) by (bit_vector);
}

/// Advancing the bus by `a` and then by `b` T-cycles is advancing it by
/// `a + b`.
pub proof fn law_ticks_add(s: BusState, a: nat, b: nat)
    ensures
        bus_cycles(bus_cycles(s, a), b) == bus_cycles(s, a + b),
{
    let t = timer_cycles(s, a);
    let first = bus_cycles(s, a);
    let (ppu_a, vblank_a, stat_a) = ppu_cycles(s.ppu, a);
    let (ppu_b, vblank_b, stat_b) = ppu_cycles(ppu_a, b);
    lemma_timer_cycles_frame(s, a);
    lemma_timer_cycles_frame(s, a + b);
    lemma_timer_cycles_add(s, a, b);
    lemma_cycles_add(s.ppu, a, b);
    lemma_sound_cycles_add(s.sound, a, b);
    // The timer does not see the PPU and the audio unit.
    let base = BusState { ppu: first.ppu, sound: first.sound, ..t };
    lemma_timer_ignores(t, first.ppu, first.sound, b);
    lemma_timer_flags(base, first.interrupt_flag, b);
    assert(first == (BusState { interrupt_flag: first.interrupt_flag, ..base }));
    lemma_timer_cycles_frame(t, b);
    lemma_timer_cycles_frame(first, b);
    let f = t.interrupt_flag;
    lemma_flag_merge(f, vblank_a, stat_a, vblank_b, stat_b);
    lemma_flag_merge(with_interrupt(f, 2), vblank_a, stat_a, vblank_b, stat_b);
    lemma_flag_commute(f, vblank_a, stat_a);
}

/// The timer does not depend on the PPU and the audio unit.
proof fn lemma_timer_ignores(s: BusState, ppu: PpuState, sound: SoundState, n: nat)
    ensures
        timer_cycles(BusState { ppu, sound, ..s }, n) == (BusState {
            ppu,
            sound,
            ..timer_cycles(s, n)
        }),
    decreases n,
{
    if n > 0 {
        lemma_timer_ignores(s, ppu, sound, (n - 1) as nat);
    }
}

proof fn lemma_flag_merge(f: u8, va: bool, sa: bool, vb: bool, sb: bool)
    ensures
        with_ppu_interrupts(with_ppu_interrupts(f, va, sa), vb, sb) == with_ppu_interrupts(
            f,
            va || vb,
            sa || sb,
        ),
{
    lemma_request_algebra(f, 0, 1);
    lemma_request_algebra(with_interrupt(f, 0), 0, 1);
    lemma_request_algebra(with_interrupt(f, 1), 0, 1);
    lemma_request_algebra(f, 1, 0);
    lemma_request_algebra(with_interrupt(f, 0), 1, 0);
    lemma_request_algebra(with_interrupt(f, 1), 1, 0);
}

proof fn lemma_flag_commute(f: u8, v: bool, s: bool)
    ensures
        with_interrupt(with_ppu_interrupts(f, v, s), 2) == with_ppu_interrupts(
            with_interrupt(f, 2),
            v,
            s,
        ),
{
    lemma_request_algebra(f, 0, 2);
    lemma_request_algebra(f, 1, 2);
    lemma_request_algebra(with_interrupt(f, 0), 1, 2);
}

/// DIV counts T-cycles: its 16-bit counter moves on by `n` modulo 65536.
pub proof fn law_div_counts(s: BusState, n: nat)
    ensures
        bus_cycles(s, n).div_counter == (s.div_counter + n) % 0x10000,
{
    lemma_div_counts(s, n);
}

proof fn lemma_div_counts(s: BusState, n: nat)
    ensures
        timer_cycles(s, n).div_counter == (s.div_counter + n) % 0x10000,
    decreases n,
{
    if n > 0 {
        lemma_div_counts(s, (n - 1) as nat);
    }
}

/// Time alone changes no memory: RAM, the cartridge with its clock, the
/// buttons and the registers that the CPU writes stay as they are.
pub proof fn law_time_keeps_memory(s: BusState, n: nat)
    ensures
        ({
            let t = bus_cycles(s, n);
            &&& t == (BusState {
                ppu: t.ppu,
                sound: t.sound,
                div_counter: t.div_counter,
                tima: t.tima,
                timer_subcounter: t.timer_subcounter,
                interrupt_flag: t.interrupt_flag,
                ..s
            })
            &&& same_video_memory(s.ppu, t.ppu)
        }),
{
    lemma_timer_cycles_frame(s, n);
    lemma_cycles_keep_memory(s.ppu, n);
}

/// Writing DIV resets the counter behind it and does not disturb TIMA: the
/// timer goes on as it would have without the write.
pub proof fn law_div_write(s: BusState, value: u8, n: nat)
    ensures
        bus_write(s, 0xFF04, value).div_counter == 0,
        ({
            let t = timer_cycles(bus_write(s, 0xFF04, value), n);
            timer_cycles(s, n) == (BusState { div_counter: timer_cycles(s, n).div_counter, ..t })
        }),
    decreases n,
{
    if n > 0 {
        law_div_write(s, value, (n - 1) as nat);
    }
}

/// With TAC bit 2 clear, TIMA does not move and no timer interrupt is
/// requested.
pub proof fn law_timer_stopped(s: BusState, n: nat)
    requires
        !timer_enabled(s),
    ensures
        bus_cycles(s, n).tima == s.tima,
        timer_cycles(s, n).interrupt_flag == s.interrupt_flag,
    decreases n,
{
    if n > 0 {
        law_timer_stopped(s, (n - 1) as nat);
        lemma_timer_cycles_frame(s, (n - 1) as nat);
    }
}

/// With the timer on, TIMA waits until as many T-cycles are counted as TAC
/// asks for, and then takes one increment.
pub proof fn law_timer_period(s: BusState, n: nat)
    requires
        timer_enabled(s),
        s.timer_subcounter < timer_threshold(s.tac),
    ensures
        s.timer_subcounter + n < timer_threshold(s.tac) ==> timer_cycles(s, n) == (BusState {
            div_counter: ((s.div_counter + n) % 0x10000) as u16,
            timer_subcounter: (s.timer_subcounter + n) as u32,
            ..s
        }),
        s.timer_subcounter + n == timer_threshold(s.tac) ==> timer_cycles(s, n)
            == timer_increment(
            BusState {
                div_counter: ((s.div_counter + n) % 0x10000) as u16,
                timer_subcounter: 0,
                ..s
            },
        ),
    decreases n,
{
    if n > 0 && s.timer_subcounter + n <= timer_threshold(s.tac) {
        law_timer_period(s, (n - 1) as nat);
    }
}

/// From the start of a period, TIMA takes one increment for each period that
/// passes, as long as it does not overflow.
pub proof fn law_timer_rate(s: BusState, k: nat)
    requires
        timer_enabled(s),
        s.timer_subcounter == 0,
        s.tima + k <= 0xFF,
    ensures
        timer_cycles(s, (k * timer_threshold(s.tac)) as nat) == (BusState {
            div_counter: ((s.div_counter + k * timer_threshold(s.tac)) % 0x10000) as u16,
            tima: (s.tima + k) as u8,
            ..s
        }),
    decreases k,
{
    let period = timer_threshold(s.tac);
    if k > 0 {
        let passed = ((k - 1) * period) as nat;
        law_timer_rate(s, (k - 1) as nat);
        let t = timer_cycles(s, passed);
        assert(passed >= 0 && passed + period == k * period) by (nonlinear_arith)
            requires
                k > 0,
                period > 0,
                passed == (k - 1) * period,
        ;
        law_timer_period(t, period as nat);
        lemma_timer_cycles_add(s, passed, period as nat);
        lemma_counter_adds(s.div_counter as int, passed as int, period);
    }
}

/// Counting on from a 16-bit counter.
proof fn lemma_counter_adds(start: int, a: int, b: int)
    ensures
        ((start + a) % 0x10000 + b) % 0x10000 == (start + (a + b)) % 0x10000,
{
}

/// An overflow of TIMA, and nothing else, reloads it from TMA and requests the
/// timer interrupt.
pub proof fn law_timer_overflow(s: BusState)
    ensures
        s.tima == 0xFF ==> timer_increment(s).tima == s.tma && bit(
            timer_increment(s).interrupt_flag,
            2,
        ),
        s.tima != 0xFF ==> timer_increment(s).tima == s.tima + 1 && timer_increment(
            s,
        ).interrupt_flag == s.interrupt_flag,
{
    law_request(s.interrupt_flag, 2, 2);
}

/// Requesting an interrupt sets its bit and leaves the others.
pub proof fn law_request(flags: u8, n: u8, m: u8)
    requires
        n < 8,
        m < 8,
    ensures
        bit(with_interrupt(flags, n), m) == (m == n || bit(flags, m)),
{
    lemma_single_bit(flags, n, m);
}

/// Acknowledging an interrupt clears its bit and leaves the others.
pub proof fn law_acknowledge(s: BusState, n: u8, m: u8)
    requires
        n < 8,
        m < 8,
    ensures
        bit(acknowledged(s, n).interrupt_flag, m) == (m != n && bit(s.interrupt_flag, m)),
{
    lemma_single_bit(s.interrupt_flag, n, m);
}

/// Time never takes back a pending interrupt.
pub proof fn law_interrupts_stay_pending(s: BusState, n: nat, m: u8)
    requires
        m < 8,
        bit(s.interrupt_flag, m),
    ensures
        bit(bus_cycles(s, n).interrupt_flag, m),
{
    lemma_timer_flags(s, s.interrupt_flag, n);
    let f = timer_cycles(s, n).interrupt_flag;
    law_request(s.interrupt_flag, 2, m);
    law_request(f, 0, m);
    law_request(f, 1, m);
    law_request(with_interrupt(f, 0), 1, m);
}

/// Time requests no interrupt but VBlank, STAT and the timer's: the other
/// pending bits stay as they are.
pub proof fn law_time_requests_no_others(s: BusState, n: nat, m: u8)
    requires
        3 <= m < 8,
    ensures
        bit(bus_cycles(s, n).interrupt_flag, m) == bit(s.interrupt_flag, m),
{
    lemma_timer_flags(s, s.interrupt_flag, n);
    let f = timer_cycles(s, n).interrupt_flag;
    law_request(s.interrupt_flag, 2, m);
    law_request(f, 0, m);
    law_request(f, 1, m);
    law_request(with_interrupt(f, 0), 1, m);
}

// ---- Laws: buttons ----

/// The joypad interrupt is requested on a new press and not while a button
/// stays held. A release never requests it.
pub proof fn law_press_edge(s: BusState, button: Button)
    requires
        s.joypad.wf(),
    ensures
        !is_held(s.joypad, button) ==> bit(press(s, button).interrupt_flag, 4),
        is_held(s.joypad, button) ==> press(s, button) == s,
        press(press(s, button), button) == press(s, button),
        release(s, button).interrupt_flag == s.interrupt_flag,
{
    law_request(s.interrupt_flag, 4, 4);
    let i = button.index_spec() as int;
    if s.joypad.held[i] {
        assert(s.joypad.held.update(i, true) =~= s.joypad.held);
    }
    assert(s.joypad.held.update(i, true).update(i, true) =~= s.joypad.held.update(i, true));
}

} // verus!
