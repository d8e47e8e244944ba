//! The picture processing unit: video memory, the LCD registers, the mode
//! timing that drives LY, STAT and the interrupts, and the scanline renderer.
//!
//! A whole line is drawn the moment its drawing mode ends, so register writes
//! in the middle of a line do not show until the next one.

use vstd::prelude::*;

use crate::bits::{bit, lemma_fields, lemma_masks, lemma_signed};
use crate::scanline::{
    back_to_front, background_color, bg_color, bg_shade, draw_line, front_sprite, in_line,
    lemma_insert_sprite, lemma_join_planes, lemma_painted_is_front, lemma_pixel_ignores_dot,
    lemma_pixel_range, lemma_scan_complete, lemma_shade_range, map_color, painted, pixel,
    pixel_index, same_outside_line, shade, sprite_attributes, sprite_color, sprite_left, sprite_row,
    sprite_selected, sprite_shade, sprite_shows, sprite_tile, sprite_top, sprites_on_line,
    tile_base, tile_color, window_color, window_covers, window_visible, SPRITES, SPRITES_PER_LINE,
};

verus! {

pub const SCREEN_WIDTH: usize = 160;

pub const SCREEN_HEIGHT: usize = 144;

/// The number of pixels of a frame.
pub const SCREEN_PIXELS: usize = 23040;

/// T-cycles of the OAM scan mode at the start of a visible line.
pub const OAM_SCAN_CYCLES: u32 = 80;

/// T-cycles of the drawing mode that follows the OAM scan.
pub const DRAWING_CYCLES: u32 = 172;

/// T-cycles of a whole line.
pub const SCANLINE_CYCLES: u32 = 456;

/// Lines of a frame, those of the vertical blank included.
pub const TOTAL_LINES: u8 = 154;

/// What the PPU is doing at the moment, as STAT reports it.
#[derive(PartialEq, Eq, Clone, Copy, Debug, Structural)]
pub enum PpuMode {
    HBlank,
    VBlank,
    OamScan,
    Drawing,
}

/// The interrupts that fired during a [`Ppu::tick`].
#[derive(PartialEq, Eq, Clone, Copy, Debug, Structural)]
pub struct PpuInterrupts {
    pub vblank: bool,
    pub stat: bool,
}

/// The state of the PPU.
pub struct PpuState {
    pub vram: Seq<u8>,
    pub oam: Seq<u8>,
    pub lcdc: u8,
    /// The writable interrupt-select bits of STAT.
    pub stat: u8,
    pub scy: u8,
    pub scx: u8,
    pub ly: u8,
    pub lyc: u8,
    pub bgp: u8,
    pub obp0: u8,
    pub obp1: u8,
    pub wy: u8,
    pub wx: u8,
    pub mode: PpuMode,
    /// The position within the current line, in T-cycles.
    pub dot: u32,
    /// The next line of the window to be drawn.
    pub window_line: u8,
    /// Whether some selected STAT source was active after the last T-cycle.
    pub stat_irq_line: bool,
    /// One shade per pixel, row by row.
    pub framebuffer: Seq<u8>,
}

impl PpuState {
    /// The mode, LY and the position in the line agree.
    pub open spec fn timing_wf(self) -> bool {
        match self.mode {
            PpuMode::OamScan => self.ly < SCREEN_HEIGHT && self.dot < OAM_SCAN_CYCLES,
            PpuMode::Drawing => self.ly < SCREEN_HEIGHT && OAM_SCAN_CYCLES <= self.dot
                < OAM_SCAN_CYCLES + DRAWING_CYCLES,
            PpuMode::HBlank => self.ly < SCREEN_HEIGHT && self.dot < SCANLINE_CYCLES,
            PpuMode::VBlank => SCREEN_HEIGHT <= self.ly < TOTAL_LINES && self.dot
                < SCANLINE_CYCLES,
        }
    }

    /// The memories have their sizes.
    pub open spec fn memory_wf(self) -> bool {
        &&& self.vram.len() == 0x2000
        &&& self.oam.len() == 0xA0
        &&& self.framebuffer.len() == SCREEN_PIXELS
    }

    /// Well-formedness: memories have their sizes, the timing is consistent,
    /// STAT stores its four enable bits alone, and every pixel holds one of the
    /// four shades.
    pub open spec fn wf(self) -> bool {
        &&& self.memory_wf()
        &&& self.timing_wf()
        &&& self.stat & 0x78 == self.stat
        &&& forall|p: int| 0 <= p < SCREEN_PIXELS ==> #[trigger] self.framebuffer[p] < 4
    }
}

/// The state that the boot code leaves behind.
pub open spec fn ppu_reset() -> PpuState {
    PpuState {
        vram: Seq::new(0x2000, |i: int| 0u8),
        oam: Seq::new(0xA0, |i: int| 0u8),
        lcdc: 0x91,
        stat: 0,
        scy: 0,
        scx: 0,
        ly: 0,
        lyc: 0,
        bgp: 0xFC,
        obp0: 0xFF,
        obp1: 0xFF,
        wy: 0,
        wx: 0,
        mode: PpuMode::OamScan,
        dot: 0,
        window_line: 0,
        stat_irq_line: false,
        framebuffer: Seq::new(SCREEN_PIXELS as nat, |i: int| 0u8),
    }
}

/// Whether the LCD is switched on.
pub open spec fn lcd_on(s: PpuState) -> bool {
    bit(s.lcdc, 7)
}

/// The OR of the STAT interrupt sources that STAT selects.
pub open spec fn stat_source_active(s: PpuState) -> bool {
    ||| s.ly == s.lyc && bit(s.stat, 6)
    ||| s.mode == PpuMode::OamScan && bit(s.stat, 5)
    ||| s.mode == PpuMode::VBlank && bit(s.stat, 4)
    ||| s.mode == PpuMode::HBlank && bit(s.stat, 3)
}

/// One T-cycle of mode timing with the LCD on, and whether the vertical blank
/// begins with it.
pub open spec fn advance_mode(s: PpuState) -> (PpuState, bool) {
    let t = PpuState { dot: (s.dot + 1) as u32, ..s };
    match s.mode {
        PpuMode::OamScan => if t.dot == OAM_SCAN_CYCLES {
            (PpuState { mode: PpuMode::Drawing, ..t }, false)
        } else {
            (t, false)
        },
        PpuMode::Drawing => if t.dot == OAM_SCAN_CYCLES + DRAWING_CYCLES {
            (PpuState { mode: PpuMode::HBlank, ..draw_line(t) }, false)
        } else {
            (t, false)
        },
        PpuMode::HBlank => if t.dot == SCANLINE_CYCLES {
            if s.ly + 1 == SCREEN_HEIGHT {
                (
                    PpuState {
                        dot: 0,
                        ly: SCREEN_HEIGHT as u8,
                        mode: PpuMode::VBlank,
                        window_line: 0,
                        ..t
                    },
                    true,
                )
            } else {
                (PpuState { dot: 0, ly: (s.ly + 1) as u8, mode: PpuMode::OamScan, ..t }, false)
            }
        } else {
            (t, false)
        },
        PpuMode::VBlank => if t.dot == SCANLINE_CYCLES {
            if s.ly + 1 == TOTAL_LINES {
                (PpuState { dot: 0, ly: 0, mode: PpuMode::OamScan, ..t }, false)
            } else {
                (PpuState { dot: 0, ly: (s.ly + 1) as u8, ..t }, false)
            }
        } else {
            (t, false)
        },
    }
}

/// The STAT line after a change of `s`, and whether it has just risen.
pub open spec fn update_stat_line(s: PpuState) -> (PpuState, bool) {
    (
        PpuState { stat_irq_line: stat_source_active(s), ..s },
        stat_source_active(s) && !s.stat_irq_line,
    )
}

/// One T-cycle: the next state, and whether the VBlank and the STAT interrupt
/// fire. With the LCD off the PPU idles at line 0.
pub open spec fn ppu_cycle(s: PpuState) -> (PpuState, bool, bool) {
    if lcd_on(s) {
        let (moved, vblank) = advance_mode(s);
        let (next, stat) = update_stat_line(moved);
        (next, vblank, stat)
    } else {
        (
            PpuState { dot: 0, ly: 0, mode: PpuMode::HBlank, stat_irq_line: false, ..s },
            false,
            false,
        )
    }
}

/// `n` T-cycles: the state after them, and whether the VBlank and the STAT
/// interrupt fired in any of them.
pub open spec fn ppu_cycles(s: PpuState, n: nat) -> (PpuState, bool, bool)
    decreases n,
{
    if n == 0 {
        (s, false, false)
    } else {
        let (before, vblank, stat) = ppu_cycles(s, (n - 1) as nat);
        let (after, vblank_now, stat_now) = ppu_cycle(before);
        (after, vblank || vblank_now, stat || stat_now)
    }
}

/// What the CPU reads from video RAM: open bus while the PPU draws.
pub open spec fn vram_read(s: PpuState, address: u16) -> u8 {
    if s.mode == PpuMode::Drawing {
        0xFF
    } else {
        s.vram[address - 0x8000]
    }
}

/// A CPU write to video RAM: dropped while the PPU draws.
pub open spec fn vram_write(s: PpuState, address: u16, value: u8) -> PpuState {
    if s.mode == PpuMode::Drawing {
        s
    } else {
        PpuState { vram: s.vram.update(address - 0x8000, value), ..s }
    }
}

/// Whether the PPU keeps the CPU out of OAM.
pub open spec fn oam_locked(s: PpuState) -> bool {
    s.mode == PpuMode::OamScan || s.mode == PpuMode::Drawing
}

/// What the CPU reads from OAM: open bus while the PPU scans it or draws.
pub open spec fn oam_read(s: PpuState, address: u16) -> u8 {
    if oam_locked(s) {
        0xFF
    } else {
        s.oam[address - 0xFE00]
    }
}

/// A CPU write to OAM: dropped while the PPU scans it or draws.
pub open spec fn oam_write(s: PpuState, address: u16, value: u8) -> PpuState {
    if oam_locked(s) {
        s
    } else {
        PpuState { oam: s.oam.update(address - 0xFE00, value), ..s }
    }
}

/// The mode number in the low bits of STAT.
pub open spec fn mode_number(mode: PpuMode) -> u8 {
    match mode {
        PpuMode::HBlank => 0,
        PpuMode::VBlank => 1,
        PpuMode::OamScan => 2,
        PpuMode::Drawing => 3,
    }
}

/// STAT as the CPU reads it: bit 7 set, the selected sources, the LYC
/// coincidence in bit 2 and the mode number.
pub open spec fn stat_value(s: PpuState) -> u8 {
    0x80u8 | s.stat | (if s.ly == s.lyc {
        0x04u8
    } else {
        0u8
    }) | mode_number(s.mode)
}

/// The registers as the CPU reads them.
pub open spec fn ppu_register_read(s: PpuState, address: u16) -> u8 {
    if address == 0xFF40 {
        s.lcdc
    } else if address == 0xFF41 {
        stat_value(s)
    } else if address == 0xFF42 {
        s.scy
    } else if address == 0xFF43 {
        s.scx
    } else if address == 0xFF44 {
        s.ly
    } else if address == 0xFF45 {
        s.lyc
    } else if address == 0xFF47 {
        s.bgp
    } else if address == 0xFF48 {
        s.obp0
    } else if address == 0xFF49 {
        s.obp1
    } else if address == 0xFF4A {
        s.wy
    } else if address == 0xFF4B {
        s.wx
    } else {
        0xFF
    }
}

/// A CPU write to a register. LY is read-only, and of STAT only bits 3 to 6
/// can be written.
pub open spec fn ppu_register_write(s: PpuState, address: u16, value: u8) -> PpuState {
    if address == 0xFF40 {
        PpuState { lcdc: value, ..s }
    } else if address == 0xFF41 {
        PpuState { stat: value & 0x78, ..s }
    } else if address == 0xFF42 {
        PpuState { scy: value, ..s }
    } else if address == 0xFF43 {
        PpuState { scx: value, ..s }
    } else if address == 0xFF45 {
        PpuState { lyc: value, ..s }
    } else if address == 0xFF47 {
        PpuState { bgp: value, ..s }
    } else if address == 0xFF48 {
        PpuState { obp0: value, ..s }
    } else if address == 0xFF49 {
        PpuState { obp1: value, ..s }
    } else if address == 0xFF4A {
        PpuState { wy: value, ..s }
    } else if address == 0xFF4B {
        PpuState { wx: value, ..s }
    } else {
        s
    }
}

/// The picture processing unit.
pub struct Ppu {
    vram: [u8; 0x2000],
    oam: [u8; 0xA0],
    lcdc: u8,
    stat: u8,
    scy: u8,
    scx: u8,
    ly: u8,
    lyc: u8,
    bgp: u8,
    obp0: u8,
    obp1: u8,
    wy: u8,
    wx: u8,
    mode: PpuMode,
    dot: u32,
    window_line: u8,
    stat_irq_line: bool,
    framebuffer: [u8; SCREEN_PIXELS],
}

impl View for Ppu {
    type V = PpuState;

    closed spec fn view(&self) -> PpuState {
        PpuState {
            vram: self.vram@,
            oam: self.oam@,
            lcdc: self.lcdc,
            stat: self.stat,
            scy: self.scy,
            scx: self.scx,
            ly: self.ly,
            lyc: self.lyc,
            bgp: self.bgp,
            obp0: self.obp0,
            obp1: self.obp1,
            wy: self.wy,
            wx: self.wx,
            mode: self.mode,
            dot: self.dot,
            window_line: self.window_line,
            stat_irq_line: self.stat_irq_line,
            framebuffer: self.framebuffer@,
        }
    }
}

impl Ppu {
    pub fn new() -> (r: Self)
        ensures
            r@ == ppu_reset(),
            r@.wf(),
    {
        let r = Ppu {
            vram: [0; 0x2000],
            oam: [0; 0xA0],
            lcdc: 0x91,
            stat: 0,
            scy: 0,
            scx: 0,
            ly: 0,
            lyc: 0,
            bgp: 0xFC,
            obp0: 0xFF,
            obp1: 0xFF,
            wy: 0,
            wx: 0,
            mode: PpuMode::OamScan,
            dot: 0,
            window_line: 0,
            stat_irq_line: false,
            framebuffer: [0; SCREEN_PIXELS],
        };
        proof {
            assert(r@.vram =~= ppu_reset().vram);
            assert(r@.oam =~= ppu_reset().oam);
            assert(r@.framebuffer =~= ppu_reset().framebuffer);
            lemma_stat_mask(0);
        }
        r
    }

    /// Advances the PPU by `cycles` T-cycles.
    pub fn tick(&mut self, cycles: u32) -> (r: PpuInterrupts)
        requires
            old(self)@.wf(),
        ensures
            final(self)@ == ppu_cycles(old(self)@, cycles as nat).0,
            r.vblank == ppu_cycles(old(self)@, cycles as nat).1,
            r.stat == ppu_cycles(old(self)@, cycles as nat).2,
            final(self)@.wf(),
    {
        let mut result = PpuInterrupts { vblank: false, stat: false };
        let mut done: u32 = 0;
        while done < cycles
            invariant
                done <= cycles,
                self@ == ppu_cycles(old(self)@, done as nat).0,
                result.vblank == ppu_cycles(old(self)@, done as nat).1,
                result.stat == ppu_cycles(old(self)@, done as nat).2,
                self@.wf(),
            decreases cycles - done,
        {
            let (vblank, stat) = self.tick_one();
            result.vblank = result.vblank || vblank;
            result.stat = result.stat || stat;
            done += 1;
        }
        result
    }

    /// Advances the PPU by one T-cycle. The result tells whether the VBlank
    /// and the STAT interrupt fire.
    pub fn tick_one(&mut self) -> (r: (bool, bool))
        requires
            old(self)@.wf(),
        ensures
            (final(self)@, r.0, r.1) == ppu_cycle(old(self)@),
            final(self)@.wf(),
    {
        proof {
            lemma_masks(self.lcdc);
            lemma_cycle_wf(self@);
        }
        if self.lcdc & 0x80 == 0 {
            self.dot = 0;
            self.ly = 0;
            self.mode = PpuMode::HBlank;
            self.stat_irq_line = false;
            return (false, false);
        }
        self.dot += 1;
        let mut vblank_irq = false;
        match self.mode {
            PpuMode::OamScan if self.dot == OAM_SCAN_CYCLES => {
                self.mode = PpuMode::Drawing;
            },
            PpuMode::Drawing if self.dot == OAM_SCAN_CYCLES + DRAWING_CYCLES => {
                self.render_scanline();
                self.mode = PpuMode::HBlank;
            },
            PpuMode::HBlank if self.dot == SCANLINE_CYCLES => {
                self.dot = 0;
                self.ly += 1;
                if self.ly == SCREEN_HEIGHT as u8 {
                    self.mode = PpuMode::VBlank;
                    self.window_line = 0;
                    vblank_irq = true;
                } else {
                    self.mode = PpuMode::OamScan;
                }
            },
            PpuMode::VBlank if self.dot == SCANLINE_CYCLES => {
                self.dot = 0;
                self.ly += 1;
                if self.ly == TOTAL_LINES {
                    self.ly = 0;
                    self.mode = PpuMode::OamScan;
                }
            },
            _ => {},
        }
        let stat_irq = self.update_stat_irq();
        (vblank_irq, stat_irq)
    }

    /// Re-evaluates the STAT line. The interrupt fires on its rising edge.
    fn update_stat_irq(&mut self) -> (fired: bool)
        ensures
            (final(self)@, fired) == update_stat_line(old(self)@),
    {
        proof {
            lemma_masks(self.stat);
        }
        let lyc_match = self.ly == self.lyc;
        let source_active = (lyc_match && self.stat & 0x40 != 0) || (self.mode == PpuMode::OamScan
            && self.stat & 0x20 != 0) || (self.mode == PpuMode::VBlank && self.stat & 0x10 != 0)
            || (self.mode == PpuMode::HBlank && self.stat & 0x08 != 0);
        let fired = source_active && !self.stat_irq_line;
        self.stat_irq_line = source_active;
        fired
    }

    /// Reads video RAM for the CPU. The address is the one the CPU sees.
    pub fn read_vram(&self, address: u16) -> (r: u8)
        requires
            self@.mode == PpuMode::Drawing || 0x8000 <= address <= 0x9FFF,
        ensures
            r == vram_read(self@, address),
    {
        if self.mode == PpuMode::Drawing {
            return 0xFF;
        }
        self.vram[(address - 0x8000) as usize]
    }

    /// Writes video RAM for the CPU.
    pub fn write_vram(&mut self, address: u16, value: u8)
        requires
            old(self)@.mode == PpuMode::Drawing || 0x8000 <= address <= 0x9FFF,
            old(self)@.wf(),
        ensures
            final(self)@ == vram_write(old(self)@, address, value),
            final(self)@.wf(),
    {
        if self.mode == PpuMode::Drawing {
            return ;
        }
        self.vram[(address - 0x8000) as usize] = value;
    }

    /// Reads OAM for the CPU.
    pub fn read_oam(&self, address: u16) -> (r: u8)
        requires
            oam_locked(self@) || 0xFE00 <= address <= 0xFE9F,
        ensures
            r == oam_read(self@, address),
    {
        if matches!(self.mode, PpuMode::OamScan | PpuMode::Drawing) {
            return 0xFF;
        }
        self.oam[(address - 0xFE00) as usize]
    }

    /// Writes OAM for the CPU.
    pub fn write_oam(&mut self, address: u16, value: u8)
        requires
            oam_locked(old(self)@) || 0xFE00 <= address <= 0xFE9F,
            old(self)@.wf(),
        ensures
            final(self)@ == oam_write(old(self)@, address, value),
            final(self)@.wf(),
    {
        if matches!(self.mode, PpuMode::OamScan | PpuMode::Drawing) {
            return ;
        }
        self.oam[(address - 0xFE00) as usize] = value;
    }

    /// Writes OAM for a DMA transfer, which no mode locks out.
    pub fn dma_write_oam(&mut self, offset: u8, value: u8)
        requires
            offset < 0xA0,
            old(self)@.wf(),
        ensures
            final(self)@ == (PpuState {
                oam: old(self)@.oam.update(offset as int, value),
                ..old(self)@
            }),
            final(self)@.wf(),
    {
        self.oam[offset as usize] = value;
    }

    /// Reads a register for the CPU.
    pub fn read_register(&self, address: u16) -> (r: u8)
        ensures
            r == ppu_register_read(self@, address),
    {
        match address {
            0xFF40 => self.lcdc,
            0xFF41 => 0x80 | self.stat | self.coincidence_bit() | self.mode_bits(),
            0xFF42 => self.scy,
            0xFF43 => self.scx,
            0xFF44 => self.ly,
            0xFF45 => self.lyc,
            0xFF47 => self.bgp,
            0xFF48 => self.obp0,
            0xFF49 => self.obp1,
            0xFF4A => self.wy,
            0xFF4B => self.wx,
            _ => 0xFF,
        }
    }

    /// Writes a register for the CPU.
    pub fn write_register(&mut self, address: u16, value: u8)
        requires
            old(self)@.wf(),
        ensures
            final(self)@ == ppu_register_write(old(self)@, address, value),
            final(self)@.wf(),
    {
        proof {
            lemma_stat_mask(value);
        }
        match address {
            0xFF40 => self.lcdc = value,
            0xFF41 => self.stat = value & 0x78,
            0xFF42 => self.scy = value,
            0xFF43 => self.scx = value,
            0xFF44 => {},
            0xFF45 => self.lyc = value,
            0xFF47 => self.bgp = value,
            0xFF48 => self.obp0 = value,
            0xFF49 => self.obp1 = value,
            0xFF4A => self.wy = value,
            0xFF4B => self.wx = value,
            _ => {},
        }
    }

    fn mode_bits(&self) -> (r: u8)
        ensures
            r == mode_number(self@.mode),
    {
        match self.mode {
            PpuMode::HBlank => 0,
            PpuMode::VBlank => 1,
            PpuMode::OamScan => 2,
            PpuMode::Drawing => 3,
        }
    }

    fn coincidence_bit(&self) -> (r: u8)
        ensures
            r == (if self@.ly == self@.lyc {
                0x04u8
            } else {
                0u8
            }),
    {
        if self.ly == self.lyc {
            0x04
        } else {
            0
        }
    }

    /// The frame: one shade per pixel, row by row, 0 the lightest.
    pub fn framebuffer(&self) -> (r: &[u8; SCREEN_PIXELS])
        ensures
            r@ == self@.framebuffer,
    {
        &self.framebuffer
    }

    // ---- Rendering ----

    /// Draws line LY into the framebuffer.
    fn render_scanline(&mut self)
        requires
            old(self)@.memory_wf(),
            old(self)@.ly < SCREEN_HEIGHT,
        ensures
            final(self)@ == draw_line(old(self)@),
    {
        let line: usize = self.ly as usize;
        let ghost s = self@;
        // The color indices of background and window, which decide over the
        // sprites behind them.
        let mut bg_index: [u8; SCREEN_WIDTH] = [0u8; SCREEN_WIDTH];
        proof {
            lemma_masks(self.lcdc);
        }
        if self.lcdc & 0x01 != 0 {
            self.render_background(line, &mut bg_index);
            let window_visible = self.lcdc & 0x20 != 0 && self.ly >= self.wy && self.wx >= 7
                && self.wx <= 166;
            if window_visible {
                self.render_window(line, &mut bg_index);
            }
        } else {
            let mut x: usize = 0;
            while x < SCREEN_WIDTH
                invariant
                    x <= SCREEN_WIDTH,
                    line == s.ly,
                    s.ly < SCREEN_HEIGHT,
                    s.memory_wf(),
                    self@ == (PpuState { framebuffer: self@.framebuffer, ..s }),
                    same_outside_line(s, self@.framebuffer),
                    forall|i: int|
                        0 <= i < x ==> #[trigger] self@.framebuffer[pixel_index(line as int, i)]
                            == 0,
                decreases SCREEN_WIDTH - x,
            {
                self.set_pixel(x, line, 0);
                x += 1;
            }
        }
        assert forall|i: int| 0 <= i < SCREEN_WIDTH implies #[trigger] bg_index@[i] == bg_color(
            s,
            i,
        ) by {}
        assert forall|i: int| 0 <= i < SCREEN_WIDTH implies
            #[trigger] self@.framebuffer[pixel_index(line as int, i)] == bg_shade(s, i) by {}
        if self.lcdc & 0x02 != 0 {
            self.render_sprites(line, &bg_index, Ghost(s));
        }
        proof {
            assert forall|p: int| 0 <= p < SCREEN_PIXELS implies #[trigger] self@.framebuffer[p]
                == draw_line(s).framebuffer[p] by {
                if in_line(line as int, p) {
                    let i = p - line * SCREEN_WIDTH;
                    assert(p == pixel_index(line as int, i));
                    assert(self@.framebuffer[pixel_index(line as int, i)] == pixel(s, i));
                }
            }
            assert(self@.framebuffer =~= draw_line(s).framebuffer);
        }
    }

    /// Draws the background of the line and stores its color indices.
    fn render_background(&mut self, line: usize, bg_index: &mut [u8; SCREEN_WIDTH])
        requires
            old(self)@.memory_wf(),
            old(self)@.ly < SCREEN_HEIGHT,
            line == old(self)@.ly,
        ensures
            final(self)@ == (PpuState { framebuffer: final(self)@.framebuffer, ..old(self)@ }),
            same_outside_line(old(self)@, final(self)@.framebuffer),
            forall|i: int|
                0 <= i < SCREEN_WIDTH ==> #[trigger] final(bg_index)@[i] == background_color(
                    old(self)@,
                    i,
                ),
            forall|i: int|
                0 <= i < SCREEN_WIDTH ==> #[trigger] final(self)@.framebuffer[pixel_index(
                    line as int,
                    i,
                )] == shade(old(self)@.bgp, background_color(old(self)@, i)),
    {
        let ghost s = self@;
        proof {
            lemma_masks(self.lcdc);
        }
        let tile_map_base: u16 = if self.lcdc & 0x08 != 0 {
            0x9C00
        } else {
            0x9800
        };
        let y: u8 = self.scy.wrapping_add(line as u8);
        let mut x: usize = 0;
        while x < SCREEN_WIDTH
            invariant
                x <= SCREEN_WIDTH,
                line == s.ly,
                s.ly < SCREEN_HEIGHT,
                s.memory_wf(),
                tile_map_base == 0x8000 + (if bit(s.lcdc, 3) {
                    0x1C00int
                } else {
                    0x1800int
                }),
                y == (s.scy + s.ly) % 256,
                self@ == (PpuState { framebuffer: self@.framebuffer, ..s }),
                same_outside_line(s, self@.framebuffer),
                forall|i: int|
                    0 <= i < x ==> #[trigger] bg_index@[i] == background_color(s, i),
                forall|i: int|
                    0 <= i < x ==> #[trigger] self@.framebuffer[pixel_index(line as int, i)]
                        == shade(s.bgp, background_color(s, i)),
            decreases SCREEN_WIDTH - x,
        {
            let scrolled_x: u8 = self.scx.wrapping_add(x as u8);
            let color_id: u8 = self.map_pixel(tile_map_base, y, scrolled_x);
            assert(color_id == background_color(s, x as int));
            bg_index[x] = color_id;
            self.set_pixel(x, line, Self::apply_palette(color_id, self.bgp));
            x += 1;
        }
    }

    /// Draws the window over the background and moves it on to its next line.
    fn render_window(&mut self, line: usize, bg_index: &mut [u8; SCREEN_WIDTH])
        requires
            old(self)@.memory_wf(),
            old(self)@.ly < SCREEN_HEIGHT,
            line == old(self)@.ly,
            window_visible(old(self)@),
        ensures
            final(self)@ == (PpuState {
                framebuffer: final(self)@.framebuffer,
                window_line: ((old(self)@.window_line + 1) % 256) as u8,
                ..old(self)@
            }),
            same_outside_line(old(self)@, final(self)@.framebuffer),
            forall|i: int|
                0 <= i < SCREEN_WIDTH ==> #[trigger] final(bg_index)@[i] == (if window_covers(
                    old(self)@,
                    i,
                ) {
                    window_color(old(self)@, i)
                } else {
                    old(bg_index)@[i]
                }),
            forall|i: int|
                0 <= i < SCREEN_WIDTH ==> #[trigger] final(self)@.framebuffer[pixel_index(
                    line as int,
                    i,
                )] == (if window_covers(old(self)@, i) {
                    shade(old(self)@.bgp, window_color(old(self)@, i))
                } else {
                    old(self)@.framebuffer[pixel_index(line as int, i)]
                }),
    {
        let ghost s = self@;
        let ghost bg = bg_index@;
        proof {
            lemma_masks(self.lcdc);
        }
        let tile_map_base: u16 = if self.lcdc & 0x40 != 0 {
            0x9C00
        } else {
            0x9800
        };
        let wx: u8 = self.wx - 7;
        let y: u8 = self.window_line;
        let mut x: usize = 0;
        while x < SCREEN_WIDTH
            invariant
                x <= SCREEN_WIDTH,
                line == s.ly,
                s.ly < SCREEN_HEIGHT,
                s.memory_wf(),
                window_visible(s),
                tile_map_base == 0x8000 + (if bit(s.lcdc, 6) {
                    0x1C00int
                } else {
                    0x1800int
                }),
                wx == s.wx - 7,
                y == s.window_line,
                self@ == (PpuState { framebuffer: self@.framebuffer, ..s }),
                same_outside_line(s, self@.framebuffer),
                forall|i: int|
                    0 <= i < SCREEN_WIDTH ==> #[trigger] bg_index@[i] == (if i < x && window_covers(
                        s,
                        i,
                    ) {
                        window_color(s, i)
                    } else {
                        bg[i]
                    }),
                forall|i: int|
                    0 <= i < SCREEN_WIDTH ==> #[trigger] self@.framebuffer[pixel_index(
                        line as int,
                        i,
                    )] == (if i < x && window_covers(s, i) {
                        shade(s.bgp, window_color(s, i))
                    } else {
                        s.framebuffer[pixel_index(line as int, i)]
                    }),
            decreases SCREEN_WIDTH - x,
        {
            let screen_x: u8 = x as u8;
            if screen_x >= wx {
                let window_x: u8 = screen_x - wx;
                let color_id: u8 = self.map_pixel(tile_map_base, y, window_x);
                assert(window_covers(s, x as int));
                assert(color_id == window_color(s, x as int));
                bg_index[x] = color_id;
                self.set_pixel(x, line, Self::apply_palette(color_id, self.bgp));
            }
            x += 1;
        }
        self.window_line = self.window_line.wrapping_add(1);
    }

    /// Draws the sprites of the line over background and window.
    fn render_sprites(
        &mut self,
        line: usize,
        bg_index: &[u8; SCREEN_WIDTH],
        Ghost(s): Ghost<PpuState>,
    )
        requires
            s.memory_wf(),
            s.ly < SCREEN_HEIGHT,
            line == s.ly,
            old(self)@ == (PpuState {
                framebuffer: old(self)@.framebuffer,
                window_line: old(self)@.window_line,
                ..s
            }),
            old(self)@.framebuffer.len() == SCREEN_PIXELS,
            forall|i: int| 0 <= i < SCREEN_WIDTH ==> #[trigger] bg_index@[i] == bg_color(s, i),
        ensures
            final(self)@ == (PpuState { framebuffer: final(self)@.framebuffer, ..old(self)@ }),
            same_outside_line(old(self)@, final(self)@.framebuffer),
            forall|i: int|
                0 <= i < SCREEN_WIDTH ==> #[trigger] final(self)@.framebuffer[pixel_index(
                    line as int,
                    i,
                )] == (match front_sprite(s, i, SPRITES as int) {
                    Some(k) => sprite_shade(s, k, i),
                    None => old(self)@.framebuffer[pixel_index(line as int, i)],
                }),
    {
        let ghost start = self@;
        proof {
            lemma_masks(self.lcdc);
        }
        let sprite_height: u8 = if self.lcdc & 0x04 != 0 {
            16
        } else {
            8
        };
        let order = self.scan_oam(line, sprite_height, Ghost(s));
        let mut k: usize = 0;
        while k < order.len()
            invariant
                k <= order@.len(),
                s.memory_wf(),
                s.ly < SCREEN_HEIGHT,
                line == s.ly,
                start.framebuffer.len() == SCREEN_PIXELS,
                start == (PpuState {
                    framebuffer: start.framebuffer,
                    window_line: start.window_line,
                    ..s
                }),
                sprite_height == crate::scanline::sprite_height(s),
                back_to_front(s, order@, SPRITES as int),
                forall|i: int| 0 <= i < SCREEN_WIDTH ==> #[trigger] bg_index@[i] == bg_color(s, i),
                self@ == (PpuState { framebuffer: self@.framebuffer, ..start }),
                same_outside_line(start, self@.framebuffer),
                forall|i: int|
                    0 <= i < SCREEN_WIDTH ==> #[trigger] self@.framebuffer[pixel_index(
                        line as int,
                        i,
                    )] == painted(
                        s,
                        order@,
                        k as int,
                        i,
                        start.framebuffer[pixel_index(line as int, i)],
                    ),
            decreases order@.len() - k,
        {
            self.draw_sprite(order[k].1, line, sprite_height, bg_index, Ghost(s));
            k += 1;
        }
        proof {
            assert forall|i: int| 0 <= i < SCREEN_WIDTH implies
                #[trigger] self@.framebuffer[pixel_index(line as int, i)] == (match front_sprite(
                s,
                i,
                SPRITES as int,
            ) {
                Some(k) => sprite_shade(s, k, i),
                None => start.framebuffer[pixel_index(line as int, i)],
            }) by {
                lemma_painted_is_front(
                    s,
                    order@,
                    i,
                    start.framebuffer[pixel_index(line as int, i)],
                );
            }
        }
    }

    /// The sprites that the OAM scan picks for the line, from the one furthest
    /// back to the frontmost: their X coordinates and numbers.
    fn scan_oam(&self, line: usize, sprite_height: u8, Ghost(s): Ghost<PpuState>) -> (order: Vec<
        (u8, usize),
    >)
        requires
            s.memory_wf(),
            s.ly < SCREEN_HEIGHT,
            line == s.ly,
            self@.oam == s.oam,
            sprite_height == crate::scanline::sprite_height(s),
        ensures
            back_to_front(s, order@, SPRITES as int),
    {
        let mut order: Vec<(u8, usize)> = Vec::new();
        let mut i: usize = 0;
        while i < SPRITES && order.len() < SPRITES_PER_LINE
            invariant
                i <= SPRITES,
                s.memory_wf(),
                s.ly < SCREEN_HEIGHT,
                line == s.ly,
                self@.oam == s.oam,
                sprite_height == crate::scanline::sprite_height(s),
                back_to_front(s, order@, i as int),
                order@.len() == sprites_on_line(s, i as int),
                order@.len() <= SPRITES_PER_LINE,
            decreases SPRITES - i,
        {
            let base: usize = i * 4;
            let sprite_y: i16 = self.oam[base] as i16 - 16;
            assert(sprite_y == sprite_top(s, i as int));
            if (line as i16) >= sprite_y && (line as i16) < sprite_y + sprite_height as i16 {
                insert_sprite(&mut order, self.oam[base + 1], i, Ghost(s));
            }
            i += 1;
        }
        proof {
            lemma_scan_complete(s, order@, i as int);
        }
        order
    }

    /// Draws one sprite.
    fn draw_sprite(
        &mut self,
        i: usize,
        line: usize,
        sprite_height: u8,
        bg_index: &[u8; SCREEN_WIDTH],
        Ghost(s): Ghost<PpuState>,
    )
        requires
            s.memory_wf(),
            s.ly < SCREEN_HEIGHT,
            line == s.ly,
            i < SPRITES,
            sprite_selected(s, i as int),
            old(self)@ == (PpuState {
                framebuffer: old(self)@.framebuffer,
                window_line: old(self)@.window_line,
                ..s
            }),
            old(self)@.framebuffer.len() == SCREEN_PIXELS,
            sprite_height == crate::scanline::sprite_height(s),
            forall|x: int| 0 <= x < SCREEN_WIDTH ==> #[trigger] bg_index@[x] == bg_color(s, x),
        ensures
            final(self)@ == (PpuState { framebuffer: final(self)@.framebuffer, ..old(self)@ }),
            same_outside_line(old(self)@, final(self)@.framebuffer),
            forall|x: int|
                0 <= x < SCREEN_WIDTH ==> #[trigger] final(self)@.framebuffer[pixel_index(
                    line as int,
                    x,
                )] == (if sprite_shows(s, i as int, x) {
                    sprite_shade(s, i as int, x)
                } else {
                    old(self)@.framebuffer[pixel_index(line as int, x)]
                }),
    {
        let ghost start = self@;
        let base: usize = i * 4;
        let sprite_y: i16 = self.oam[base] as i16 - 16;
        let sprite_x: i16 = self.oam[base + 1] as i16 - 8;
        let mut tile_id: u8 = self.oam[base + 2];
        let attrs: u8 = self.oam[base + 3];
        proof {
            lemma_masks(attrs);
            lemma_fields(tile_id);
            assert(attrs == sprite_attributes(s, i as int));
        }
        let flip_y = attrs & 0x40 != 0;
        let flip_x = attrs & 0x20 != 0;
        let behind_bg = attrs & 0x80 != 0;
        let palette: u8 = if attrs & 0x10 != 0 {
            self.obp1
        } else {
            self.obp0
        };
        let mut row: u8 = (line as i16 - sprite_y) as u8;
        if flip_y {
            row = sprite_height - 1 - row;
        }
        if sprite_height == 16 {
            tile_id &= 0xFE;
        }
        let tile_addr: u16 = 0x8000 + (tile_id as u16) * 16;
        assert(row == sprite_row(s, i as int));
        assert(tile_id == sprite_tile(s, i as int));
        let mut col: u8 = 0;
        while col < 8
            invariant
                col <= 8,
                s.memory_wf(),
                s.ly < SCREEN_HEIGHT,
                line == s.ly,
                i < SPRITES,
                sprite_selected(s, i as int),
                start.framebuffer.len() == SCREEN_PIXELS,
                start == (PpuState {
                    framebuffer: start.framebuffer,
                    window_line: start.window_line,
                    ..s
                }),
                sprite_height == crate::scanline::sprite_height(s),
                sprite_x == sprite_left(s, i as int),
                tile_id == sprite_tile(s, i as int),
                tile_addr == 0x8000 + tile_id * 16,
                row == sprite_row(s, i as int),
                row < sprite_height,
                sprite_height == 16 ==> tile_id % 2 == 0,
                flip_x == bit(sprite_attributes(s, i as int), 5),
                behind_bg == bit(sprite_attributes(s, i as int), 7),
                palette == (if bit(sprite_attributes(s, i as int), 4) {
                    s.obp1
                } else {
                    s.obp0
                }),
                forall|x: int| 0 <= x < SCREEN_WIDTH ==> #[trigger] bg_index@[x] == bg_color(s, x),
                self@ == (PpuState { framebuffer: self@.framebuffer, ..start }),
                same_outside_line(start, self@.framebuffer),
                forall|x: int|
                    0 <= x < SCREEN_WIDTH ==> #[trigger] self@.framebuffer[pixel_index(
                        line as int,
                        x,
                    )] == (if x < sprite_x + col && sprite_shows(s, i as int, x) {
                        sprite_shade(s, i as int, x)
                    } else {
                        start.framebuffer[pixel_index(line as int, x)]
                    }),
            decreases 8 - col,
        {
            let screen_x: i16 = sprite_x + col as i16;
            if 0 <= screen_x && screen_x < SCREEN_WIDTH as i16 {
                let sample_col: u8 = if flip_x {
                    7 - col
                } else {
                    col
                };
                let color_id: u8 = self.tile_pixel(tile_addr, row as u16, sample_col);
                assert(color_id == sprite_color(s, i as int, screen_x as int));
                if color_id != 0 && !(behind_bg && bg_index[screen_x as usize] != 0) {
                    self.set_pixel(screen_x as usize, line, Self::apply_palette(color_id, palette));
                }
            }
            col += 1;
        }
    }

    // ---- Tile decoding ----

    /// The color index at column `x` and row `y` of the tile map at
    /// `tile_map_base`.
    fn map_pixel(&self, tile_map_base: u16, y: u8, x: u8) -> (r: u8)
        requires
            tile_map_base == 0x9800 || tile_map_base == 0x9C00,
        ensures
            r == map_color(
                self@.vram,
                self@.lcdc,
                tile_map_base == 0x9C00,
                y as int,
                x as int,
            ),
            r < 4,
    {
        proof {
            reveal(map_color);
            lemma_masks(self.lcdc);
        }
        let signed_tiles = self.lcdc & 0x10 == 0;
        let tile_row: u16 = (y / 8) as u16;
        let pixel_row: u16 = (y % 8) as u16;
        let tile_col: u16 = (x / 8) as u16;
        let pixel_col: u8 = x % 8;
        let map_addr: u16 = tile_map_base + tile_row * 32 + tile_col;
        let tile_id: u8 = self.vram_read(map_addr);
        let tile_addr: u16 = self.tile_data_addr(tile_id, signed_tiles);
        self.tile_pixel(tile_addr, pixel_row, pixel_col)
    }

    /// Reads video RAM for the renderer, which no mode locks out.
    fn vram_read(&self, address: u16) -> (r: u8)
        requires
            0x8000 <= address <= 0x9FFF,
        ensures
            r == self@.vram[address - 0x8000],
    {
        self.vram[(address - 0x8000) as usize]
    }

    fn tile_data_addr(&self, tile_id: u8, signed_tiles: bool) -> (r: u16)
        requires
            signed_tiles == !bit(self@.lcdc, 4),
        ensures
            r == 0x8000 + tile_base(self@.lcdc, tile_id),
            0x8000 <= r <= 0x97F0,
    {
        if signed_tiles {
            proof {
                lemma_signed(tile_id);
            }
            let id: i32 = tile_id as i8 as i32;
            (0x9000i32 + id * 16) as u16
        } else {
            0x8000 + (tile_id as u16) * 16
        }
    }

    fn tile_pixel(&self, tile_addr: u16, row: u16, col: u8) -> (r: u8)
        requires
            0x8000 <= tile_addr,
            tile_addr + 2 * row + 1 <= 0x9FFF,
            col < 8,
        ensures
            r == tile_color(self@.vram, tile_addr - 0x8000, row as int, col as int),
            r < 4,
    {
        let byte_addr: u16 = tile_addr + row * 2;
        let low: u8 = self.vram_read(byte_addr);
        let high: u8 = self.vram_read(byte_addr + 1);
        let b: u8 = 7 - col;
        let lo: u8 = (low >> b) & 1;
        let hi: u8 = (high >> b) & 1;
        proof {
            lemma_join_planes(low, high, b);
        }
        (hi << 1) | lo
    }

    fn apply_palette(color_id: u8, palette: u8) -> (r: u8)
        requires
            color_id < 4,
        ensures
            r == shade(palette, color_id),
            r < 4,
    {
        proof {
            lemma_shade_range(palette, color_id);
        }
        (palette >> (color_id * 2)) & 0x03
    }

    fn set_pixel(&mut self, x: usize, y: usize, pixel_shade: u8)
        requires
            x < SCREEN_WIDTH,
            y < SCREEN_HEIGHT,
        ensures
            final(self)@ == (PpuState { framebuffer: final(self)@.framebuffer, ..old(self)@ }),
            final(self)@.framebuffer.len() == old(self)@.framebuffer.len(),
            forall|i: int|
                0 <= i < SCREEN_WIDTH ==> #[trigger] final(self)@.framebuffer[pixel_index(
                    y as int,
                    i,
                )] == (if i == x {
                    pixel_shade
                } else {
                    old(self)@.framebuffer[pixel_index(y as int, i)]
                }),
            forall|p: int|
                0 <= p < old(self)@.framebuffer.len() && !in_line(y as int, p)
                    ==> #[trigger] final(self)@.framebuffer[p] == old(self)@.framebuffer[p],
    {
        self.framebuffer[y * SCREEN_WIDTH + x] = pixel_shade;
    }
}

/// Inserts a sprite into a list that runs from back to front. No sprite of the
/// list has a higher number.
fn insert_sprite(order: &mut Vec<(u8, usize)>, x: u8, i: usize, Ghost(s): Ghost<PpuState>)
    requires
        s.memory_wf(),
        i < SPRITES,
        x == s.oam[4 * i + 1],
        sprite_selected(s, i as int),
        back_to_front(s, old(order)@, i as int),
    ensures
        back_to_front(s, final(order)@, i + 1),
        final(order)@.len() == old(order)@.len() + 1,
{
    let mut position: usize = 0;
    while position < order.len() && order[position].0 > x
        invariant
            position <= order@.len(),
            forall|k: int| 0 <= k < position ==> #[trigger] order@[k].0 > x,
        decreases order@.len() - position,
    {
        position += 1;
    }
    let ghost before = order@;
    order.insert(position, (x, i));
    proof {
        lemma_insert_sprite(s, before, position as int, x, i);
    }
}

// ---- Laws ----

/// T-cycles of a frame.
pub const FRAME_CYCLES: u32 = 70224;

/// The T-cycle of a frame at which the vertical blank begins.
pub const VBLANK_START: u32 = 65664;

/// The position within the frame, in T-cycles.
pub open spec fn frame_position(s: PpuState) -> int {
    s.ly * SCANLINE_CYCLES + s.dot
}

/// A T-cycle keeps the state well-formed: LY stays below 154, the mode fits
/// the position in the line, and every pixel stays one of the four shades.
pub proof fn lemma_cycle_wf(s: PpuState)
    requires
        s.wf(),
    ensures
        ppu_cycle(s).0.wf(),
{
    if lcd_on(s) && s.mode == PpuMode::Drawing && s.dot + 1 == OAM_SCAN_CYCLES + DRAWING_CYCLES {
        let t = PpuState { dot: (s.dot + 1) as u32, ..s };
        assert forall|p: int| 0 <= p < SCREEN_PIXELS implies #[trigger] draw_line(t).framebuffer[p]
            < 4 by {
            lemma_pixel_range(t, p - t.ly * SCREEN_WIDTH);
        }
    }
}

/// Any number of T-cycles keeps the state well-formed.
pub proof fn lemma_cycles_wf(s: PpuState, n: nat)
    requires
        s.wf(),
    ensures
        ppu_cycles(s, n).0.wf(),
    decreases n,
{
    if n > 0 {
        lemma_cycles_wf(s, (n - 1) as nat);
        lemma_cycle_wf(ppu_cycles(s, (n - 1) as nat).0);
    }
}

/// Running `a` and then `b` T-cycles is running `a + b`, and the interrupts of
/// the two spans add up.
pub proof fn lemma_cycles_add(s: PpuState, a: nat, b: nat)
    ensures
        ppu_cycles(s, a + b).0 == ppu_cycles(ppu_cycles(s, a).0, b).0,
        ppu_cycles(s, a + b).1 == (ppu_cycles(s, a).1 || ppu_cycles(ppu_cycles(s, a).0, b).1),
        ppu_cycles(s, a + b).2 == (ppu_cycles(s, a).2 || ppu_cycles(ppu_cycles(s, a).0, b).2),
    decreases b,
{
    if b > 0 {
        lemma_cycles_add(s, a, (b - 1) as nat);
        assert((a + b - 1) as nat == a + (b - 1) as nat);
    }
}

/// With the LCD on, a T-cycle moves the position on by one within a frame of
/// 70224, and the VBlank interrupt fires exactly on entering line 144.
pub proof fn law_frame_timing(s: PpuState)
    requires
        s.wf(),
        lcd_on(s),
    ensures
        lcd_on(ppu_cycle(s).0),
        frame_position(ppu_cycle(s).0) == (frame_position(s) + 1) % (FRAME_CYCLES as int),
        ppu_cycle(s).1 <==> frame_position(ppu_cycle(s).0) == VBLANK_START,
{
    if s.ly + 1 == TOTAL_LINES && s.dot + 1 == SCANLINE_CYCLES {
        assert(frame_position(s) + 1 == FRAME_CYCLES);
    } else {
        assert(frame_position(s) + 1 < FRAME_CYCLES);
    }
}

/// With the LCD on, `n` T-cycles move the position on by `n` within the frame.
pub proof fn law_frame_position(s: PpuState, n: nat)
    requires
        s.wf(),
        lcd_on(s),
    ensures
        lcd_on(ppu_cycles(s, n).0),
        frame_position(ppu_cycles(s, n).0) == (frame_position(s) + n) % (FRAME_CYCLES as int),
    decreases n,
{
    if n == 0 {
        assert(0 <= frame_position(s) < FRAME_CYCLES);
    } else {
        let before = ppu_cycles(s, (n - 1) as nat).0;
        law_frame_position(s, (n - 1) as nat);
        lemma_cycles_wf(s, (n - 1) as nat);
        law_frame_timing(before);
    }
}

/// The mode that belongs to a position: the vertical blank from line 144 on,
/// and before it in every line the OAM scan, the drawing and the horizontal
/// blank.
pub open spec fn mode_at(ly: u8, dot: u32) -> PpuMode {
    if ly >= SCREEN_HEIGHT {
        PpuMode::VBlank
    } else if dot < OAM_SCAN_CYCLES {
        PpuMode::OamScan
    } else if dot < OAM_SCAN_CYCLES + DRAWING_CYCLES {
        PpuMode::Drawing
    } else {
        PpuMode::HBlank
    }
}

/// Whether the mode is the one that belongs to the position. It is from the
/// start; only the line on which the LCD is switched on again is blank
/// throughout.
pub open spec fn in_step(s: PpuState) -> bool {
    s.mode == mode_at(s.ly, s.dot)
}

/// While the LCD is on, the mode goes by the position alone: it does at the
/// start, and time, register writes, writes to video memory and transfers into
/// OAM keep it so.
pub proof fn law_mode_by_position(s: PpuState, n: nat, address: u16, value: u8, oam: Seq<u8>)
    requires
        s.wf(),
        lcd_on(s),
        in_step(s),
    ensures
        in_step(ppu_reset()),
        in_step(ppu_cycles(s, n).0),
        in_step(ppu_register_write(s, address, value)),
        in_step(vram_write(s, address, value)),
        in_step(oam_write(s, address, value)),
        in_step(PpuState { oam, ..s }),
    decreases n,
{
    if n > 0 {
        law_mode_by_position(s, (n - 1) as nat, address, value, oam);
        lemma_cycles_wf(s, (n - 1) as nat);
        law_frame_position(s, (n - 1) as nat);
    }
}

/// From the start, after `n` T-cycles LY, the position in the line and the mode
/// are those of T-cycle `n` within frames of 70224.
pub proof fn law_timing_from_reset(n: nat)
    ensures
        ({
            let t = ppu_cycles(ppu_reset(), n).0;
            let at = n as int % FRAME_CYCLES as int;
            &&& t.ly == at / SCANLINE_CYCLES as int
            &&& t.dot == at % SCANLINE_CYCLES as int
            &&& t.mode == mode_at(t.ly, t.dot)
        }),
{
    let s = ppu_reset();
    lemma_stat_mask(0);
    law_mode_by_position(s, n, 0, 0, s.oam);
    law_frame_position(s, n);
    lemma_cycles_wf(s, n);
    let t = ppu_cycles(s, n).0;
    assert(t.dot < SCANLINE_CYCLES);
}

/// How many of the next `n` T-cycles fire the VBlank interrupt.
pub open spec fn vblank_count(s: PpuState, n: nat) -> int
    decreases n,
{
    if n == 0 {
        0
    } else {
        vblank_count(s, (n - 1) as nat) + (if ppu_cycle(ppu_cycles(s, (n - 1) as nat).0).1 {
            1int
        } else {
            0int
        })
    }
}

/// Moving from `q` to `q + 1` enters a new vertical blank where `q + 1` is at
/// its start within the frame.
proof fn lemma_count_crossing(q: int)
    requires
        q >= 0,
    ensures
        (q + 1 + FRAME_CYCLES - VBLANK_START) / (FRAME_CYCLES as int) == (q + FRAME_CYCLES
            - VBLANK_START) / (FRAME_CYCLES as int) + (if (q + 1) % (FRAME_CYCLES as int)
            == VBLANK_START {
            1int
        } else {
            0int
        }),
        ((q % (FRAME_CYCLES as int)) + 1) % (FRAME_CYCLES as int) == (q + 1) % (
        FRAME_CYCLES as int),
{
}

proof fn lemma_vblank_count(s: PpuState, n: nat)
    requires
        s.wf(),
        lcd_on(s),
    ensures
        vblank_count(s, n) == (frame_position(s) + n + FRAME_CYCLES - VBLANK_START) / (
        FRAME_CYCLES as int) - (frame_position(s) + FRAME_CYCLES - VBLANK_START) / (
        FRAME_CYCLES as int),
    decreases n,
{
    if n > 0 {
        let before = ppu_cycles(s, (n - 1) as nat).0;
        lemma_vblank_count(s, (n - 1) as nat);
        lemma_count_crossing(frame_position(s) + n - 1);
        law_frame_position(s, (n - 1) as nat);
        lemma_cycles_wf(s, (n - 1) as nat);
        law_frame_timing(before);
    }
}

/// With the LCD on, every 70224 T-cycles fire the VBlank interrupt exactly
/// once and come back to the same line and dot.
pub proof fn law_one_vblank_per_frame(s: PpuState)
    requires
        s.wf(),
        lcd_on(s),
    ensures
        vblank_count(s, FRAME_CYCLES as nat) == 1,
        ppu_cycles(s, FRAME_CYCLES as nat).0.ly == s.ly,
        ppu_cycles(s, FRAME_CYCLES as nat).0.dot == s.dot,
{
    lemma_vblank_count(s, FRAME_CYCLES as nat);
    law_frame_position(s, FRAME_CYCLES as nat);
    lemma_cycles_wf(s, FRAME_CYCLES as nat);
    let t = ppu_cycles(s, FRAME_CYCLES as nat).0;
    lemma_frame_wraps(frame_position(s));
    lemma_position_unique(s.ly as int, s.dot as int, t.ly as int, t.dot as int);
}

/// A whole frame leads back to the same position.
proof fn lemma_frame_wraps(position: int)
    requires
        0 <= position < FRAME_CYCLES,
    ensures
        (position + FRAME_CYCLES) % (FRAME_CYCLES as int) == position,
{
}

/// A position has one line and one dot.
proof fn lemma_position_unique(ly1: int, dot1: int, ly2: int, dot2: int)
    requires
        0 <= dot1 < SCANLINE_CYCLES,
        0 <= dot2 < SCANLINE_CYCLES,
        ly1 * SCANLINE_CYCLES + dot1 == ly2 * SCANLINE_CYCLES + dot2,
    ensures
        ly1 == ly2,
        dot1 == dot2,
{
}

/// Whether video memory and the registers that the CPU writes are the same.
pub open spec fn same_video_memory(s: PpuState, t: PpuState) -> bool {
    t == (PpuState {
        ly: t.ly,
        mode: t.mode,
        dot: t.dot,
        window_line: t.window_line,
        stat_irq_line: t.stat_irq_line,
        framebuffer: t.framebuffer,
        ..s
    })
}

/// Time changes neither video memory nor the registers that the CPU writes.
pub proof fn lemma_cycles_keep_memory(s: PpuState, n: nat)
    ensures
        same_video_memory(s, ppu_cycles(s, n).0),
    decreases n,
{
    if n > 0 {
        lemma_cycles_keep_memory(s, (n - 1) as nat);
    }
}

/// The picture changes only in the T-cycle in which a line ends its drawing
/// mode, and then in that line alone.
pub proof fn law_lines_are_drawn_at_once(s: PpuState, p: int)
    requires
        s.wf(),
        0 <= p < SCREEN_PIXELS,
        ppu_cycle(s).0.framebuffer[p] != s.framebuffer[p],
    ensures
        s.mode == PpuMode::Drawing,
        ppu_cycle(s).0.mode == PpuMode::HBlank,
        in_line(s.ly as int, p),
        ppu_cycle(s).0.framebuffer[p] == pixel(s, p - s.ly * SCREEN_WIDTH),
{
    let t = PpuState { dot: (s.dot + 1) as u32, ..s };
    lemma_pixel_ignores_dot(s, t, p - s.ly * SCREEN_WIDTH);
}

/// The window counts its own lines: one for each line on which it covers a
/// column, and from 0 again with every vertical blank.
pub proof fn law_window_counts_its_lines(s: PpuState)
    requires
        s.wf(),
        lcd_on(s),
    ensures
        ppu_cycle(s).1 ==> ppu_cycle(s).0.window_line == 0,
        !ppu_cycle(s).1 ==> ppu_cycle(s).0.window_line == (if s.mode == PpuMode::Drawing
            && ppu_cycle(s).0.mode == PpuMode::HBlank && (exists|x: int|
            0 <= x < SCREEN_WIDTH && #[trigger] window_covers(s, x)) {
            (s.window_line + 1) % 256
        } else {
            s.window_line as int
        }),
{
    if window_visible(s) {
        assert(window_covers(s, SCREEN_WIDTH - 1));
    }
}

/// With the LCD off no T-cycle fires an interrupt. After it LY and the mode
/// read 0; memory, picture and the registers that the CPU writes stay as they
/// are. A second T-cycle changes nothing more.
pub proof fn law_lcd_off(s: PpuState)
    requires
        s.wf(),
        !lcd_on(s),
    ensures
        ({
            let (t, vblank, stat) = ppu_cycle(s);
            &&& !vblank
            &&& !stat
            &&& ppu_register_read(t, 0xFF44) == 0
            &&& t.mode == PpuMode::HBlank
            &&& ppu_register_read(t, 0xFF41) & 3 == 0
            &&& same_video_memory(s, t)
            &&& t.framebuffer == s.framebuffer
            &&& t.window_line == s.window_line
            &&& ppu_cycle(t) == (t, false, false)
        }),
{
    lemma_stat_fields(s.stat, s.lyc == 0, 0);
}

/// Masking the enable bits of STAT leaves those bits alone; the LCD is on at
/// the start.
pub proof fn lemma_stat_mask(value: u8)
    by (bit_vector)
    ensures
        (value & 0x78) & 0x78 == value & 0x78,
        0u8 & 0x78 == 0,
        bit(0x91, 7),
{
}

/// The fields of STAT do not overlap.
pub proof fn lemma_stat_fields(stat: u8, coincidence: bool, mode: u8)
    requires
        stat & 0x78 == stat,
        mode < 4,
    ensures
        ({
            let v = 0x80u8 | stat | (if coincidence {
                0x04u8
            } else {
                0u8
            }) | mode;
            &&& v & 3 == mode
            &&& v & 7 == (if coincidence {
                0x04u8
            } else {
                0u8
            }) | mode
            &&& v == 0x80u8 | stat | (v & 7)
            &&& v == 0x80 + stat + (if coincidence {
                4int
            } else {
                0int
            }) + mode
        }),
{
    let c: u8 = if coincidence {
        0x04
    } else {
        0
    };
    let v = 0x80u8 | stat | c | mode;
    assert(v & 3 == mode && v & 7 == c | mode && v == 0x80u8 | stat | (v & 7) && v == 0x80u8 + stat
        + c + mode) by (bit_vector)
        requires
            v == 0x80u8 | stat | c | mode,
            stat & 0x78 == stat,
            mode < 4,
            c == 0 || c == 4,
    ;
}

/// The STAT interrupt is edge-triggered: it does not fire in a T-cycle while
/// the line was already high before it.
pub proof fn law_stat_edge(s: PpuState)
    ensures
        s.stat_irq_line ==> !ppu_cycle(s).2,
        lcd_on(s) ==> ppu_cycle(s).0.stat_irq_line == stat_source_active(ppu_cycle(s).0),
{
}

/// What the CPU writes to video RAM it reads back, except while the PPU draws:
/// then the write changes nothing and the read gives 0xFF.
pub proof fn law_vram_read_back(s: PpuState, address: u16, value: u8)
    requires
        s.wf(),
        0x8000 <= address <= 0x9FFF,
    ensures
        s.mode != PpuMode::Drawing ==> vram_read(vram_write(s, address, value), address) == value,
        s.mode == PpuMode::Drawing ==> vram_write(s, address, value) == s && vram_read(s, address)
            == 0xFF,
{
}

/// What the CPU writes to OAM it reads back, except while the PPU scans OAM or
/// draws: then the write changes nothing and the read gives 0xFF.
pub proof fn law_oam_read_back(s: PpuState, address: u16, value: u8)
    requires
        s.wf(),
        0xFE00 <= address <= 0xFE9F,
    ensures
        !oam_locked(s) ==> oam_read(oam_write(s, address, value), address) == value,
        oam_locked(s) ==> oam_write(s, address, value) == s && oam_read(s, address) == 0xFF,
{
}

/// Every register but STAT and LY reads back what was written to it.
pub proof fn law_register_read_back(s: PpuState, address: u16, value: u8)
    requires
        0xFF40 <= address <= 0xFF4B,
        address != 0xFF41,
        address != 0xFF44,
        address != 0xFF46,
    ensures
        ppu_register_read(ppu_register_write(s, address, value), address) == value,
{
}

/// LY cannot be written, and neither can an address that is no register. A
/// write to STAT sets its four enable bits and keeps the three low bits that
/// were read before.
pub proof fn law_ly_and_stat_read_only(s: PpuState, address: u16, value: u8)
    requires
        s.wf(),
    ensures
        address < 0xFF40 || address == 0xFF44 || address == 0xFF46 || address > 0xFF4B
            ==> ppu_register_write(s, address, value) == s,
        ppu_register_read(ppu_register_write(s, 0xFF41, value), 0xFF41) == 0x80u8 | (value & 0x78)
            | (ppu_register_read(s, 0xFF41) & 0x07),
{
    lemma_stat_mask(value);
    lemma_stat_fields(s.stat, s.ly == s.lyc, mode_number(s.mode));
    lemma_stat_fields(value & 0x78, s.ly == s.lyc, mode_number(s.mode));
}

/// A register write changes neither memory, picture nor timing, and no other
/// register that is stored.
pub proof fn law_register_write_is_local(s: PpuState, address: u16, value: u8, other: u16)
    ensures
        ({
            let t = ppu_register_write(s, address, value);
            &&& t.vram == s.vram
            &&& t.oam == s.oam
            &&& t.framebuffer == s.framebuffer
            &&& t.mode == s.mode
            &&& t.ly == s.ly
            &&& t.dot == s.dot
            &&& t.window_line == s.window_line
            &&& t.stat_irq_line == s.stat_irq_line
            &&& address != 0xFF41 ==> t.stat == s.stat
            &&& other != address && other != 0xFF41 ==> ppu_register_read(t, other)
                == ppu_register_read(s, other)
        }),
{
}

} // verus!
