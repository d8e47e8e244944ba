//! Laws of the picture: where in video memory the color of a pixel comes from,
//! and when the PPU does what, in addresses, bits and T-cycles.

use vstd::prelude::*;

use crate::bits::bit;
use crate::ppu::{
    law_frame_timing, law_timing_from_reset, lemma_stat_fields, mode_number, oam_read, oam_write,
    ppu_cycle, ppu_cycles, ppu_register_read, ppu_register_write, ppu_reset, vram_read, vram_write,
    PpuMode, PpuState,
};
use crate::scanline::{
    bg_color, bg_shade, draw_line, front_sprite, in_front, lemma_shades, map_color, pixel, shade,
    sprite_color, sprite_on_line, sprite_selected, sprite_shade, sprite_shows, sprites_on_line,
    window_covers,
};

verus! {

// ---- Tiles and palettes ----

/// The color at row `y` and column `x` of a tile map is made of bit 7 - x % 8 of
/// two bytes of a tile, those at twice y % 8: the first two bytes of a tile are
/// its top row, and the highest bit is its left column. The first byte gives the
/// bit of weight 1 and the second the bit of weight 2. The tile is the one
/// named at entry 32 * (y / 8) + x / 8 of the map. With LCDC bit 4 the tiles
/// stand from 0x8000 on; without it the tiles 0 to 127 stand from 0x9000 on and
/// the tiles 128 to 255 before them.
pub proof fn law_map_color(s: PpuState, upper_map: bool, y: int, x: int)
    requires
        s.vram.len() == 0x2000,
        0 <= y < 256,
        0 <= x < 256,
    ensures
        ({
            let map: int = if upper_map {
                0x1C00
            } else {
                0x1800
            };
            let tile = s.vram[map + 32 * (y / 8) + x / 8];
            let data = if !bit(s.lcdc, 4) && tile < 128 {
                0x1000 + 16 * tile
            } else {
                16 * tile
            };
            let row = data + 2 * (y % 8);
            let color = map_color(s.vram, s.lcdc, upper_map, y, x);
            &&& color < 4
            &&& color % 2 == 1 <==> bit(s.vram[row], (7 - x % 8) as u8)
            &&& color / 2 == 1 <==> bit(s.vram[row + 1], (7 - x % 8) as u8)
        }),
{
    reveal(map_color);
}

/// Where the window is not, the background shows the 256 by 256 map scrolled by
/// SCY and SCX, around its edges: the map at 0x9C00 with LCDC bit 3, and the one
/// at 0x9800 without it. The color at row y and column c of the map is made of
/// bit 7 - c % 8 of the bytes 2 * (y % 8) and 2 * (y % 8) + 1 of the tile named at
/// map entry 32 * (y / 8) + c / 8.
pub proof fn law_background(s: PpuState, x: int)
    requires
        s.vram.len() == 0x2000,
        bit(s.lcdc, 0),
        0 <= x < 160,
        !bit(s.lcdc, 5) || s.ly < s.wy || s.wx < 7 || x + 7 < s.wx,
    ensures
        ({
            let map: int = if bit(s.lcdc, 3) {
                0x1C00
            } else {
                0x1800
            };
            let y = (s.ly + s.scy) % 256;
            let c = (x + s.scx) % 256;
            let tile = s.vram[map + 32 * (y / 8) + c / 8];
            let data = if !bit(s.lcdc, 4) && tile < 128 {
                0x1000 + 16 * tile
            } else {
                16 * tile
            };
            let row = data + 2 * (y % 8);
            &&& bg_color(s, x) < 4
            &&& bg_color(s, x) % 2 == 1 <==> bit(s.vram[row], (7 - c % 8) as u8)
            &&& bg_color(s, x) / 2 == 1 <==> bit(s.vram[row + 1], (7 - c % 8) as u8)
        }),
{
    law_map_color(s, bit(s.lcdc, 3), (s.ly + s.scy) % 256, (x + s.scx) % 256);
}

/// With LCDC bits 0 and 5, from line WY on and with WX from 7 to 166, the window
/// covers the columns from WX - 7 on. It shows its map from the left edge of the
/// window on and by its own line counter, unscrolled: the map at 0x9C00 with
/// LCDC bit 6, and the one at 0x9800 without it. The colors come from its tiles
/// as those of the background do.
pub proof fn law_window(s: PpuState, x: int)
    requires
        s.vram.len() == 0x2000,
        bit(s.lcdc, 0),
        bit(s.lcdc, 5),
        s.ly >= s.wy,
        7 <= s.wx <= 166,
        0 <= x < 160,
        x >= s.wx - 7,
    ensures
        window_covers(s, x),
        ({
            let map: int = if bit(s.lcdc, 6) {
                0x1C00
            } else {
                0x1800
            };
            let y = s.window_line as int;
            let c = x - (s.wx - 7);
            let tile = s.vram[map + 32 * (y / 8) + c / 8];
            let data = if !bit(s.lcdc, 4) && tile < 128 {
                0x1000 + 16 * tile
            } else {
                16 * tile
            };
            let row = data + 2 * (y % 8);
            &&& bg_color(s, x) < 4
            &&& bg_color(s, x) % 2 == 1 <==> bit(s.vram[row], (7 - c % 8) as u8)
            &&& bg_color(s, x) / 2 == 1 <==> bit(s.vram[row + 1], (7 - c % 8) as u8)
        }),
{
    law_map_color(s, bit(s.lcdc, 6), s.window_line as int, x - (s.wx - 7));
}

/// A palette holds the shades of the colors 0 to 3 in two bits each, color 0 in
/// the lowest.
pub proof fn law_palette(palette: u8)
    ensures
        shade(palette, 0) == palette % 4,
        shade(palette, 1) == (palette / 4) % 4,
        shade(palette, 2) == (palette / 16) % 4,
        shade(palette, 3) == palette / 64,
{
    lemma_shades(palette);
}

/// The background takes its shade from BGP, and is white where LCDC bit 0 is
/// clear.
pub proof fn law_background_shade(s: PpuState, x: int)
    ensures
        bit(s.lcdc, 0) ==> bg_shade(s, x) == shade(s.bgp, bg_color(s, x)),
        !bit(s.lcdc, 0) ==> bg_shade(s, x) == 0 && bg_color(s, x) == 0,
{
}

// ---- Sprites ----

/// A sprite is on the lines from its Y coordinate less 16 on: sixteen lines with
/// LCDC bit 2 and eight without it. Of those on a line the first ten of OAM are
/// drawn.
pub proof fn law_sprite_lines(s: PpuState, i: int)
    requires
        0 <= i < 40,
        s.oam.len() == 0xA0,
    ensures
        sprite_on_line(s, i) <==> s.oam[4 * i] <= s.ly + 16 < s.oam[4 * i] + (if bit(s.lcdc, 2) {
            16int
        } else {
            8int
        }),
        sprite_selected(s, i) <==> sprite_on_line(s, i) && sprites_on_line(s, i) < 10,
        sprites_on_line(s, 0) == 0,
        sprites_on_line(s, i + 1) == sprites_on_line(s, i) + (if sprite_on_line(s, i) {
            1int
        } else {
            0int
        }),
{
}

/// The color of a sprite at a column that it covers. Its third byte names the
/// tile, from 0x8000 on; a tall sprite starts at an even tile and goes on in the
/// next. Bit 6 of its fourth byte turns it upside down and bit 5 turns it
/// around. Bit 4 selects OBP1 over OBP0.
pub proof fn law_sprite_color(s: PpuState, i: int, x: int)
    requires
        0 <= i < 40,
        s.oam.len() == 0xA0,
        s.vram.len() == 0x2000,
        sprite_on_line(s, i),
        s.oam[4 * i + 1] <= x + 8 < s.oam[4 * i + 1] + 8,
    ensures
        ({
            let tall = bit(s.lcdc, 2);
            let from_top = s.ly + 16 - s.oam[4 * i];
            let from_left = x + 8 - s.oam[4 * i + 1];
            let last_row: int = if tall {
                15
            } else {
                7
            };
            let attributes = s.oam[4 * i + 3];
            let row = if bit(attributes, 6) {
                last_row - from_top
            } else {
                from_top
            };
            let column = if bit(attributes, 5) {
                7 - from_left
            } else {
                from_left
            };
            let tile: int = if tall {
                2 * (s.oam[4 * i + 2] as int / 2)
            } else {
                s.oam[4 * i + 2] as int
            };
            let data = 16 * tile + 2 * row;
            let color = sprite_color(s, i, x);
            &&& color < 4
            &&& color % 2 == 1 <==> bit(s.vram[data], (7 - column) as u8)
            &&& color / 2 == 1 <==> bit(s.vram[data + 1], (7 - column) as u8)
            &&& sprite_shade(s, i, x) == shade(
                if bit(attributes, 4) {
                    s.obp1
                } else {
                    s.obp0
                },
                sprite_color(s, i, x),
            )
        }),
{
}

/// A sprite shows in eight columns from its X coordinate less 8 on, where its
/// color is not 0. Bit 7 of its fourth byte puts it behind every background
/// color but 0.
pub proof fn law_sprite_shows(s: PpuState, i: int, x: int)
    requires
        0 <= i < 40,
        s.oam.len() == 0xA0,
    ensures
        sprite_shows(s, i, x) <==> {
            &&& sprite_selected(s, i)
            &&& s.oam[4 * i + 1] <= x + 8
            &&& x < s.oam[4 * i + 1]
            &&& sprite_color(s, i, x) != 0
            &&& bg_color(s, x) == 0 || !bit(s.oam[4 * i + 3], 7)
        },
{
}

/// Of two sprites the one with the smaller X coordinate is in front, and with
/// equal ones the one that comes first in OAM.
pub proof fn law_sprite_order(s: PpuState, i: int, j: int)
    ensures
        s.oam[4 * i + 1] < s.oam[4 * j + 1] ==> in_front(s, i, j) && !in_front(s, j, i),
        s.oam[4 * i + 1] == s.oam[4 * j + 1] ==> in_front(s, i, j) == (i < j),
{
}

/// A pixel is that of the frontmost sprite that shows there where LCDC bit 1 is
/// set and there is one, and that of the background otherwise.
pub proof fn law_pixel(s: PpuState, x: int)
    ensures
        bit(s.lcdc, 1) ==> match front_sprite(s, x, 40) {
            Some(i) => pixel(s, x) == sprite_shade(s, i, x),
            None => pixel(s, x) == bg_shade(s, x),
        },
        !bit(s.lcdc, 1) ==> pixel(s, x) == bg_shade(s, x),
{
}

/// Drawing line LY fills the 160 pixels from 160 * LY on, from left to right,
/// and no others.
pub proof fn law_draw_line(s: PpuState, x: int, p: int)
    requires
        s.wf(),
        s.ly < 144,
        0 <= x < 160,
        0 <= p < 160 * 144,
    ensures
        draw_line(s).framebuffer.len() == 160 * 144,
        draw_line(s).framebuffer[160 * s.ly + x] == pixel(s, x),
        p < 160 * s.ly || p >= 160 * s.ly + 160 ==> draw_line(s).framebuffer[p]
            == s.framebuffer[p],
        draw_line(s).window_line == (if bit(s.lcdc, 0) && bit(s.lcdc, 5) && s.ly >= s.wy && 7
            <= s.wx <= 166 {
            (s.window_line + 1) % 256
        } else {
            s.window_line as int
        }),
        draw_line(s) == (PpuState {
            framebuffer: draw_line(s).framebuffer,
            window_line: draw_line(s).window_line,
            ..s
        }),
{
    assert(0 <= 160 * s.ly + x < 160 * 144) by (nonlinear_arith)
        requires
            0 <= x < 160,
            s.ly < 144,
    ;
}

// ---- Timing and registers ----

/// From the start, T-cycle `n` falls on line (n % 70224) / 456. From line 144 on
/// it is the vertical blank; in the lines before, the first 80 T-cycles are the
/// OAM scan, the next 172 the drawing, and the rest the horizontal blank.
pub proof fn law_modes_of_a_frame(n: nat)
    ensures
        ({
            let t = ppu_cycles(ppu_reset(), n).0;
            let line = (n as int % 70224) / 456;
            let dot = (n as int % 70224) % 456;
            &&& t.ly == line
            &&& line >= 144 ==> t.mode == PpuMode::VBlank
            &&& line < 144 && dot < 80 ==> t.mode == PpuMode::OamScan
            &&& line < 144 && 80 <= dot < 252 ==> t.mode == PpuMode::Drawing
            &&& line < 144 && dot >= 252 ==> t.mode == PpuMode::HBlank
        }),
{
    law_timing_from_reset(n);
}

/// With the LCD on, every line takes 456 T-cycles, and the modes end with their
/// last T-cycle whatever the mode before was: the OAM scan after 80, the drawing
/// after 252 and the blanks with the line. Line 144 begins the vertical blank,
/// which restarts the lines of the window, and line 154 is line 0 again.
pub proof fn law_mode_steps(s: PpuState)
    requires
        s.wf(),
        bit(s.lcdc, 7),
    ensures
        ({
            let t = ppu_cycle(s).0;
            let line_ends = s.dot == 455;
            &&& t.dot == (s.dot + 1) % 456
            &&& t.ly == (if !line_ends {
                s.ly as int
            } else {
                (s.ly + 1) % 154
            })
            &&& t.mode == match s.mode {
                PpuMode::OamScan => if s.dot == 79 {
                    PpuMode::Drawing
                } else {
                    PpuMode::OamScan
                },
                PpuMode::Drawing => if s.dot == 251 {
                    PpuMode::HBlank
                } else {
                    PpuMode::Drawing
                },
                PpuMode::HBlank => if !line_ends {
                    PpuMode::HBlank
                } else if s.ly == 143 {
                    PpuMode::VBlank
                } else {
                    PpuMode::OamScan
                },
                PpuMode::VBlank => if line_ends && s.ly == 153 {
                    PpuMode::OamScan
                } else {
                    PpuMode::VBlank
                },
            }
            &&& s.mode != PpuMode::Drawing ==> t.framebuffer == s.framebuffer && t.window_line == (
            if s.mode == PpuMode::HBlank && line_ends && s.ly == 143 {
                0
            } else {
                s.window_line
            })
            &&& t == (PpuState {
                dot: t.dot,
                ly: t.ly,
                mode: t.mode,
                window_line: t.window_line,
                framebuffer: t.framebuffer,
                stat_irq_line: t.stat_irq_line,
                ..s
            })
        }),
{
}

/// With the LCD off the PPU stands at the start of line 0 in mode 0, fires
/// nothing, and keeps memory, registers and picture.
pub proof fn law_switched_off(s: PpuState)
    requires
        !bit(s.lcdc, 7),
    ensures
        ppu_cycle(s) == (
            PpuState { dot: 0, ly: 0, mode: PpuMode::HBlank, stat_irq_line: false, ..s },
            false,
            false,
        ),
{
}

/// A line is drawn as the drawing mode ends, with the registers of that T-cycle.
pub proof fn law_line_drawn(s: PpuState)
    requires
        s.wf(),
        bit(s.lcdc, 7),
        s.mode == PpuMode::Drawing,
    ensures
        s.dot == 251 ==> ppu_cycle(s).0.framebuffer == draw_line(
            PpuState { dot: 252, ..s },
        ).framebuffer && ppu_cycle(s).0.mode == PpuMode::HBlank,
        s.dot != 251 ==> ppu_cycle(s).0.framebuffer == s.framebuffer && ppu_cycle(s).0.mode
            == PpuMode::Drawing,
{
}

/// With the LCD on, the VBlank interrupt fires in the T-cycle that moves LY from
/// 143 to 144, and in no other.
pub proof fn law_vblank_at_144(s: PpuState)
    requires
        s.wf(),
        bit(s.lcdc, 7),
    ensures
        ppu_cycle(s).1 <==> s.ly == 143 && ppu_cycle(s).0.ly == 144,
        ppu_cycle(s).1 <==> s.ly == 143 && s.dot == 455,
{
    law_frame_timing(s);
}

/// A run of T-cycles fires an interrupt where one of its T-cycles does.
pub proof fn law_interrupts_of_a_run(s: PpuState, n: nat)
    ensures
        ppu_cycles(s, 0).0 == s,
        ppu_cycles(s, n + 1).0 == ppu_cycle(ppu_cycles(s, n).0).0,
        ppu_cycles(s, n).1 <==> exists|k: nat|
            k < n && (#[trigger] ppu_cycle(ppu_cycles(s, k).0)).1,
        ppu_cycles(s, n).2 <==> exists|k: nat|
            k < n && (#[trigger] ppu_cycle(ppu_cycles(s, k).0)).2,
    decreases n,
{
    if n > 0 {
        let m = (n - 1) as nat;
        law_interrupts_of_a_run(s, m);
        let now = ppu_cycle(ppu_cycles(s, m).0);
        assert forall|k: nat| k < n && (#[trigger] ppu_cycle(ppu_cycles(s, k).0)).1 implies k < m
            || now.1 by {
            assert(k < m || k == m);
        }
        assert forall|k: nat| k < n && (#[trigger] ppu_cycle(ppu_cycles(s, k).0)).2 implies k < m
            || now.2 by {
            assert(k < m || k == m);
        }
    }
}

/// The sources of the STAT interrupt: LY equal to LYC for bit 6 of STAT, the OAM
/// scan for bit 5, the vertical blank for bit 4 and the horizontal blank for bit
/// 3. The interrupt fires in the T-cycle in which the first of them sets in.
pub proof fn law_stat_sources(s: PpuState)
    requires
        bit(s.lcdc, 7),
    ensures
        ({
            let t = ppu_cycle(s).0;
            let active = {
                ||| bit(s.stat, 6) && t.ly == t.lyc
                ||| bit(s.stat, 5) && t.mode == PpuMode::OamScan
                ||| bit(s.stat, 4) && t.mode == PpuMode::VBlank
                ||| bit(s.stat, 3) && t.mode == PpuMode::HBlank
            };
            &&& ppu_cycle(s).2 <==> active && !s.stat_irq_line
            &&& t.stat_irq_line == active
        }),
{
}

/// STAT reads as bit 7, the selected sources, 4 where LY equals LYC, and the
/// mode: 0 in the horizontal blank, 1 in the vertical blank, 2 in the OAM scan
/// and 3 in drawing.
pub proof fn law_stat_value(s: PpuState)
    requires
        s.stat & 0x78 == s.stat,
    ensures
        ppu_register_read(s, 0xFF41) == 128 + s.stat + (if s.ly == s.lyc {
            4int
        } else {
            0int
        }) + (match s.mode {
            PpuMode::HBlank => 0int,
            PpuMode::VBlank => 1int,
            PpuMode::OamScan => 2int,
            PpuMode::Drawing => 3int,
        }),
{
    lemma_stat_fields(s.stat, s.ly == s.lyc, mode_number(s.mode));
}

/// The registers from 0xFF40 on are LCDC, STAT, SCY, SCX, LY, LYC, the DMA
/// register, which is not the PPU's, BGP, OBP0, OBP1, WY and WX.
pub proof fn law_register_map(s: PpuState, v: u8)
    ensures
        ppu_register_write(s, 0xFF40, v) == (PpuState { lcdc: v, ..s }),
        ppu_register_write(s, 0xFF41, v) == (PpuState { stat: v & 0x78, ..s }),
        ppu_register_write(s, 0xFF42, v) == (PpuState { scy: v, ..s }),
        ppu_register_write(s, 0xFF43, v) == (PpuState { scx: v, ..s }),
        ppu_register_write(s, 0xFF44, v) == s,
        ppu_register_write(s, 0xFF45, v) == (PpuState { lyc: v, ..s }),
        ppu_register_write(s, 0xFF47, v) == (PpuState { bgp: v, ..s }),
        ppu_register_write(s, 0xFF48, v) == (PpuState { obp0: v, ..s }),
        ppu_register_write(s, 0xFF49, v) == (PpuState { obp1: v, ..s }),
        ppu_register_write(s, 0xFF4A, v) == (PpuState { wy: v, ..s }),
        ppu_register_write(s, 0xFF4B, v) == (PpuState { wx: v, ..s }),
        ppu_register_read(s, 0xFF40) == s.lcdc,
        ppu_register_read(s, 0xFF42) == s.scy,
        ppu_register_read(s, 0xFF43) == s.scx,
        ppu_register_read(s, 0xFF44) == s.ly,
        ppu_register_read(s, 0xFF45) == s.lyc,
        ppu_register_read(s, 0xFF47) == s.bgp,
        ppu_register_read(s, 0xFF48) == s.obp0,
        ppu_register_read(s, 0xFF49) == s.obp1,
        ppu_register_read(s, 0xFF4A) == s.wy,
        ppu_register_read(s, 0xFF4B) == s.wx,
{
}

/// The CPU reaches video RAM at its own address, from 0x8000 on, and no other
/// byte of it.
pub proof fn law_vram_addresses(s: PpuState, address: u16, v: u8)
    requires
        s.wf(),
        s.mode != PpuMode::Drawing,
        0x8000 <= address <= 0x9FFF,
    ensures
        vram_read(s, address) == s.vram[address - 0x8000],
        vram_write(s, address, v) == (PpuState { vram: s.vram.update(address - 0x8000, v), ..s }),
{
}

/// The CPU reaches OAM at its own address, from 0xFE00 on, in the blanks alone.
pub proof fn law_oam_addresses(s: PpuState, address: u16, v: u8)
    requires
        s.wf(),
        0xFE00 <= address <= 0xFE9F,
    ensures
        s.mode == PpuMode::HBlank || s.mode == PpuMode::VBlank ==> {
            &&& oam_read(s, address) == s.oam[address - 0xFE00]
            &&& oam_write(s, address, v) == (PpuState {
                oam: s.oam.update(address - 0xFE00, v),
                ..s
            })
        },
        s.mode == PpuMode::OamScan || s.mode == PpuMode::Drawing ==> {
            &&& oam_read(s, address) == 0xFF
            &&& oam_write(s, address, v) == s
        },
{
}

} // verus!
