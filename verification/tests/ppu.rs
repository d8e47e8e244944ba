use gameboy::ppu::{Ppu, SCREEN_WIDTH};

/// T-cycles from the start of a line until it is drawn.
const LINE_DRAWN: u32 = 252;
/// T-cycles per line.
const LINE: u32 = 456;
/// T-cycles from the start of a frame to the vertical blank.
const TO_VBLANK: u32 = 65_664;

/// A PPU with the identity palettes, and LCDC set.
fn ppu(lcdc: u8) -> Ppu {
    let mut ppu = Ppu::new();
    ppu.write_register(0xFF40, lcdc);
    ppu.write_register(0xFF47, 0xE4);
    ppu.write_register(0xFF48, 0xE4);
    ppu.write_register(0xFF49, 0xE4);
    ppu
}

/// Fills all rows of the tile at `address` with two bit planes.
fn fill_tile(ppu: &mut Ppu, address: u16, low: u8, high: u8) {
    for row in 0..8u16 {
        ppu.write_vram(address + 2 * row, low);
        ppu.write_vram(address + 2 * row + 1, high);
    }
}

fn place_sprite(ppu: &mut Ppu, n: u8, y: u8, x: u8, tile: u8, attributes: u8) {
    ppu.dma_write_oam(4 * n, y);
    ppu.dma_write_oam(4 * n + 1, x);
    ppu.dma_write_oam(4 * n + 2, tile);
    ppu.dma_write_oam(4 * n + 3, attributes);
}

fn pixel(ppu: &Ppu, line: usize, x: usize) -> u8 {
    ppu.framebuffer()[line * SCREEN_WIDTH + x]
}

fn pixels(ppu: &Ppu, line: usize, from: usize, to: usize) -> Vec<u8> {
    ppu.framebuffer()[line * SCREEN_WIDTH + from..line * SCREEN_WIDTH + to].to_vec()
}

fn mode(ppu: &Ppu) -> u8 {
    ppu.read_register(0xFF41) & 0x03
}

// ---- Timing ----

#[test]
fn a_line_goes_through_its_modes() {
    let mut ppu = Ppu::new();
    assert_eq!(mode(&ppu), 2);
    ppu.tick(79);
    assert_eq!(mode(&ppu), 2);
    ppu.tick(1);
    assert_eq!(mode(&ppu), 3);
    ppu.tick(171);
    assert_eq!(mode(&ppu), 3);
    ppu.tick(1);
    assert_eq!(mode(&ppu), 0);
    ppu.tick(203);
    assert_eq!(mode(&ppu), 0);
    assert_eq!(ppu.read_register(0xFF44), 0);
    ppu.tick(1);
    assert_eq!(mode(&ppu), 2);
    assert_eq!(ppu.read_register(0xFF44), 1);
}

#[test]
fn a_frame_has_154_lines_and_one_vblank() {
    let mut ppu = Ppu::new();
    let mut vblanks = 0;
    for line in 0..154u32 {
        assert_eq!(ppu.read_register(0xFF44) as u32, line);
        assert_eq!(mode(&ppu), if line < 144 { 2 } else { 1 });
        if ppu.tick(LINE).vblank {
            vblanks += 1;
            assert_eq!(line, 143);
        }
    }
    assert_eq!(vblanks, 1);
    assert_eq!(ppu.read_register(0xFF44), 0);
    assert_eq!(mode(&ppu), 2);
    assert!(!ppu.tick(TO_VBLANK - 1).vblank);
    assert!(ppu.tick(1).vblank);
}

#[test]
fn the_mode_goes_by_the_position() {
    let mut ppu = Ppu::new();
    for n in 0..70_224u32 {
        let line = n / LINE;
        let dot = n % LINE;
        let expected = if line >= 144 {
            1
        } else if dot < 80 {
            2
        } else if dot < 252 {
            3
        } else {
            0
        };
        assert_eq!(ppu.read_register(0xFF44) as u32, line);
        assert_eq!(mode(&ppu), expected);
        ppu.tick(1);
    }
}

#[test]
fn single_cycles_report_their_interrupts() {
    let mut ppu = Ppu::new();
    ppu.tick(TO_VBLANK - 2);
    assert_eq!(ppu.tick_one(), (false, false));
    assert_eq!(ppu.tick_one(), (true, false));
    assert_eq!(ppu.tick_one(), (false, false));
}

#[test]
fn one_cycle_switches_the_screen_off() {
    let mut ppu = Ppu::new();
    ppu.write_vram(0x8000, 0x12);
    ppu.write_register(0xFF43, 0x34);
    ppu.write_register(0xFF41, 0x28);
    ppu.tick(5 * LINE + 100);
    ppu.write_register(0xFF40, 0x11);
    for _ in 0..2 {
        let interrupts = ppu.tick(1);
        assert!(!interrupts.vblank && !interrupts.stat);
        assert_eq!(ppu.read_register(0xFF44), 0);
        assert_eq!(ppu.read_register(0xFF41), 0xAC);
        assert_eq!(ppu.read_register(0xFF43), 0x34);
        assert_eq!(ppu.read_vram(0x8000), 0x12);
    }
}

#[test]
fn a_switched_off_screen_rests() {
    let mut ppu = Ppu::new();
    ppu.tick(5 * LINE + 100);
    ppu.write_register(0xFF41, 0x78);
    ppu.write_register(0xFF40, 0x11);
    let interrupts = ppu.tick(100_000);
    assert!(!interrupts.vblank);
    assert!(!interrupts.stat);
    assert_eq!(ppu.read_register(0xFF44), 0);
    assert_eq!(mode(&ppu), 0);
    // Switched on again, it goes on from the blanked line.
    ppu.write_register(0xFF40, 0x91);
    ppu.tick(LINE);
    assert_eq!(ppu.read_register(0xFF44), 1);
}

#[test]
fn stat_fires_on_the_rising_edge() {
    // LYC, while LY keeps matching
    let mut ppu = Ppu::new();
    ppu.write_register(0xFF45, 2);
    ppu.write_register(0xFF41, 0x40);
    assert!(!ppu.tick(2 * LINE - 1).stat);
    assert!(ppu.tick(1).stat);
    assert!(!ppu.tick(LINE - 1).stat);
    // Horizontal blank, once per visible line
    let mut ppu = Ppu::new();
    ppu.write_register(0xFF41, 0x08);
    let mut count = 0;
    for _ in 0..154 * LINE {
        if ppu.tick(1).stat {
            count += 1;
        }
    }
    assert_eq!(count, 144);
    // Vertical blank, once per frame
    let mut ppu = Ppu::new();
    ppu.write_register(0xFF41, 0x10);
    assert!(!ppu.tick(TO_VBLANK - 1).stat);
    assert!(ppu.tick(1).stat);
    assert!(!ppu.tick(10 * LINE).stat);
    // Two sources that overlap make one edge: the horizontal blank runs into
    // the scan of the next line.
    let mut ppu = Ppu::new();
    ppu.write_register(0xFF41, 0x28);
    assert!(ppu.tick(1).stat);
    assert!(!ppu.tick(LINE_DRAWN - 2).stat);
    assert!(ppu.tick(1).stat);
    assert!(!ppu.tick(204 + 80).stat);
}

// ---- Memory and registers ----

#[test]
fn vram_is_locked_while_drawing() {
    let mut ppu = Ppu::new();
    ppu.write_vram(0x9FFF, 0x12);
    assert_eq!(ppu.read_vram(0x9FFF), 0x12);
    ppu.tick(80);
    assert_eq!(ppu.read_vram(0x9FFF), 0xFF);
    ppu.write_vram(0x9FFF, 0x34);
    ppu.tick(172);
    assert_eq!(ppu.read_vram(0x9FFF), 0x12);
}

#[test]
fn oam_is_locked_while_scanning_and_drawing() {
    let mut ppu = Ppu::new();
    ppu.write_oam(0xFE00, 0x12);
    assert_eq!(ppu.read_oam(0xFE00), 0xFF);
    ppu.tick(100);
    ppu.write_oam(0xFE00, 0x12);
    assert_eq!(ppu.read_oam(0xFE00), 0xFF);
    ppu.tick(152);
    assert_eq!(ppu.read_oam(0xFE00), 0x00);
    ppu.write_oam(0xFE9F, 0x12);
    assert_eq!(ppu.read_oam(0xFE9F), 0x12);
}

#[test]
fn registers_read_back() {
    let mut ppu = Ppu::new();
    assert_eq!(ppu.read_register(0xFF40), 0x91);
    assert_eq!(ppu.read_register(0xFF47), 0xFC);
    assert_eq!(ppu.read_register(0xFF48), 0xFF);
    for address in [
        0xFF40u16, 0xFF42, 0xFF43, 0xFF45, 0xFF47, 0xFF48, 0xFF49, 0xFF4A, 0xFF4B,
    ] {
        ppu.write_register(address, 0xA5);
        assert_eq!(ppu.read_register(address), 0xA5);
    }
    assert_eq!(ppu.read_register(0xFF46), 0xFF);
}

#[test]
fn ly_and_the_status_bits_are_read_only() {
    let mut ppu = Ppu::new();
    ppu.write_register(0xFF44, 0x33);
    assert_eq!(ppu.read_register(0xFF44), 0x00);
    // Only the four enable bits of STAT are kept. LY matches LYC.
    ppu.write_register(0xFF41, 0xFF);
    assert_eq!(ppu.read_register(0xFF41), 0xFE);
    ppu.write_register(0xFF41, 0x00);
    assert_eq!(ppu.read_register(0xFF41), 0x86);
    ppu.write_register(0xFF45, 0x01);
    assert_eq!(ppu.read_register(0xFF41), 0x82);
}

// ---- Background and window ----

#[test]
fn the_background_shows_its_tiles() {
    let mut ppu = ppu(0x91);
    fill_tile(&mut ppu, 0x8010, 0b0101_0011, 0b0011_0101);
    ppu.write_vram(0x9801, 1);
    ppu.tick(LINE_DRAWN);
    assert_eq!(pixels(&ppu, 0, 0, 8), vec![0; 8]);
    assert_eq!(pixels(&ppu, 0, 8, 16), vec![0, 1, 2, 3, 0, 2, 1, 3]);
    assert_eq!(pixel(&ppu, 0, 16), 0);
}

#[test]
fn a_line_is_drawn_when_its_drawing_ends() {
    let mut ppu = ppu(0x91);
    fill_tile(&mut ppu, 0x8000, 0xFF, 0xFF);
    ppu.tick(LINE_DRAWN - 1);
    assert_eq!(pixel(&ppu, 0, 0), 0);
    ppu.tick(1);
    assert_eq!(pixels(&ppu, 0, 0, SCREEN_WIDTH), vec![3; SCREEN_WIDTH]);
    assert_eq!(pixel(&ppu, 1, 0), 0);
}

#[test]
fn scrolling_wraps_around_the_map() {
    let mut ppu = ppu(0x91);
    fill_tile(&mut ppu, 0x8010, 0xFF, 0x00);
    // The last column of the last row of the map
    ppu.write_vram(0x9BFF, 1);
    ppu.write_register(0xFF42, 0xF8);
    ppu.write_register(0xFF43, 0xFC);
    ppu.tick(LINE_DRAWN);
    assert_eq!(pixels(&ppu, 0, 0, 5), vec![1, 1, 1, 1, 0]);
    // Eight lines further the first row of the map begins.
    ppu.tick(8 * LINE);
    assert_eq!(pixel(&ppu, 7, 0), 1);
    assert_eq!(pixel(&ppu, 8, 0), 0);
}

#[test]
fn signed_tile_numbers_count_from_the_middle() {
    let mut ppu = ppu(0x81);
    fill_tile(&mut ppu, 0x8FF0, 0xFF, 0x00);
    fill_tile(&mut ppu, 0x9000, 0x00, 0xFF);
    ppu.write_vram(0x9800, 0xFF);
    ppu.tick(LINE_DRAWN);
    assert_eq!(pixel(&ppu, 0, 0), 1);
    assert_eq!(pixel(&ppu, 0, 8), 2);
}

#[test]
fn the_palette_maps_colors_to_shades() {
    let mut ppu = ppu(0x91);
    fill_tile(&mut ppu, 0x8000, 0b0101_0000, 0b0011_0000);
    ppu.write_register(0xFF47, 0x1B);
    ppu.tick(LINE_DRAWN);
    assert_eq!(pixels(&ppu, 0, 0, 4), vec![3, 2, 1, 0]);
}

#[test]
fn the_background_can_be_switched_off() {
    let mut ppu = ppu(0x90);
    fill_tile(&mut ppu, 0x8000, 0xFF, 0xFF);
    ppu.write_register(0xFF47, 0xFF);
    ppu.tick(LINE_DRAWN);
    assert_eq!(pixels(&ppu, 0, 0, SCREEN_WIDTH), vec![0; SCREEN_WIDTH]);
}

#[test]
fn the_window_covers_the_background() {
    let mut ppu = ppu(0xF1);
    fill_tile(&mut ppu, 0x8010, 0xFF, 0xFF);
    // The window uses the second map.
    ppu.write_vram(0x9C00, 1);
    ppu.write_register(0xFF4A, 1);
    ppu.write_register(0xFF4B, 87);
    ppu.tick(10 * LINE);
    assert_eq!(pixel(&ppu, 0, 80), 0);
    // The window's own lines start where it does, eight rows of the tile.
    for line in 1..9usize {
        assert_eq!(pixel(&ppu, line, 79), 0);
        assert_eq!(pixels(&ppu, line, 80, 88), vec![3; 8]);
        assert_eq!(pixel(&ppu, line, 88), 0);
    }
    assert_eq!(pixel(&ppu, 9, 80), 0);
}

#[test]
fn the_window_counts_its_own_lines() {
    let mut ppu = ppu(0xF1);
    fill_tile(&mut ppu, 0x8010, 0xFF, 0xFF);
    ppu.write_vram(0x9C00, 1);
    ppu.write_register(0xFF4B, 7);
    // Two lines with the window, four without, and the rest with it.
    ppu.tick(2 * LINE);
    ppu.write_register(0xFF40, 0xD1);
    ppu.tick(4 * LINE);
    ppu.write_register(0xFF40, 0xF1);
    ppu.tick(10 * LINE);
    for line in 0..16usize {
        let shown = line < 2 || (6..12).contains(&line);
        assert_eq!(pixel(&ppu, line, 0), if shown { 3 } else { 0 });
    }
}

#[test]
fn the_window_stays_off_beyond_its_range() {
    for wx in [0u8, 6, 167, 255] {
        let mut ppu = ppu(0xF1);
        fill_tile(&mut ppu, 0x8010, 0xFF, 0xFF);
        for i in 0..32u16 {
            ppu.write_vram(0x9C00 + i, 1);
        }
        ppu.write_register(0xFF4B, wx);
        ppu.tick(LINE_DRAWN);
        assert_eq!(pixels(&ppu, 0, 0, SCREEN_WIDTH), vec![0; SCREEN_WIDTH]);
    }
    let mut ppu = ppu(0xF1);
    fill_tile(&mut ppu, 0x8010, 0xFF, 0xFF);
    ppu.write_vram(0x9C00, 1);
    ppu.write_register(0xFF4B, 166);
    ppu.tick(LINE_DRAWN);
    assert_eq!(pixels(&ppu, 0, 158, 160), vec![0, 3]);
}

#[test]
fn a_window_that_is_not_drawn_does_not_count() {
    for wx in [0u8, 6] {
        let mut ppu = ppu(0xF1);
        fill_tile(&mut ppu, 0x8010, 0xFF, 0xFF);
        ppu.write_vram(0x9C00, 1);
        ppu.write_register(0xFF4B, wx);
        ppu.tick(4 * LINE);
        // The window starts with its first row on line 4.
        ppu.write_register(0xFF4B, 7);
        ppu.tick(10 * LINE);
        for line in 0..14usize {
            let shown = (4..12).contains(&line);
            assert_eq!(pixel(&ppu, line, 0), if shown { 3 } else { 0 });
        }
    }
}

// ---- Sprites ----

#[test]
fn a_sprite_shows_at_its_place() {
    let mut ppu = ppu(0x93);
    fill_tile(&mut ppu, 0x8010, 0b0101_0011, 0b0011_0101);
    place_sprite(&mut ppu, 0, 20, 18, 1, 0x00);
    ppu.tick(13 * LINE);
    assert_eq!(pixels(&ppu, 3, 8, 20), vec![0; 12]);
    for line in 4..12usize {
        assert_eq!(
            pixels(&ppu, line, 8, 20),
            vec![0, 0, 0, 1, 2, 3, 0, 2, 1, 3, 0, 0]
        );
    }
    assert_eq!(pixels(&ppu, 12, 8, 20), vec![0; 12]);
}

#[test]
fn sprites_can_be_switched_off() {
    let mut ppu = ppu(0x91);
    fill_tile(&mut ppu, 0x8010, 0xFF, 0xFF);
    place_sprite(&mut ppu, 0, 16, 8, 1, 0x00);
    ppu.tick(LINE_DRAWN);
    assert_eq!(pixel(&ppu, 0, 0), 0);
}

#[test]
fn sprites_are_cut_at_the_edges() {
    let mut ppu = ppu(0x93);
    fill_tile(&mut ppu, 0x8010, 0xFF, 0x00);
    place_sprite(&mut ppu, 0, 12, 4, 1, 0x00);
    place_sprite(&mut ppu, 1, 16, 164, 1, 0x00);
    place_sprite(&mut ppu, 2, 16, 0, 1, 0x00);
    ppu.tick(5 * LINE);
    assert_eq!(pixels(&ppu, 3, 0, 5), vec![1, 1, 1, 1, 0]);
    assert_eq!(pixel(&ppu, 4, 0), 0);
    assert_eq!(pixels(&ppu, 0, 155, 160), vec![0, 1, 1, 1, 1]);
}

#[test]
fn sprites_can_be_flipped() {
    let mut ppu = ppu(0x93);
    fill_tile(&mut ppu, 0x8010, 0x00, 0x00);
    ppu.write_vram(0x8010, 0b1110_0000);
    place_sprite(&mut ppu, 0, 16, 8, 1, 0x00);
    place_sprite(&mut ppu, 1, 16, 24, 1, 0x20);
    place_sprite(&mut ppu, 2, 16, 40, 1, 0x40);
    ppu.tick(8 * LINE);
    assert_eq!(pixels(&ppu, 0, 0, 8), vec![1, 1, 1, 0, 0, 0, 0, 0]);
    assert_eq!(pixels(&ppu, 0, 16, 24), vec![0, 0, 0, 0, 0, 1, 1, 1]);
    assert_eq!(pixels(&ppu, 0, 32, 40), vec![0; 8]);
    assert_eq!(pixels(&ppu, 7, 32, 40), vec![1, 1, 1, 0, 0, 0, 0, 0]);
}

#[test]
fn tall_sprites_use_two_tiles() {
    let mut ppu = ppu(0x97);
    fill_tile(&mut ppu, 0x8020, 0xFF, 0x00);
    fill_tile(&mut ppu, 0x8030, 0x00, 0xFF);
    // The low bit of the tile number is ignored.
    place_sprite(&mut ppu, 0, 16, 8, 3, 0x00);
    place_sprite(&mut ppu, 1, 16, 16, 2, 0x40);
    ppu.tick(17 * LINE);
    for line in 0..16usize {
        assert_eq!(pixel(&ppu, line, 0), if line < 8 { 1 } else { 2 });
        assert_eq!(pixel(&ppu, line, 8), if line < 8 { 2 } else { 1 });
    }
    assert_eq!(pixel(&ppu, 16, 0), 0);
}

#[test]
fn sprites_choose_their_palette() {
    let mut ppu = ppu(0x93);
    fill_tile(&mut ppu, 0x8010, 0xFF, 0x00);
    ppu.write_register(0xFF48, 0x08);
    ppu.write_register(0xFF49, 0x0C);
    place_sprite(&mut ppu, 0, 16, 8, 1, 0x00);
    place_sprite(&mut ppu, 1, 16, 16, 1, 0x10);
    ppu.tick(LINE_DRAWN);
    assert_eq!(pixel(&ppu, 0, 0), 2);
    assert_eq!(pixel(&ppu, 0, 8), 3);
}

#[test]
fn sprites_can_hide_behind_the_background() {
    let mut ppu = ppu(0x93);
    // Background: color 1 on the left half of the first tile, color 0 else.
    fill_tile(&mut ppu, 0x8000, 0xF0, 0x00);
    fill_tile(&mut ppu, 0x8010, 0xFF, 0xFF);
    place_sprite(&mut ppu, 0, 16, 8, 1, 0x80);
    place_sprite(&mut ppu, 1, 16, 24, 1, 0x00);
    ppu.tick(LINE_DRAWN);
    assert_eq!(pixels(&ppu, 0, 0, 8), vec![1, 1, 1, 1, 3, 3, 3, 3]);
    assert_eq!(pixels(&ppu, 0, 16, 24), vec![3; 8]);
}

#[test]
fn the_leftmost_sprite_is_in_front() {
    let mut ppu = ppu(0x93);
    fill_tile(&mut ppu, 0x8010, 0xFF, 0x00);
    fill_tile(&mut ppu, 0x8020, 0x00, 0xFF);
    fill_tile(&mut ppu, 0x8030, 0xFF, 0xFF);
    place_sprite(&mut ppu, 0, 16, 12, 1, 0x00);
    place_sprite(&mut ppu, 1, 16, 8, 2, 0x00);
    // At the same place the first entry is in front.
    place_sprite(&mut ppu, 2, 16, 8, 3, 0x00);
    ppu.tick(LINE_DRAWN);
    assert_eq!(pixels(&ppu, 0, 0, 12), vec![2, 2, 2, 2, 2, 2, 2, 2, 1, 1, 1, 1]);
}

#[test]
fn transparent_pixels_show_the_sprite_behind() {
    let mut ppu = ppu(0x93);
    fill_tile(&mut ppu, 0x8010, 0xF0, 0x00);
    fill_tile(&mut ppu, 0x8020, 0xFF, 0xFF);
    place_sprite(&mut ppu, 0, 16, 8, 1, 0x00);
    place_sprite(&mut ppu, 1, 16, 8, 2, 0x00);
    ppu.tick(LINE_DRAWN);
    assert_eq!(pixels(&ppu, 0, 0, 8), vec![1, 1, 1, 1, 3, 3, 3, 3]);
}

#[test]
fn ten_sprites_fit_on_a_line() {
    let mut ppu = ppu(0x93);
    fill_tile(&mut ppu, 0x8010, 0xFF, 0xFF);
    for n in 0..12u8 {
        place_sprite(&mut ppu, n, 16, 8 + 10 * n, 1, 0x00);
    }
    ppu.tick(LINE_DRAWN);
    for n in 0..12usize {
        assert_eq!(pixel(&ppu, 0, 10 * n), if n < 10 { 3 } else { 0 });
    }
}
