//! What a line of the picture looks like: the color of every pixel as a
//! function of video memory and the LCD registers.

use vstd::prelude::*;

use crate::bits::{bit, lemma_fields, signed};
use crate::ppu::{PpuState, SCREEN_WIDTH};

verus! {

/// The sprites of OAM.
pub const SPRITES: usize = 40;

/// How many sprites can appear on one line.
pub const SPRITES_PER_LINE: usize = 10;

// ---- Tiles ----

/// The color index of a pixel of the tile whose data begins at `base` in
/// video RAM. A row is two bytes: the low bit plane, then the high one.
pub open spec fn tile_color(vram: Seq<u8>, base: int, row: int, col: int) -> u8 {
    let low = vram[base + 2 * row];
    let high = vram[base + 2 * row + 1];
    ((if bit(high, (7 - col) as u8) {
        2int
    } else {
        0int
    }) + (if bit(low, (7 - col) as u8) {
        1int
    } else {
        0int
    })) as u8
}

/// Where the data of a background or window tile begins in video RAM. LCDC
/// bit 4 selects between unsigned numbers from 0x8000 and signed numbers from
/// 0x9000.
pub open spec fn tile_base(lcdc: u8, tile_id: u8) -> int {
    if bit(lcdc, 4) {
        tile_id * 16
    } else {
        0x1000 + signed(tile_id) * 16
    }
}

/// The color index at column `x` and row `y` of a 256 by 256 tile map.
#[verifier::opaque]
pub open spec fn map_color(vram: Seq<u8>, lcdc: u8, upper_map: bool, y: int, x: int) -> u8 {
    let map_base: int = if upper_map {
        0x1C00
    } else {
        0x1800
    };
    let tile_id = vram[map_base + (y / 8) * 32 + x / 8];
    tile_color(vram, tile_base(lcdc, tile_id), y % 8, x % 8)
}

/// The shade that a palette register gives to a color index.
pub open spec fn shade(palette: u8, color: u8) -> u8 {
    (palette >> ((color * 2) as u8)) & 3u8
}

// ---- Background and window ----

/// The color index of the scrolled background at column `x` of line LY.
pub open spec fn background_color(s: PpuState, x: int) -> u8 {
    map_color(s.vram, s.lcdc, bit(s.lcdc, 3), (s.scy + s.ly) % 256, (s.scx + x) % 256)
}

/// Whether the window is drawn on line LY. WX holds its left edge plus 7, and
/// with WX below 7 it is not drawn at all.
pub open spec fn window_visible(s: PpuState) -> bool {
    &&& bit(s.lcdc, 0)
    &&& bit(s.lcdc, 5)
    &&& s.ly >= s.wy
    &&& 7 <= s.wx <= 166
}

/// Whether the window covers column `x`.
pub open spec fn window_covers(s: PpuState, x: int) -> bool {
    window_visible(s) && s.wx <= x + 7
}

/// The color index of the window at column `x`.
pub open spec fn window_color(s: PpuState, x: int) -> u8 {
    map_color(s.vram, s.lcdc, bit(s.lcdc, 6), s.window_line as int, x + 7 - s.wx)
}

/// The color index of background and window together at column `x`.
pub open spec fn bg_color(s: PpuState, x: int) -> u8 {
    if !bit(s.lcdc, 0) {
        0
    } else if window_covers(s, x) {
        window_color(s, x)
    } else {
        background_color(s, x)
    }
}

/// The shade of background and window together at column `x`: the lightest
/// one where LCDC bit 0 switches them off.
pub open spec fn bg_shade(s: PpuState, x: int) -> u8 {
    if bit(s.lcdc, 0) {
        shade(s.bgp, bg_color(s, x))
    } else {
        0
    }
}

// ---- Sprites ----

pub open spec fn sprite_height(s: PpuState) -> int {
    if bit(s.lcdc, 2) {
        16
    } else {
        8
    }
}

/// The line of the top edge of sprite `i`.
pub open spec fn sprite_top(s: PpuState, i: int) -> int {
    s.oam[4 * i] - 16
}

/// The column of the left edge of sprite `i`.
pub open spec fn sprite_left(s: PpuState, i: int) -> int {
    s.oam[4 * i + 1] - 8
}

pub open spec fn sprite_attributes(s: PpuState, i: int) -> u8 {
    s.oam[4 * i + 3]
}

/// Whether sprite `i` intersects line LY.
pub open spec fn sprite_on_line(s: PpuState, i: int) -> bool {
    sprite_top(s, i) <= s.ly < sprite_top(s, i) + sprite_height(s)
}

/// How many of the first `n` sprites intersect line LY.
pub open spec fn sprites_on_line(s: PpuState, n: int) -> int
    decreases n,
{
    if n <= 0 {
        0
    } else {
        sprites_on_line(s, n - 1) + (if sprite_on_line(s, n - 1) {
            1int
        } else {
            0int
        })
    }
}

/// Whether the OAM scan picks sprite `i`: the first ten on the line are.
pub open spec fn sprite_selected(s: PpuState, i: int) -> bool {
    sprite_on_line(s, i) && sprites_on_line(s, i) < SPRITES_PER_LINE
}

/// The tile of sprite `i`. A tall sprite is a pair of tiles, an even one and
/// the next.
pub open spec fn sprite_tile(s: PpuState, i: int) -> int {
    let id = s.oam[4 * i + 2];
    if sprite_height(s) == 16 {
        id - id % 2
    } else {
        id as int
    }
}

/// The row of sprite `i` that falls on line LY.
pub open spec fn sprite_row(s: PpuState, i: int) -> int {
    let row = s.ly - sprite_top(s, i);
    if bit(sprite_attributes(s, i), 6) {
        sprite_height(s) - 1 - row
    } else {
        row
    }
}

/// The column of sprite `i` that falls on column `x` of the screen.
pub open spec fn sprite_column(s: PpuState, i: int, x: int) -> int {
    let col = x - sprite_left(s, i);
    if bit(sprite_attributes(s, i), 5) {
        7 - col
    } else {
        col
    }
}

/// The color index of sprite `i` at column `x`.
pub open spec fn sprite_color(s: PpuState, i: int, x: int) -> u8 {
    tile_color(s.vram, sprite_tile(s, i) * 16, sprite_row(s, i), sprite_column(s, i, x))
}

/// The shade of sprite `i` at column `x`.
pub open spec fn sprite_shade(s: PpuState, i: int, x: int) -> u8 {
    shade(
        if bit(sprite_attributes(s, i), 4) {
            s.obp1
        } else {
            s.obp0
        },
        sprite_color(s, i, x),
    )
}

/// Whether sprite `i` has a pixel to show at column `x`: it reaches there, the
/// color is not the transparent one, and the sprite does not give way to the
/// background there.
pub open spec fn sprite_shows(s: PpuState, i: int, x: int) -> bool {
    &&& sprite_selected(s, i)
    &&& sprite_left(s, i) <= x < sprite_left(s, i) + 8
    &&& sprite_color(s, i, x) != 0
    &&& !(bit(sprite_attributes(s, i), 7) && bg_color(s, x) != 0)
}

/// Whether sprite `i` is in front of sprite `j`: the one further left, or the
/// one that comes first in OAM.
pub open spec fn in_front(s: PpuState, i: int, j: int) -> bool {
    ||| s.oam[4 * i + 1] < s.oam[4 * j + 1]
    ||| s.oam[4 * i + 1] == s.oam[4 * j + 1] && i < j
}

/// The frontmost of the first `n` sprites that show at column `x`.
pub open spec fn front_sprite(s: PpuState, x: int, n: int) -> Option<int>
    decreases n,
{
    if n <= 0 {
        None
    } else if !sprite_shows(s, n - 1, x) {
        front_sprite(s, x, n - 1)
    } else {
        match front_sprite(s, x, n - 1) {
            Some(best) if in_front(s, best, n - 1) => Some(best),
            _ => Some(n - 1),
        }
    }
}

// ---- The line ----

/// The shade of column `x` of line LY.
pub open spec fn pixel(s: PpuState, x: int) -> u8 {
    if bit(s.lcdc, 1) {
        match front_sprite(s, x, SPRITES as int) {
            Some(i) => sprite_shade(s, i, x),
            None => bg_shade(s, x),
        }
    } else {
        bg_shade(s, x)
    }
}

/// Where column `x` of line `line` stands in the framebuffer.
pub open spec fn pixel_index(line: int, x: int) -> int {
    line * SCREEN_WIDTH + x
}

/// Whether framebuffer entry `p` belongs to line `line`.
pub open spec fn in_line(line: int, p: int) -> bool {
    line * SCREEN_WIDTH <= p < (line + 1) * SCREEN_WIDTH
}

/// Line LY drawn into the framebuffer. The window moves on to its next line
/// where it was drawn.
pub open spec fn draw_line(s: PpuState) -> PpuState {
    PpuState {
        framebuffer: Seq::new(
            s.framebuffer.len(),
            |p: int|
                if in_line(s.ly as int, p) {
                    pixel(s, p - s.ly * SCREEN_WIDTH)
                } else {
                    s.framebuffer[p]
                },
        ),
        window_line: if window_visible(s) {
            ((s.window_line + 1) % 256) as u8
        } else {
            s.window_line
        },
        ..s
    }
}

// ---- Painting from back to front ----

/// `framebuffer` differs from that of `s` in line LY only.
pub open spec fn same_outside_line(s: PpuState, framebuffer: Seq<u8>) -> bool {
    &&& framebuffer.len() == s.framebuffer.len()
    &&& forall|p: int|
        0 <= p < framebuffer.len() && !in_line(s.ly as int, p) ==> #[trigger] framebuffer[p]
            == s.framebuffer[p]
}

/// `order` holds the selected ones of the first `n` sprites, each with its X
/// coordinate, and every sprite comes before those in front of it.
pub open spec fn back_to_front(s: PpuState, order: Seq<(u8, usize)>, n: int) -> bool {
    &&& forall|k: int|
        0 <= k < order.len() ==> {
            let i = (#[trigger] order[k]).1 as int;
            &&& i < n
            &&& sprite_selected(s, i)
            &&& order[k].0 == s.oam[4 * i + 1]
        }
    &&& forall|k: int, m: int|
        0 <= k < m < order.len() ==> in_front(
            s,
            (#[trigger] order[m]).1 as int,
            (#[trigger] order[k]).1 as int,
        )
    &&& forall|i: int|
        0 <= i < n && #[trigger] sprite_selected(s, i) ==> exists|k: int|
            0 <= k < order.len() && (#[trigger] order[k]).1 == i
}

/// The shade of column `x` once the first `k` sprites of `order` are painted
/// over `under`.
pub open spec fn painted(s: PpuState, order: Seq<(u8, usize)>, k: int, x: int, under: u8) -> u8
    decreases k,
{
    if k <= 0 {
        under
    } else if sprite_shows(s, order[k - 1].1 as int, x) {
        sprite_shade(s, order[k - 1].1 as int, x)
    } else {
        painted(s, order, k - 1, x, under)
    }
}

/// The frontmost sprite shows, and no sprite that shows is in front of it.
pub proof fn law_front_sprite(s: PpuState, x: int, n: int)
    requires
        0 <= n <= SPRITES,
    ensures
        match front_sprite(s, x, n) {
            Some(i) => {
                &&& 0 <= i < n
                &&& sprite_shows(s, i, x)
                &&& forall|j: int|
                    0 <= j < n && j != i && #[trigger] sprite_shows(s, j, x) ==> in_front(s, i, j)
            },
            None => forall|j: int| 0 <= j < n ==> !#[trigger] sprite_shows(s, j, x),
        },
    decreases n,
{
    if n > 0 {
        law_front_sprite(s, x, n - 1);
    }
}

/// What painting leaves behind is the shade of the last sprite that shows.
proof fn lemma_painted(s: PpuState, order: Seq<(u8, usize)>, k: int, x: int, under: u8)
    requires
        0 <= k <= order.len(),
    ensures
        ({
            ||| painted(s, order, k, x, under) == under && forall|m: int|
                0 <= m < k ==> !sprite_shows(s, (#[trigger] order[m]).1 as int, x)
            ||| exists|last: int|
                0 <= last < k && sprite_shows(s, (#[trigger] order[last]).1 as int, x) && painted(
                    s,
                    order,
                    k,
                    x,
                    under,
                ) == sprite_shade(s, order[last].1 as int, x) && forall|m: int|
                    last < m < k ==> !sprite_shows(s, (#[trigger] order[m]).1 as int, x)
        }),
    decreases k,
{
    if k > 0 {
        lemma_painted(s, order, k - 1, x, under);
        if sprite_shows(s, order[k - 1].1 as int, x) {
            let last = k - 1;
            assert(sprite_shows(s, order[last].1 as int, x));
        } else if exists|last: int|
            0 <= last < k - 1 && sprite_shows(s, (#[trigger] order[last]).1 as int, x) && painted(
                s,
                order,
                k - 1,
                x,
                under,
            ) == sprite_shade(s, order[last].1 as int, x) && forall|m: int|
                last < m < k - 1 ==> !sprite_shows(s, (#[trigger] order[m]).1 as int, x) {
            let last = choose|last: int|
                0 <= last < k - 1 && sprite_shows(s, (#[trigger] order[last]).1 as int, x)
                    && painted(s, order, k - 1, x, under) == sprite_shade(
                    s,
                    order[last].1 as int,
                    x,
                ) && forall|m: int|
                    last < m < k - 1 ==> !sprite_shows(s, (#[trigger] order[m]).1 as int, x);
            assert(sprite_shows(s, order[last].1 as int, x));
        }
    }
}

/// Painting all sprites from back to front shows the frontmost one.
pub proof fn lemma_painted_is_front(s: PpuState, order: Seq<(u8, usize)>, x: int, under: u8)
    requires
        back_to_front(s, order, SPRITES as int),
    ensures
        painted(s, order, order.len() as int, x, under) == (match front_sprite(
            s,
            x,
            SPRITES as int,
        ) {
            Some(i) => sprite_shade(s, i, x),
            None => under,
        }),
{
    let n = order.len() as int;
    law_front_sprite(s, x, SPRITES as int);
    lemma_painted(s, order, n, x, under);
    if forall|m: int| 0 <= m < n ==> !sprite_shows(s, (#[trigger] order[m]).1 as int, x) {
        match front_sprite(s, x, SPRITES as int) {
            Some(i) => {
                assert(sprite_selected(s, i));
                let k = choose|k: int| 0 <= k < order.len() && (#[trigger] order[k]).1 == i;
                assert(sprite_shows(s, order[k].1 as int, x));
            },
            None => {},
        }
    } else {
        let last = choose|last: int|
            0 <= last < n && sprite_shows(s, (#[trigger] order[last]).1 as int, x) && painted(
                s,
                order,
                n,
                x,
                under,
            ) == sprite_shade(s, order[last].1 as int, x) && forall|m: int|
                last < m < n ==> !sprite_shows(s, (#[trigger] order[m]).1 as int, x);
        let j = order[last].1 as int;
        assert(sprite_shows(s, j, x));
        let i = front_sprite(s, x, SPRITES as int)->0;
        assert(sprite_selected(s, i));
        let k = choose|k: int| 0 <= k < order.len() && (#[trigger] order[k]).1 == i;
        assert(sprite_shows(s, order[k].1 as int, x));
        if i != j {
            assert(in_front(s, i, j));
            assert(k < last);
            assert(in_front(s, order[last].1 as int, order[k].1 as int));
        }
    }
}

/// Inserting the next sprite in front of everything it is not further right
/// than keeps the order.
pub proof fn lemma_insert_sprite(
    s: PpuState,
    order: Seq<(u8, usize)>,
    position: int,
    x: u8,
    i: usize,
)
    requires
        i < SPRITES,
        x == s.oam[4 * i + 1],
        sprite_selected(s, i as int),
        back_to_front(s, order, i as int),
        0 <= position <= order.len(),
        forall|k: int| 0 <= k < position ==> #[trigger] order[k].0 > x,
        position < order.len() ==> order[position].0 <= x,
    ensures
        back_to_front(s, order.insert(position, (x, i)), i + 1),
{
    let after = order.insert(position, (x, i));
    assert(after[position] == (x, i));
    assert forall|k: int| 0 <= k < order.len() implies (#[trigger] order[k]) == after[if k
        < position {
        k
    } else {
        k + 1
    }] by {}
    assert forall|k: int, m: int| 0 <= k < m < after.len() implies in_front(
        s,
        (#[trigger] after[m]).1 as int,
        (#[trigger] after[k]).1 as int,
    ) by {
        if k == position {
            assert(after[m] == order[m - 1]);
            if m - 1 > position {
                assert(in_front(s, order[m - 1].1 as int, order[position].1 as int));
            }
        } else if m == position {
            assert(after[k] == order[k]);
        } else {
            let k0 = if k < position {
                k
            } else {
                k - 1
            };
            let m0 = if m < position {
                m
            } else {
                m - 1
            };
            assert(after[k] == order[k0] && after[m] == order[m0]);
        }
    }
    assert forall|j: int| 0 <= j < i + 1 && #[trigger] sprite_selected(s, j) implies exists|k: int|
        0 <= k < after.len() && (#[trigger] after[k]).1 == j by {
        if j < i {
            let k = choose|k: int| 0 <= k < order.len() && (#[trigger] order[k]).1 == j;
            let k1 = if k < position {
                k
            } else {
                k + 1
            };
            assert(after[k1].1 == j);
        } else {
            assert(after[position].1 == j);
        }
    }
}

/// How many of the first `n` sprites the OAM scan picks.
pub open spec fn sprites_selected(s: PpuState, n: int) -> int
    decreases n,
{
    if n <= 0 {
        0
    } else {
        sprites_selected(s, n - 1) + (if sprite_selected(s, n - 1) {
            1int
        } else {
            0int
        })
    }
}

/// Of the sprites on a line the scan picks all, or ten where there are more.
pub proof fn law_ten_sprites_per_line(s: PpuState, n: int)
    requires
        0 <= n <= SPRITES,
    ensures
        sprites_selected(s, n) == (if sprites_on_line(s, n) < SPRITES_PER_LINE {
            sprites_on_line(s, n)
        } else {
            SPRITES_PER_LINE as int
        }),
    decreases n,
{
    if n > 0 {
        law_ten_sprites_per_line(s, n - 1);
    }
}

/// The count of sprites on the line does not fall.
proof fn lemma_sprites_on_line_monotonic(s: PpuState, n: int, m: int)
    requires
        0 <= n <= m,
    ensures
        sprites_on_line(s, n) <= sprites_on_line(s, m),
    decreases m - n,
{
    if n < m {
        lemma_sprites_on_line_monotonic(s, n, m - 1);
    }
}

/// A scan that stops at sprite `n`, at the end of OAM or once the line is
/// full, has found every selected sprite.
pub proof fn lemma_scan_complete(s: PpuState, order: Seq<(u8, usize)>, n: int)
    requires
        0 <= n <= SPRITES,
        back_to_front(s, order, n),
        order.len() == sprites_on_line(s, n),
        n == SPRITES || order.len() >= SPRITES_PER_LINE,
    ensures
        back_to_front(s, order, SPRITES as int),
{
    assert forall|i: int| 0 <= i < SPRITES && #[trigger] sprite_selected(s, i) implies exists|
        k: int,
    |
        0 <= k < order.len() && (#[trigger] order[k]).1 == i by {
        if i >= n {
            lemma_sprites_on_line_monotonic(s, n, i);
        }
    }
}

// ---- Bit arithmetic of tiles and palettes ----

/// Joining one bit of each plane gives the color index.
pub proof fn lemma_join_planes(low: u8, high: u8, n: u8)
    requires
        n < 8,
    ensures
        (((high >> n) & 1u8) << 1) | ((low >> n) & 1u8) == (if bit(high, n) {
            2int
        } else {
            0int
        }) + (if bit(low, n) {
            1int
        } else {
            0int
        }),
        (((high >> n) & 1u8) << 1) | ((low >> n) & 1u8) < 4,
{
    let h = (high >> n) & 1u8;
    let l = (low >> n) & 1u8;
    assert(h <= 1 && l <= 1 && (h << 1) | l == h * 2 + l) by (bit_vector)
        requires
            h == (high >> n) & 1u8,
            l == (low >> n) & 1u8,
    ;
}

/// Shifting and masking reads a two-bit field of a palette.
pub proof fn lemma_shades(palette: u8)
    by (bit_vector)
    ensures
        (palette >> 0u8) & 3u8 == palette % 4,
        (palette >> 2u8) & 3u8 == (palette / 4) % 4,
        (palette >> 4u8) & 3u8 == (palette / 16) % 4,
        (palette >> 6u8) & 3u8 == palette / 64,
{
}

/// A palette gives one of four shades.
pub proof fn lemma_shade_range(palette: u8, color: u8)
    ensures
        shade(palette, color) < 4,
{
    lemma_fields(palette >> ((color * 2) as u8));
}

/// Every pixel is one of the four shades.
pub proof fn lemma_pixel_range(s: PpuState, x: int)
    ensures
        pixel(s, x) < 4,
{
    lemma_shade_range(s.bgp, bg_color(s, x));
    match front_sprite(s, x, SPRITES as int) {
        Some(i) => {
            lemma_shade_range(s.obp0, sprite_color(s, i, x));
            lemma_shade_range(s.obp1, sprite_color(s, i, x));
        },
        None => {},
    }
}

/// A line looks the same wherever in it the PPU is.
pub proof fn lemma_pixel_ignores_dot(s: PpuState, t: PpuState, x: int)
    requires
        t == (PpuState { dot: t.dot, ..s }),
    ensures
        pixel(t, x) == pixel(s, x),
{
    lemma_front_ignores_dot(s, t, x, SPRITES as int);
}

proof fn lemma_front_ignores_dot(s: PpuState, t: PpuState, x: int, n: int)
    requires
        t == (PpuState { dot: t.dot, ..s }),
    ensures
        front_sprite(t, x, n) == front_sprite(s, x, n),
        sprites_on_line(t, n) == sprites_on_line(s, n),
    decreases n,
{
    if n > 0 {
        lemma_front_ignores_dot(s, t, x, n - 1);
    }
}

} // verus!
