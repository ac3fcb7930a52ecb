//! Decoding the background and window layers of video RAM into a frame of DMG shades.
use vstd::prelude::*;

use crate::memory::{Memory, MemoryView};
use vstd::arithmetic::div_mod::lemma_fundamental_div_mod_converse;
use crate::registers::{LcdControl, ObjSize};
use crate::{DISPLAY_HEIGHT, DISPLAY_WIDTH};

verus! {

/// A tile index read as a signed byte.
pub open spec fn signed_tile_index(x: u8) -> int {
    if x < 128 {
        x as int
    } else {
        x - 256
    }
}

/// Tile data (VRAM offset): 16 bytes per tile, indexed from 0x8000 unsigned when LCDC bit 4 is
/// set, and from 0x9000 signed otherwise.
pub open spec fn tile_address(lcdc: LcdControl, tile_index: u8) -> int {
    if lcdc.bg_window_data_area {
        tile_index * 16
    } else {
        0x1000 + signed_tile_index(tile_index) * 16
    }
}

/// The VRAM offset of the BG tile map: 0x9C00 when LCDC bit 3 is set, 0x9800 otherwise.
pub open spec fn bg_map_offset(lcdc: LcdControl) -> int {
    if lcdc.bg_tile_map_area {
        0x1C00
    } else {
        0x1800
    }
}

/// The VRAM offset of the window tile map: 0x9C00 when LCDC bit 6 is set, 0x9800 otherwise.
pub open spec fn window_map_offset(lcdc: LcdControl) -> int {
    if lcdc.window_tile_map_area.0 == 0x9C00 {
        0x1C00
    } else {
        0x1800
    }
}

/// The 2-bit color index of pixel (`row`, `col`) of the tile at VRAM offset `tile`: bit
/// 7 - col of the row's low byte gives bit 0 and of its high byte bit 1.
pub open spec fn tile_color(vram: Seq<u8>, tile: int, row: int, col: int) -> u8 {
    let lo = vram[tile + row * 2];
    let hi = vram[tile + row * 2 + 1];
    let bit = (7 - col) as u8;
    (((hi >> bit) & 1u8) << 1u8) | ((lo >> bit) & 1u8)
}

/// The shade of screen pixel (`ly`, `x`) from the background: color 0 when the LCD or the
/// BG is off; otherwise the BG map scrolled by (SCX, SCY), wrapping around at 256.
pub open spec fn bg_shade(m: MemoryView, ly: int, x: int) -> u8 {
    let regs = m.registers;
    if !regs.lcdc.lcd_ppu_enable || !regs.lcdc.bg_window_priority_enabled {
        0
    } else {
        let bx = (regs.scx + x) % 256;
        let by = (regs.scy + ly) % 256;
        let map_index_addr = bg_map_offset(regs.lcdc) + (by / 8) * 32 + bx / 8;
        let tile_index = m.vram[map_index_addr];
        let color = tile_color(m.vram, tile_address(regs.lcdc, tile_index), by % 8, bx % 8);
        regs.palette_shade(color)
    }
}

/// The left edge of the window on screen: WX - 7, on 8 bits.
pub open spec fn window_left(m: MemoryView) -> int {
    (m.registers.wx - 7) % 256
}

/// The window covers screen pixel (`ly`, `x`) when it is enabled, row `ly` has reached WY,
/// and `x` lies between its left edge and column 158.
pub open spec fn window_covers(m: MemoryView, ly: int, x: int) -> bool {
    m.registers.lcdc.window_enable && ly >= m.registers.wy && x < 159 && x >= window_left(m)
}

/// The shade of screen pixel (`ly`, `x`) from the window, at window line `ly` - WY.
pub open spec fn window_shade(m: MemoryView, ly: int, x: int) -> u8 {
    let regs = m.registers;
    let wx = x - window_left(m);
    let wy = ly - regs.wy;
    let map_index_addr = window_map_offset(regs.lcdc) + (wy / 8) * 32 + wx / 8;
    let tile_index = m.vram[map_index_addr];
    let color = tile_color(m.vram, tile_address(regs.lcdc, tile_index), wy % 8, wx % 8);
    regs.palette_shade(color)
}

/// The shade of screen pixel (`ly`, `x`): the window where it covers the column, else the BG.
pub open spec fn frame_shade(m: MemoryView, ly: int, x: int) -> u8 {
    if window_covers(m, ly, x) {
        window_shade(m, ly, x)
    } else {
        bg_shade(m, ly, x)
    }
}

/// The frame, row by row: 144 rows of 160 shades.
pub open spec fn frame_spec(m: MemoryView) -> Seq<u8> {
    Seq::new(144 * 160, |i: int| frame_shade(m, i / 160, i % 160))
}

/// The frame does not depend on the LY register: each row is decoded at its own index.
pub proof fn lemma_frame_ignores_ly(m: MemoryView, ly: u8)
    ensures
        frame_spec(m) == frame_spec(
            MemoryView { registers: crate::registers::Registers { ly: ly, ..m.registers }, ..m },
        ),
{
    let m2 = MemoryView { registers: crate::registers::Registers { ly: ly, ..m.registers }, ..m };
    assert(frame_spec(m) =~= frame_spec(m2));
}

/// Whether sprite `i` covers line `ly`: Y - 16 <= ly < Y - 16 + height, on 8 bits.
pub open spec fn sprite_covers(m: MemoryView, i: int, ly: int, height: u8) -> bool {
    let sy = (m.oam[i].y - 16) % 256;
    ly >= sy && ly < (sy + height) % 256
}

/// The sprites among the first `n` that cover line `ly`, in OAM order.
pub open spec fn sprites_covering(m: MemoryView, ly: int, height: u8, n: nat) -> Seq<u8>
    decreases n,
{
    if n == 0 {
        Seq::empty()
    } else {
        let s = sprites_covering(m, ly, height, (n - 1) as nat);
        if sprite_covers(m, n - 1, ly, height) {
            s.push((n - 1) as u8)
        } else {
            s
        }
    }
}

/// The sprites covering fewer entries are a prefix of those covering more.
proof fn lemma_sprites_covering_prefix(m: MemoryView, ly: int, height: u8, n: nat, k: nat)
    requires
        n <= k,
    ensures
        sprites_covering(m, ly, height, n).len() <= sprites_covering(m, ly, height, k).len(),
        sprites_covering(m, ly, height, n) == sprites_covering(m, ly, height, k).take(
            sprites_covering(m, ly, height, n).len() as int,
        ),
    decreases k,
{
    if n < k {
        lemma_sprites_covering_prefix(m, ly, height, n, (k - 1) as nat);
        let s = sprites_covering(m, ly, height, (k - 1) as nat);
        let t = sprites_covering(m, ly, height, n);
        assert(s.push((k - 1) as u8).take(t.len() as int) =~= s.take(t.len() as int));
    } else {
        assert(sprites_covering(m, ly, height, n).take(
            sprites_covering(m, ly, height, n).len() as int,
        ) =~= sprites_covering(m, ly, height, n));
    }
}

/// A tile pixel's color index is 0 to 3.
proof fn lemma_color_index_range(vram: Seq<u8>, tile: int, row: int, col: int)
    requires
        0 <= col < 8,
    ensures
        tile_color(vram, tile, row, col) < 4,
{
    let lo = vram[tile + row * 2];
    let hi = vram[tile + row * 2 + 1];
    let bit = (7 - col) as u8;
    assert((((hi >> bit) & 1u8) << 1u8) | ((lo >> bit) & 1u8) < 4u8) by (bit_vector);
}

/// Sign-extend a byte to 16 bits.
fn sign_extend_i8(x: u8) -> (r: i16)
    ensures
        r == signed_tile_index(x),
{
    if x < 128 {
        x as i16
    } else {
        x as i16 - 256
    }
}

impl Memory {
    fn tile_data_base_and_index(&self, tile_index: u8) -> (r: u16)
        ensures
            r == tile_address(self.registers.lcdc, tile_index),
    {
        if self.registers.lcdc.bg_window_data_area {
            tile_index as u16 * 16u16
        } else {
            (0x1000i32 + (sign_extend_i8(tile_index) as i32) * 16) as u16
        }
    }

    fn bg_map_base(&self) -> (r: u16)
        ensures
            r == bg_map_offset(self.registers.lcdc),
    {
        if self.registers.lcdc.bg_tile_map_area {
            0x1C00
        } else {
            0x1800
        }
    }

    fn win_map_base(&self) -> (r: u16)
        ensures
            r == window_map_offset(self.registers.lcdc),
    {
        if self.registers.lcdc.window_tile_map_area.0 == 0x9C00 {
            0x1C00
        } else {
            0x1800
        }
    }

    fn fetch_tile_pixel(&self, tile_addr: usize, row_in_tile: usize, col_in_tile: usize) -> (r: u8)
        requires
            tile_addr + row_in_tile * 2 + 1 < 0x2000,
            col_in_tile < 8,
        ensures
            r == tile_color(self.vram.0@, tile_addr as int, row_in_tile as int, col_in_tile as int),
    {
        let lo = self.vram.0[tile_addr + row_in_tile * 2];
        let hi = self.vram.0[tile_addr + row_in_tile * 2 + 1];
        let bit = (7 - col_in_tile) as u8;
        let b0 = (lo >> bit) & 1;
        let b1 = (hi >> bit) & 1;
        // 0..3 (color index)
        (b1 << 1) | b0
    }

    /// The shade of screen pixel (`ly`, `x`) from the background.
    fn bg_pixel(&self, ly: usize, x: usize) -> (r: u8)
        requires
            ly < 144,
            x < 160,
        ensures
            r == bg_shade(self@, ly as int, x as int),
    {
        if !self.registers.lcdc.lcd_ppu_enable || !self.registers.lcdc.bg_window_priority_enabled {
            return 0;
        }
        let bx = self.registers.scx.wrapping_add(x as u8);
        let by = self.registers.scy.wrapping_add(ly as u8);
        assert(bx == (self.registers.scx + x) % 256);
        assert(by == (self.registers.scy + ly) % 256);
        let tile_x = bx / 8;
        let tile_y = by / 8;
        let row_in_tile = by % 8;
        let col_in_tile = bx % 8;
        assert(tile_x < 32 && tile_y < 32 && row_in_tile < 8 && col_in_tile < 8);
        let map_base = self.bg_map_base();
        let map_index_addr = map_base + (tile_y as u16) * 32 + tile_x as u16;
        assert(map_index_addr < 0x2000);
        let tile_index = self.vram.0[map_index_addr as usize];
        let tile_addr = self.tile_data_base_and_index(tile_index);
        let color_idx = self.fetch_tile_pixel(
            tile_addr as usize,
            row_in_tile as usize,
            col_in_tile as usize,
        );
        proof {
            lemma_color_index_range(self.vram.0@, tile_addr as int, row_in_tile as int, col_in_tile as int);
        }
        self.registers.map_palette_dmg(color_idx)
    }

    /// The shade of screen pixel (`ly`, `x`) from the window, whose left edge is `left`.
    fn window_pixel(&self, ly: u8, x: u8, left: u8) -> (r: u8)
        requires
            ly < 144,
            window_covers(self@, ly as int, x as int),
            left == window_left(self@),
        ensures
            r == window_shade(self@, ly as int, x as int),
    {
        let wx = x - left;
        let wy = ly - self.registers.wy;
        let tile_x = wx / 8;
        let tile_y = wy / 8;
        let row_in_tile = wy % 8;
        let col_in_tile = wx % 8;
        let map_base = self.win_map_base();
        let map_index_addr = map_base + (tile_y as u16) * 32 + tile_x as u16;
        let tile_index = self.vram.0[map_index_addr as usize];
        let tile_addr = self.tile_data_base_and_index(tile_index);
        let color_idx = self.fetch_tile_pixel(
            tile_addr as usize,
            row_in_tile as usize,
            col_in_tile as usize,
        );
        proof {
            lemma_color_index_range(self.vram.0@, tile_addr as int, row_in_tile as int, col_in_tile as int);
        }
        self.registers.map_palette_dmg(color_idx)
    }

    /// Up to 10 sprites covering line `ly`, in OAM order, among the first 39 entries.
    #[verifier::spinoff_prover]
    #[verifier::rlimit(30)]
    fn sprite_candidates(&self, ly: usize, h: u8) -> (r: Vec<u8>)
        ensures
            r@ == (if sprites_covering(self@, ly as int, h, 39).len() > 10 {
                sprites_covering(self@, ly as int, h, 39).take(10)
            } else {
                sprites_covering(self@, ly as int, h, 39)
            }),
    {
        let mut candidates: Vec<u8> = Vec::with_capacity(10);
        let mut i: usize = 0;
        while i < 39
            invariant_except_break
                i <= 39,
                candidates@ == sprites_covering(self@, ly as int, h, i as nat),
                candidates@.len() < 10,
            ensures
                candidates@ == (if sprites_covering(self@, ly as int, h, 39).len() > 10 {
                    sprites_covering(self@, ly as int, h, 39).take(10)
                } else {
                    sprites_covering(self@, ly as int, h, 39)
                }),
            decreases 39 - i,
        {
            let sy_on_screen = self.oam.sprites[i].y.wrapping_sub(16);
            if ly >= sy_on_screen as usize && ly < sy_on_screen.wrapping_add(h) as usize {
                candidates.push(i as u8);
            }
            if candidates.len() == 10 {
                proof {
                    lemma_sprites_covering_prefix(self@, ly as int, h, (i + 1) as nat, 39);
                    let s = sprites_covering(self@, ly as int, h, 39);
                    if s.len() == 10 {
                        assert(s.take(10) =~= s);
                    }
                }
                break;
            }
            i = i + 1;
        }
        candidates
    }

    /// Inputs: VRAM, OAM, LCDC, SCY, SCX, WY, WX and BGP. Output: the frame, 144 rows of
    /// 160 DMG shades (0..3), row after row.
    pub fn decode_framebuffer(&self) -> (r: Vec<u8>)
        ensures
            r@ == frame_spec(self@),
    {
        let width: usize = DISPLAY_WIDTH as usize;
        let height: usize = DISPLAY_HEIGHT as usize;
        let mut frame: Vec<u8> = Vec::new();
        let mut ly: usize = 0;
        while ly < height
            invariant
                width == 160,
                height == 144,
                ly <= 144,
                frame@ =~= Seq::new((ly * 160) as nat, |i: int| frame_shade(self@, i / 160, i % 160)),
            decreases height - ly,
        {
            let mut row: Vec<u8> = Vec::new();
            let mut x: usize = 0;
            while x < width
                invariant
                    width == 160,
                    ly < 144,
                    x <= 160,
                    row@ =~= Seq::new(x as nat, |j: int| bg_shade(self@, ly as int, j)),
                decreases width - x,
            {
                let bg_shade = self.bg_pixel(ly, x);
                row.push(bg_shade);
                x = x + 1;
            }
            let line = ly as u8;
            if self.registers.lcdc.window_enable && line >= self.registers.wy {
                let left = self.registers.wx.wrapping_sub(7);
                let mut x: u8 = 0;
                while x < 159
                    invariant
                        ly < 144,
                        x <= 159,
                        left == window_left(self@),
                        line == ly,
                        self.registers.lcdc.window_enable,
                        line >= self.registers.wy,
                        row@.len() == 160,
                        forall|j: int|
                            0 <= j < 160 ==> #[trigger] row@[j] == (if j < x && window_covers(
                                self@,
                                ly as int,
                                j,
                            ) {
                                window_shade(self@, ly as int, j)
                            } else {
                                bg_shade(self@, ly as int, j)
                            }),
                    decreases 159 - x,
                {
                    if x >= left {
                        let shade = self.window_pixel(line, x, left);
                        row.set(x as usize, shade);
                    }
                    x = x + 1;
                }
            }
            if self.registers.lcdc.obj_enable {
                let h = self.sprite_height();
                let _candidates = self.sprite_candidates(ly, h);
            }
            let ghost prev = frame@;
            assert forall|j: int| 0 <= j < 160 implies #[trigger] row@[j] == frame_shade(
                self@,
                ly as int,
                j,
            ) by {
                if !(self.registers.lcdc.window_enable && line >= self.registers.wy) {
                    assert(!window_covers(self@, ly as int, j));
                } else if j >= 159 {
                    assert(!window_covers(self@, ly as int, j));
                }
            }
            frame.append(&mut row);
            proof {
                assert forall|i: int| 0 <= i < (ly + 1) * 160 implies #[trigger] frame@[i]
                    == frame_shade(self@, i / 160, i % 160) by {
                    if i >= ly * 160 {
                        let j = i - ly * 160;
                        lemma_fundamental_div_mod_converse(i, 160, ly as int, j);
                    }
                }
                assert(frame@.len() == (ly + 1) * 160);
            }
            ly = ly + 1;
        }
        frame
    }

    fn sprite_height(&self) -> (r: u8)
        ensures
            r == (if self.registers.lcdc.obj_size == ObjSize::Size8x16 {
                16u8
            } else {
                8u8
            }),
    {
        match self.registers.lcdc.obj_size {
            ObjSize::Size8x8 => 8,
            ObjSize::Size8x16 => 16,
        }
    }
}

} // verus!

verus! {

/// The shade at column `col` (0 leftmost) of row `row` of the tile whose 16 bytes start at
/// VRAM offset `tile`, through palette `bgp`: the row's low byte gives bit 0 of the color
/// index and its high byte bit 1, bit 7 of each byte being the leftmost pixel; the palette
/// gives color `k` the shade in its bits 2k and 2k + 1.
pub open spec fn shade_in_tile(vram: Seq<u8>, tile: int, row: int, col: int, bgp: u8) -> u8 {
    let lo = vram[tile + row * 2];
    let hi = vram[tile + row * 2 + 1];
    let shift = (7 - col) as u8;
    let color: u8 = (2 * ((hi >> shift) & 1u8) + ((lo >> shift) & 1u8)) as u8;
    (bgp >> (2 * color) as u8) & 3u8
}

/// The VRAM offset of the 16 bytes of tile `index`: 0x8000 + 16 * index with LCDC bit 4 set,
/// otherwise 0x9000 + 16 * index with the index read as a signed byte.
pub open spec fn tile_offset(unsigned_tiles: bool, index: u8) -> int {
    if unsigned_tiles {
        16 * index
    } else if index < 128 {
        0x1000 + 16 * index
    } else {
        0x1000 + 16 * (index - 256)
    }
}

proof fn lemma_shade_in_tile(
    regs: crate::registers::Registers,
    vram: Seq<u8>,
    tile: int,
    row: int,
    col: int,
)
    requires
        0 <= col < 8,
    ensures
        regs.palette_shade(tile_color(vram, tile, row, col)) == shade_in_tile(
            vram,
            tile,
            row,
            col,
            regs.bgp,
        ),
{
    let lo = vram[tile + row * 2];
    let hi = vram[tile + row * 2 + 1];
    let s = (7 - col) as u8;
    assert((((hi >> s) & 1u8) << 1u8) | ((lo >> s) & 1u8) == (2 * ((hi >> s) & 1u8) + ((lo >> s)
        & 1u8)) as u8) by (bit_vector);
}

/// With the LCD and the background on and the window off, the frame's pixel at row `ly`,
/// column `x` is the background pixel at (SCX + x, SCY + ly), wrapping at 256: its tile index
/// is read from the BG map at 0x9C00 when LCDC bit 3 is set and at 0x9800 when it is clear,
/// 32 tiles to a map row. With the LCD or the background off the pixel is shade 0.
pub proof fn lemma_background_pixel(m: MemoryView, ly: int, x: int)
    requires
        0 <= ly < 144,
        0 <= x < 160,
        !m.registers.lcdc.window_enable,
    ensures
        ({
            let r = m.registers;
            let bx = (r.scx + x) % 256;
            let by = (r.scy + ly) % 256;
            let map = if r.lcdc.bg_tile_map_area {
                0x9C00 - 0x8000
            } else {
                0x9800 - 0x8000
            };
            let index = m.vram[map + (by / 8) * 32 + bx / 8];
            frame_spec(m)[ly * 160 + x] == if !r.lcdc.lcd_ppu_enable
                || !r.lcdc.bg_window_priority_enabled {
                0u8
            } else {
                shade_in_tile(
                    m.vram,
                    tile_offset(r.lcdc.bg_window_data_area, index),
                    by % 8,
                    bx % 8,
                    r.bgp,
                )
            }
        }),
{
    lemma_fundamental_div_mod_converse(ly * 160 + x, 160, ly, x);
    let r = m.registers;
    let bx = (r.scx + x) % 256;
    let by = (r.scy + ly) % 256;
    let map_index = bg_map_offset(r.lcdc) + (by / 8) * 32 + bx / 8;
    let index = m.vram[map_index];
    lemma_shade_in_tile(r, m.vram, tile_address(r.lcdc, index), by % 8, bx % 8);
}

/// Where the window is on and covers the pixel at row `ly`, column `x` (row `ly` at or below
/// WY, `x` from WX - 7 up to column 158), the frame shows window pixel (x - (WX - 7), ly - WY):
/// its tile index is read from the window map at 0x9C00 when LCDC bit 6 is set and at 0x9800
/// when it is clear.
pub proof fn lemma_window_pixel(m: MemoryView, ly: int, x: int)
    requires
        0 <= ly < 144,
        0 <= x < 159,
        m.registers.lcdc.window_enable,
        ly >= m.registers.wy,
        x >= (m.registers.wx - 7) % 256,
    ensures
        ({
            let r = m.registers;
            let wx = x - (r.wx - 7) % 256;
            let wy = ly - r.wy;
            let map = if r.lcdc.window_tile_map_area.0 == 0x9C00 {
                0x9C00 - 0x8000
            } else {
                0x9800 - 0x8000
            };
            let index = m.vram[map + (wy / 8) * 32 + wx / 8];
            frame_spec(m)[ly * 160 + x] == shade_in_tile(
                m.vram,
                tile_offset(r.lcdc.bg_window_data_area, index),
                wy % 8,
                wx % 8,
                r.bgp,
            )
        }),
{
    lemma_fundamental_div_mod_converse(ly * 160 + x, 160, ly, x);
    let r = m.registers;
    let wx = x - (r.wx - 7) % 256;
    let wy = ly - r.wy;
    let map_index = window_map_offset(r.lcdc) + (wy / 8) * 32 + wx / 8;
    let index = m.vram[map_index];
    lemma_shade_in_tile(r, m.vram, tile_address(r.lcdc, index), wy % 8, wx % 8);
}

} // verus!
