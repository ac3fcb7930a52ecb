//! The pixel processing unit: the scanline and mode timing, and the frame hand-off.
use vstd::prelude::*;

use crate::interrupt::InterruptSource;
use crate::util::nth_bit;
use crate::memory::Memory;
use crate::video::frame_spec;
use crate::{DISPLAY_HEIGHT, DISPLAY_WIDTH, SCALE_FACTOR};
use vstd::arithmetic::div_mod::lemma_fundamental_div_mod_converse;
use crate::registers::{
    lemma_coincidence_touches_only_if_and_flag, lemma_request_touches_only_if, Registers, Stat,
    StatMode,
};

verus! {

broadcast use {lemma_request_touches_only_if, lemma_coincidence_touches_only_if_and_flag};

/// The PPU's own state.
pub struct Ppu {
    /// An internal counter of the T-cycles within one line, 0..455.
    /// It resets to 0 at the start of each new scanline (when LY increments), and STAT shows
    /// the mode of the dot it counts:
    ///     0-79 -> OAM search
    ///     80-251 -> Pixel transfer
    ///     252-455 -> HBlank
    pub dot_counter: u16,
    /// A frame has been completed (LY reached 144) and not yet drawn.
    pub frame_ready: bool,
}

/// The mode of dot `dot` of line `ly`, and the dot at which that mode ends.
pub open spec fn mode_at(ly: u8, dot: int) -> (StatMode, int) {
    if ly < 144 {
        if dot < 80 {
            (StatMode::OamSearch, 80)
        } else if dot < 252 {
            (StatMode::LcdTransfer, 252)
        } else {
            (StatMode::Hblank, 456)
        }
    } else {
        (StatMode::Vblank, 456)
    }
}

/// STAT takes the new mode; entering OAM search, VBlank or HBlank requests the STAT interrupt
/// when the matching STAT enable is set.
pub open spec fn enter_mode(regs: Registers, mode: StatMode) -> Registers {
    let r1 = Registers { stat: Stat { mode: mode, ..regs.stat }, ..regs };
    if (mode == StatMode::OamSearch && regs.stat.oam_ir_enable) || (mode == StatMode::Vblank
        && regs.stat.v_blank_ir_enable) || (mode == StatMode::Hblank
        && regs.stat.h_blank_ir_enable) {
        r1.with_request(InterruptSource::Stat)
    } else {
        r1
    }
}

/// The end of a scanline: LY moves on (and the coincidence flag with it); reaching line 144
/// enters VBlank, requests the VBlank interrupt (and STAT, when its VBlank enable is set) and
/// marks the frame ready; passing line 153 wraps to line 0 in OAM search.
pub open spec fn line_end(ppu: Ppu, regs: Registers) -> (Ppu, Registers) {
    let ly1 = regs.ly + 1;
    let r2 = Registers { ly: (ly1 % 256) as u8, ..regs }.with_coincidence_updated();
    if ly1 == 144 {
        let r3 = Registers { stat: Stat { mode: StatMode::Vblank, ..r2.stat }, ..r2 }.with_request(
            InterruptSource::VBlank,
        );
        let r4 = if r3.stat.v_blank_ir_enable {
            r3.with_request(InterruptSource::Stat)
        } else {
            r3
        };
        (Ppu { dot_counter: 0, frame_ready: true }, r4)
    } else if ly1 >= 154 {
        let r3 = Registers {
            ly: 0,
            stat: Stat { mode: StatMode::OamSearch, ..r2.stat },
            ..r2
        }.with_coincidence_updated();
        (Ppu { dot_counter: 0, ..ppu }, r3)
    } else {
        (Ppu { dot_counter: 0, ..ppu }, r2)
    }
}

/// STAT brought to `mode`: entering it when it is not already the mode shown.
pub open spec fn update_mode(regs: Registers, mode: StatMode) -> Registers {
    if regs.stat.mode != mode {
        enter_mode(regs, mode)
    } else {
        regs
    }
}

/// One T-cycle of the PPU with the LCD on: the dot counter moves on (ending the line at dot
/// 456), and STAT then shows the mode of the new dot.
pub open spec fn advance_dot(ppu: Ppu, regs: Registers) -> (Ppu, Registers) {
    let (p1, r1) = if ppu.dot_counter + 1 == 456 {
        line_end(ppu, regs)
    } else {
        (Ppu { dot_counter: (ppu.dot_counter + 1) as u16, ..ppu }, regs)
    };
    (p1, update_mode(r1, mode_at(r1.ly, p1.dot_counter as int).0))
}

/// `n` T-cycles of the PPU with the LCD on, one after the other.
pub open spec fn advance(ppu: Ppu, regs: Registers, n: nat) -> (Ppu, Registers)
    decreases n,
{
    if n == 0 {
        (ppu, regs)
    } else {
        let (p1, r1) = advance_dot(ppu, regs);
        advance(p1, r1, (n - 1) as nat)
    }
}

/// A tick of `n` T-cycles: with the LCD off the PPU is frozen at the start of line 0 in
/// HBlank; with it on, the PPU advances by `n` T-cycles.
pub open spec fn tick_spec(ppu: Ppu, regs: Registers, n: nat) -> (Ppu, Registers) {
    if !regs.lcdc.lcd_ppu_enable {
        (
            Ppu { dot_counter: 0, ..ppu },
            Registers { ly: 0, stat: Stat { mode: StatMode::Hblank, ..regs.stat }, ..regs },
        )
    } else {
        advance(ppu, regs, n)
    }
}

/// Whether `step` T-cycles from the current dot can be handled at once: either the one dot
/// that crosses into the next mode (or the next line), or dots that all stay within the mode
/// of the current dot.
pub open spec fn chunk_fits(ppu: Ppu, regs: Registers, step: int) -> bool {
    let boundary = mode_at(regs.ly, ppu.dot_counter as int).1;
    if ppu.dot_counter + 1 == boundary {
        step == 1
    } else {
        1 <= step && ppu.dot_counter + step < boundary
    }
}

/// `step` T-cycles handled at once: the dot that crosses a mode boundary on its own, or a
/// run of dots within one mode, for which STAT is brought to that mode once and the dot
/// counter moves on.
pub open spec fn chunk(ppu: Ppu, regs: Registers, step: int) -> (Ppu, Registers) {
    let (mode, boundary) = mode_at(regs.ly, ppu.dot_counter as int);
    if ppu.dot_counter + 1 == boundary {
        advance_dot(ppu, regs)
    } else {
        (Ppu { dot_counter: (ppu.dot_counter + step) as u16, ..ppu }, update_mode(regs, mode))
    }
}

/// Bringing STAT to a mode shows that mode and leaves LY and LCDC alone.
proof fn lemma_update_mode(regs: Registers, mode: StatMode)
    ensures
        update_mode(regs, mode).stat.mode == mode,
        update_mode(regs, mode).ly == regs.ly,
        update_mode(regs, mode).lcdc == regs.lcdc,
{
}

/// Dots that stay within the mode of the current dot, once STAT shows that mode, change
/// nothing but the dot counter.
proof fn lemma_quiet_run(ppu: Ppu, regs: Registers, k: nat)
    requires
        ppu.dot_counter < 456,
        ppu.dot_counter + k < mode_at(regs.ly, ppu.dot_counter as int).1,
        regs.stat.mode == mode_at(regs.ly, ppu.dot_counter as int).0,
    ensures
        advance(ppu, regs, k) == (Ppu { dot_counter: (ppu.dot_counter + k) as u16, ..ppu }, regs),
    decreases k,
{
    if k > 0 {
        let p1 = Ppu { dot_counter: (ppu.dot_counter + 1) as u16, ..ppu };
        assert(mode_at(regs.ly, p1.dot_counter as int) == mode_at(regs.ly, ppu.dot_counter as int));
        assert(advance_dot(ppu, regs) == (p1, regs));
        lemma_quiet_run(p1, regs, (k - 1) as nat);
    }
}

/// Handling `step` T-cycles at once, where they fit in one chunk, is the same as handling
/// them one by one.
pub proof fn lemma_chunk(ppu: Ppu, regs: Registers, step: int)
    requires
        ppu.dot_counter < 456,
        chunk_fits(ppu, regs, step),
    ensures
        advance(ppu, regs, step as nat) == chunk(ppu, regs, step),
{
    let (mode, boundary) = mode_at(regs.ly, ppu.dot_counter as int);
    let (p1, r1) = advance_dot(ppu, regs);
    assert(advance(ppu, regs, step as nat) == advance(p1, r1, (step - 1) as nat));
    if ppu.dot_counter + 1 == boundary {
        assert(advance(p1, r1, 0) == (p1, r1));
    } else {
        assert(mode_at(regs.ly, ppu.dot_counter + 1) == mode_at(regs.ly, ppu.dot_counter as int));
        lemma_update_mode(regs, mode);
        assert(p1.dot_counter == ppu.dot_counter + 1);
        assert(r1 == update_mode(regs, mode));
        lemma_quiet_run(p1, r1, (step - 1) as nat);
    }
}

/// Advancing by `a` and then by `b` T-cycles is advancing by `a + b`.
pub proof fn lemma_advance_adds(ppu: Ppu, regs: Registers, a: nat, b: nat)
    ensures
        advance(ppu, regs, a + b) == advance(advance(ppu, regs, a).0, advance(ppu, regs, a).1, b),
    decreases a,
{
    if a > 0 {
        let (p1, r1) = advance_dot(ppu, regs);
        lemma_advance_adds(p1, r1, (a - 1) as nat, b);
        assert((a + b - 1) as nat == (a - 1) as nat + b);
    }
}

/// Advancing never touches LCDC.
proof fn lemma_advance_keeps_lcdc(ppu: Ppu, regs: Registers, n: nat)
    ensures
        advance(ppu, regs, n).1.lcdc == regs.lcdc,
    decreases n,
{
    if n > 0 {
        let (p1, r1) = advance_dot(ppu, regs);
        lemma_advance_keeps_lcdc(p1, r1, (n - 1) as nat);
    }
}

/// With the LCD on, a tick of `a` T-cycles followed by a tick of `b` is a tick of `a + b`.
pub proof fn lemma_tick_composes(ppu: Ppu, regs: Registers, a: nat, b: nat)
    requires
        regs.lcdc.lcd_ppu_enable,
    ensures
        tick_spec(tick_spec(ppu, regs, a).0, tick_spec(ppu, regs, a).1, b) == tick_spec(
            ppu,
            regs,
            a + b,
        ),
{
    lemma_advance_keeps_lcdc(ppu, regs, a);
    lemma_advance_adds(ppu, regs, a, b);
}

/// LY stays within 0..=153 and the dot counter within a line, whatever the number of
/// T-cycles.
pub proof fn lemma_advance_keeps_ranges(ppu: Ppu, regs: Registers, n: nat)
    requires
        ppu.wf(),
        regs.ly <= 153,
    ensures
        advance(ppu, regs, n).0.wf(),
        advance(ppu, regs, n).1.ly <= 153,
    decreases n,
{
    if n > 0 {
        let (p1, r1) = advance_dot(ppu, regs);
        lemma_advance_keeps_ranges(p1, r1, (n - 1) as nat);
    }
}

/// After one T-cycle STAT shows the mode of the new dot.
proof fn lemma_advance_dot_shows_mode(ppu: Ppu, regs: Registers)
    ensures
        advance_dot(ppu, regs).1.stat.mode == mode_at(
            advance_dot(ppu, regs).1.ly,
            advance_dot(ppu, regs).0.dot_counter as int,
        ).0,
{
    let (p1, r1) = if ppu.dot_counter + 1 == 456 {
        line_end(ppu, regs)
    } else {
        (Ppu { dot_counter: (ppu.dot_counter + 1) as u16, ..ppu }, regs)
    };
    lemma_update_mode(r1, mode_at(r1.ly, p1.dot_counter as int).0);
}

/// With the LCD on, after a tick of at least one T-cycle STAT shows the mode of the current
/// dot of the current line: OAM search for dots 0-79, pixel transfer for 80-251 and HBlank
/// for 252-455 of lines 0-143, VBlank on lines 144-153.
pub proof fn lemma_tick_shows_mode_of_dot(ppu: Ppu, regs: Registers, n: nat)
    requires
        regs.lcdc.lcd_ppu_enable,
        n > 0,
    ensures
        tick_spec(ppu, regs, n).1.stat.mode == mode_at(
            tick_spec(ppu, regs, n).1.ly,
            tick_spec(ppu, regs, n).0.dot_counter as int,
        ).0,
    decreases n,
{
    let (p1, r1) = advance_dot(ppu, regs);
    lemma_advance_dot_shows_mode(ppu, regs);
    assert(advance(ppu, regs, n) == advance(p1, r1, (n - 1) as nat));
    if n > 1 {
        lemma_advance_keeps_lcdc(ppu, regs, 1);
        assert(advance(ppu, regs, 1) == (p1, r1)) by {
            assert(advance(p1, r1, 0) == (p1, r1));
        }
        lemma_tick_shows_mode_of_dot(p1, r1, (n - 1) as nat);
    } else {
        assert(advance(p1, r1, 0) == (p1, r1));
    }
}

/// The position of the PPU in the frame, counted in T-cycles from dot 0 of line 0.
pub open spec fn frame_position(ppu: Ppu, regs: Registers) -> int {
    regs.ly * 456 + ppu.dot_counter
}

/// One T-cycle moves the position in the frame on by one, wrapping after the 154 lines of
/// 456 dots.
proof fn lemma_advance_dot_position(ppu: Ppu, regs: Registers)
    requires
        ppu.wf(),
        regs.ly <= 153,
    ensures
        frame_position(advance_dot(ppu, regs).0, advance_dot(ppu, regs).1) == (frame_position(
            ppu,
            regs,
        ) + 1) % (154int * 456),
{
    let (p1, r1) = if ppu.dot_counter + 1 == 456 {
        line_end(ppu, regs)
    } else {
        (Ppu { dot_counter: (ppu.dot_counter + 1) as u16, ..ppu }, regs)
    };
    lemma_update_mode(r1, mode_at(r1.ly, p1.dot_counter as int).0);
    let pos = frame_position(ppu, regs);
    if ppu.dot_counter + 1 == 456 {
        if regs.ly + 1 >= 154 {
            assert(pos + 1 == 154 * 456);
        } else {
            assert(r1.ly == regs.ly + 1);
            assert(pos + 1 < 154 * 456);
        }
    } else {
        assert(pos + 1 < 154 * 456);
    }
}

/// With the LCD on, a tick of `n` T-cycles moves the position in the frame (LY * 456 + the
/// dot counter) on by `n`, modulo the 154 lines of 456 dots of a frame.
pub proof fn lemma_tick_advances_position(ppu: Ppu, regs: Registers, n: nat)
    requires
        regs.lcdc.lcd_ppu_enable,
        ppu.wf(),
        regs.ly <= 153,
    ensures
        frame_position(tick_spec(ppu, regs, n).0, tick_spec(ppu, regs, n).1) == (frame_position(
            ppu,
            regs,
        ) + n) % (154int * 456),
    decreases n,
{
    let pos = frame_position(ppu, regs);
    if n == 0 {
        vstd::arithmetic::div_mod::lemma_small_mod(pos as nat, (154 * 456) as nat);
    } else {
        let (p1, r1) = advance_dot(ppu, regs);
        lemma_advance_dot_position(ppu, regs);
        lemma_advance_keeps_ranges(ppu, regs, 1);
        lemma_advance_keeps_lcdc(ppu, regs, 1);
        assert(advance(ppu, regs, 1) == (p1, r1)) by {
            assert(advance(p1, r1, 0) == (p1, r1));
        }
        lemma_tick_advances_position(p1, r1, (n - 1) as nat);
        let m: int = 154int * 456;
        vstd::arithmetic::div_mod::lemma_add_mod_noop(pos + 1, n - 1, m);
        vstd::arithmetic::div_mod::lemma_add_mod_noop((pos + 1) % m, n - 1, m);
        vstd::arithmetic::div_mod::lemma_mod_twice(pos + 1, m);
    }
}

/// Byte `k` of a scaled output row showing source row `y`: channel k % 4 of output pixel
/// k / 4, which shows source column (k / 4) / 3; the alpha channel is 255.
pub open spec fn scaled_byte(gray: Seq<u8>, y: int, k: int) -> u8 {
    if k % 4 == 3 {
        255
    } else {
        gray[y * 160 + (k / 4) / 3]
    }
}

/// The 160x144 gray frame as RGBA, each pixel repeated 3 times across and 3 times down:
/// 432 rows of 480 pixels of 4 bytes; output row i shows source row i / 3.
pub open spec fn rgba_scaled(gray: Seq<u8>) -> Seq<u8> {
    Seq::new(432 * 1920, |i: int| scaled_byte(gray, (i / 1920) / 3, i % 1920))
}

/// Expand a grayscale framebuffer into RGBA, scaling each pixel 3 times across and down.
///
/// Input:  160 * 144 gray values
/// Output: 480 * 432 RGBA pixels
fn expand_gray_to_rgba_scaled(gray: &[u8]) -> (r: Vec<u8>)
    requires
        gray@.len() == 160 * 144,
    ensures
        r@ == rgba_scaled(gray@),
{
    let width: usize = DISPLAY_WIDTH as usize;
    let height: usize = DISPLAY_HEIGHT as usize;
    let scale: usize = SCALE_FACTOR as usize;
    let out_w = width * scale;
    let out_h = height * scale;
    let mut out: Vec<u8> = Vec::with_capacity(out_w * out_h * 4);
    // Reusable buffer for one horizontally-scaled RGBA row.
    let mut row: Vec<u8> = Vec::with_capacity(out_w * 4);
    let mut y: usize = 0;
    while y < height
        invariant
            width == 160,
            height == 144,
            scale == 3,
            gray@.len() == 160 * 144,
            y <= 144,
            out@ =~= Seq::new((y * 3 * 1920) as nat, |i: int| scaled_byte(gray@, (i / 1920) / 3, i % 1920)),
        decreases height - y,
    {
        row.clear();
        // Build one expanded row (horizontal scale only).
        let base = y * width;
        let mut x: usize = 0;
        while x < width
            invariant
                width == 160,
                scale == 3,
                gray@.len() == 160 * 144,
                y < 144,
                base == y * 160,
                x <= 160,
                row@ =~= Seq::new((x * 12) as nat, |k: int| scaled_byte(gray@, y as int, k)),
            decreases width - x,
        {
            let v = gray[base + x];
            // Repeat horizontally `scale` times.
            let mut d: usize = 0;
            while d < scale
                invariant
                    scale == 3,
                    gray@.len() == 160 * 144,
                    y < 144,
                    x < 160,
                    v == gray@[y * 160 + x],
                    d <= 3,
                    row@ =~= Seq::new((x * 12 + d * 4) as nat, |k: int| scaled_byte(gray@, y as int, k)),
                decreases scale - d,
            {
                let ghost len0 = row@.len();
                row.push(v);
                row.push(v);
                row.push(v);
                row.push(255);
                proof {
                    assert forall|c: int| 0 <= c < 4 implies #[trigger] row@[len0 + c]
                        == scaled_byte(gray@, y as int, len0 + c) by {
                        lemma_fundamental_div_mod_converse(len0 + c, 4, (x * 3 + d) as int, c);
                        lemma_fundamental_div_mod_converse((x * 3 + d) as int, 3, x as int, d as int);
                    }
                }
                d = d + 1;
            }
            x = x + 1;
        }
        // Copy the row `scale` times to achieve vertical scaling.
        let mut dy: usize = 0;
        while dy < scale
            invariant
                scale == 3,
                y < 144,
                dy <= 3,
                row@ =~= Seq::new(1920, |k: int| scaled_byte(gray@, y as int, k)),
                out@ =~= Seq::new(((y * 3 + dy) * 1920) as nat, |i: int| scaled_byte(gray@, (i / 1920) / 3, i % 1920)),
            decreases scale - dy,
        {
            let ghost len0 = out@.len();
            let mut k: usize = 0;
            while k < row.len()
                invariant
                    y < 144,
                    dy < 3,
                    len0 == (y * 3 + dy) * 1920,
                    row@ =~= Seq::new(1920, |k: int| scaled_byte(gray@, y as int, k)),
                    k <= 1920,
                    out@ =~= Seq::new((len0 + k) as nat, |i: int| scaled_byte(gray@, (i / 1920) / 3, i % 1920)),
                decreases row.len() - k,
            {
                proof {
                    lemma_fundamental_div_mod_converse(len0 + k, 1920, (y * 3 + dy) as int, k as int);
                    lemma_fundamental_div_mod_converse((y * 3 + dy) as int, 3, y as int, dy as int);
                }
                out.push(row[k]);
                k = k + 1;
            }
            dy = dy + 1;
        }
        y = y + 1;
    }
    out
}

impl Ppu {
    /// The dot counter stays within a line.
    pub open spec fn wf(self) -> bool {
        self.dot_counter < 456
    }

    pub fn new() -> (r: Ppu)
        ensures
            r.dot_counter == 0,
            !r.frame_ready,
    {
        Ppu { dot_counter: 0, frame_ready: false }
    }

    /// End of scanline: LY moves on; line 144 enters VBlank; past line 153 a new frame starts.
    fn end_line(&mut self, registers: &mut Registers)
        ensures
            final(self).dot_counter == old(self).dot_counter,
            (Ppu { dot_counter: 0, frame_ready: final(self).frame_ready }, *final(registers))
                == line_end(*old(self), *old(registers)),
    {
        let mut ly = registers.ly as u16;
        ly = ly + 1;
        registers.ly = (ly % 256) as u8;
        registers.update_stat_coincidence();
        if ly == 144 {
            // Entering VBlank
            registers.stat.mode = StatMode::Vblank;
            registers.request_interrupt(&InterruptSource::VBlank);
            if registers.stat.v_blank_ir_enable {
                registers.request_interrupt(&InterruptSource::Stat);
            }
            self.frame_ready = true;
        } else if ly >= 154 {
            // Wrap to new frame
            registers.ly = 0;
            registers.stat.mode = StatMode::OamSearch;
            registers.update_stat_coincidence();
        }
    }

    /// The mode of dot `dot` of line `ly`, and the dot at which that mode ends.
    fn mode_and_boundary(ly: u8, dot: u16) -> (r: (StatMode, u16))
        ensures
            r.0 == mode_at(ly, dot as int).0,
            r.1 == mode_at(ly, dot as int).1,
    {
        if ly < 144 {
            // visible line: boundaries at 80, 252, 456
            if dot < 80 {
                (StatMode::OamSearch, 80u16)
            } else if dot < 252 {
                (StatMode::LcdTransfer, 252u16)
            } else {
                (StatMode::Hblank, 456u16)
            }
        } else {
            // VBlank line: whole line is Mode 1, boundary at 456
            (StatMode::Vblank, 456u16)
        }
    }

    /// Bring STAT to `mode` if it shows another one, requesting the STAT interrupt when the
    /// new mode's interrupt is enabled.
    fn show_mode(registers: &mut Registers, mode: StatMode)
        ensures
            *final(registers) == update_mode(*old(registers), mode),
    {
        if registers.stat.mode != mode {
            registers.stat.mode = mode;
            if (mode == StatMode::OamSearch && registers.stat.oam_ir_enable) || (mode
                == StatMode::Vblank && registers.stat.v_blank_ir_enable) || (mode
                == StatMode::Hblank && registers.stat.h_blank_ir_enable) {
                registers.request_interrupt(&InterruptSource::Stat);
            }
        }
    }

    /// One T-cycle from dot `dot`: the dot counter moves on, ending the line at dot 456, and
    /// STAT then shows the mode of the new dot. Returns the new dot counter.
    fn advance_one(&mut self, registers: &mut Registers, dot: u16) -> (r: u16)
        requires
            dot < 456,
        ensures
            r < 456,
            final(self).dot_counter == old(self).dot_counter,
            (Ppu { dot_counter: r, frame_ready: final(self).frame_ready }, *final(registers))
                == advance_dot(
                Ppu { dot_counter: dot, frame_ready: old(self).frame_ready },
                *old(registers),
            ),
    {
        let mut new_dot = dot + 1;
        if new_dot == 456 {
            new_dot = 0;
            self.end_line(registers);
        }
        let (new_mode, _) = Self::mode_and_boundary(registers.ly, new_dot);
        Self::show_mode(registers, new_mode);
        new_dot
    }

    /// At most `t` T-cycles from dot `dot` handled at once: the one dot that crosses into the
    /// next mode or line, or the dots that stay in the current mode. Returns the new dot
    /// counter and the number of T-cycles handled.
    fn advance_chunk(&mut self, registers: &mut Registers, dot: u16, t: u8) -> (r: (u16, u8))
        requires
            dot < 456,
            t > 0,
        ensures
            r.0 < 456,
            1 <= r.1 <= t,
            chunk_fits(
                Ppu { dot_counter: dot, frame_ready: old(self).frame_ready },
                *old(registers),
                r.1 as int,
            ),
            final(self).dot_counter == old(self).dot_counter,
            (Ppu { dot_counter: r.0, frame_ready: final(self).frame_ready }, *final(registers))
                == chunk(
                Ppu { dot_counter: dot, frame_ready: old(self).frame_ready },
                *old(registers),
                r.1 as int,
            ),
    {
        let (mode, next_boundary) = Self::mode_and_boundary(registers.ly, dot);
        if dot + 1 == next_boundary {
            // This dot crosses into the next mode, or ends the line
            let new_dot = self.advance_one(registers, dot);
            (new_dot, 1)
        } else {
            // The dots up to the boundary stay in the current mode
            Self::show_mode(registers, mode);
            let to_boundary = next_boundary - 1 - dot;
            let step = if to_boundary < t as u16 {
                to_boundary
            } else {
                t as u16
            };
            (dot + step, step as u8)
        }
    }

    /// Advance the PPU by `n_cycles` T-cycles, updating LY, STAT and the interrupt requests.
    pub fn tick(&mut self, registers: &mut Registers, n_cycles: u8)
        requires
            old(self).wf(),
        ensures
            final(self).wf(),
            (*final(self), *final(registers)) == tick_spec(
                *old(self),
                *old(registers),
                n_cycles as nat,
            ),
    {
        // LCD off: frozen state
        if !registers.lcdc.lcd_ppu_enable {
            self.dot_counter = 0;
            registers.ly = 0;
            registers.stat.mode = StatMode::Hblank;
            return ;
        }
        let ghost p0 = *self;
        let ghost r0 = *registers;
        let mut dot = self.dot_counter;
        let mut t = n_cycles;
        while t != 0
            invariant
                dot < 456,
                t <= n_cycles,
                self.dot_counter == p0.dot_counter,
                (Ppu { dot_counter: dot, frame_ready: self.frame_ready }, *registers) == advance(
                    p0,
                    r0,
                    (n_cycles - t) as nat,
                ),
            decreases t,
        {
            let ghost s_ppu = Ppu { dot_counter: dot, frame_ready: self.frame_ready };
            let ghost s_regs = *registers;
            let (new_dot, step) = self.advance_chunk(registers, dot, t);
            proof {
                lemma_chunk(s_ppu, s_regs, step as int);
                lemma_advance_adds(p0, r0, (n_cycles - t) as nat, step as nat);
                assert((n_cycles - t) as nat + step as nat == (n_cycles - (t - step)) as nat);
            }
            dot = new_dot;
            t = t - step;
        }
        self.dot_counter = dot;
    }

    /// When a frame is ready, decode it from memory and hand it over as scaled RGBA for
    /// display; the frame is then no longer ready.
    pub fn draw_frame(&mut self, memory: &Memory) -> (r: Option<Vec<u8>>)
        ensures
            final(self).dot_counter == old(self).dot_counter,
            !final(self).frame_ready,
            old(self).frame_ready ==> r is Some && r.unwrap()@ == rgba_scaled(frame_spec(memory@)),
            !old(self).frame_ready ==> r is None,
    {
        if !self.frame_ready {
            return None;
        }
        let fb = memory.decode_framebuffer();
        let rgba = expand_gray_to_rgba_scaled(fb.as_slice());
        self.frame_ready = false;
        Some(rgba)
    }
}

} // verus!

verus! {

/// Whether STAT asks for the STAT interrupt on entering `mode`: bit 5 for OAM search, bit 4
/// for VBlank, bit 3 for HBlank; pixel transfer has no such interrupt.
pub open spec fn entry_interrupt_enabled(stat: Stat, mode: StatMode) -> bool {
    ||| mode == StatMode::OamSearch && stat.oam_ir_enable
    ||| mode == StatMode::Vblank && stat.v_blank_ir_enable
    ||| mode == StatMode::Hblank && stat.h_blank_ir_enable
}

/// A request keeps every IF bit that was set and sets its own.
proof fn lemma_request_keeps_bits(r: Registers, source: InterruptSource, k: nat)
    requires
        k < 8,
    ensures
        nth_bit(r.with_request(source).if_, source.bit()),
        nth_bit(r.if_, k) ==> nth_bit(r.with_request(source).if_, k),
{
    crate::registers::lemma_request(r, source);
    crate::util::lemma_set_bit(r.if_, source.bit(), k);
    reveal(Registers::with_request);
}

/// The coincidence update keeps every IF bit that was set.
proof fn lemma_coincidence_keeps_bits(r: Registers, k: nat)
    requires
        k < 8,
    ensures
        nth_bit(r.if_, k) ==> nth_bit(r.with_coincidence_updated().if_, k),
{
    reveal(Registers::with_coincidence_updated);
    crate::util::lemma_set_bit(r.if_, 1, k);
}

/// One T-cycle of the PPU never clears an IF bit.
proof fn lemma_advance_dot_keeps_bits(ppu: Ppu, regs: Registers, k: nat)
    requires
        k < 8,
    ensures
        nth_bit(regs.if_, k) ==> nth_bit(advance_dot(ppu, regs).1.if_, k),
{
    let (p1, r1) = if ppu.dot_counter + 1 == 456 {
        line_end(ppu, regs)
    } else {
        (Ppu { dot_counter: (ppu.dot_counter + 1) as u16, ..ppu }, regs)
    };
    if ppu.dot_counter + 1 == 456 {
        let ly1 = regs.ly + 1;
        let r0 = Registers { ly: (ly1 % 256) as u8, ..regs };
        let r2 = r0.with_coincidence_updated();
        lemma_coincidence_keeps_bits(r0, k);
        if ly1 == 144 {
            let r3 = Registers { stat: Stat { mode: StatMode::Vblank, ..r2.stat }, ..r2 };
            lemma_request_keeps_bits(r3, InterruptSource::VBlank, k);
            lemma_request_keeps_bits(r3.with_request(InterruptSource::VBlank), InterruptSource::Stat, k);
        } else if ly1 >= 154 {
            let r3 = Registers { ly: 0, stat: Stat { mode: StatMode::OamSearch, ..r2.stat }, ..r2 };
            lemma_coincidence_keeps_bits(r3, k);
        }
    }
    let m = mode_at(r1.ly, p1.dot_counter as int).0;
    lemma_request_keeps_bits(Registers { stat: Stat { mode: m, ..r1.stat }, ..r1 }, InterruptSource::Stat, k);
}

/// A run of T-cycles never clears an IF bit.
proof fn lemma_advance_keeps_bits(ppu: Ppu, regs: Registers, n: nat, k: nat)
    requires
        k < 8,
    ensures
        nth_bit(regs.if_, k) ==> nth_bit(advance(ppu, regs, n).1.if_, k),
    decreases n,
{
    if n > 0 {
        let (p1, r1) = advance_dot(ppu, regs);
        lemma_advance_dot_keeps_bits(ppu, regs, k);
        lemma_advance_keeps_bits(p1, r1, (n - 1) as nat, k);
    }
}

/// A T-cycle that moves STAT into OAM search, VBlank or HBlank while STAT enables that mode's
/// interrupt sets IF bit 1 (the STAT interrupt). The one exception is the wrap from line 153
/// to line 0, which starts OAM search without a request.
pub proof fn lemma_mode_entry_requests_stat(ppu: Ppu, regs: Registers)
    requires
        ppu.dot_counter < 456,
        advance_dot(ppu, regs).1.stat.mode != regs.stat.mode,
        entry_interrupt_enabled(regs.stat, advance_dot(ppu, regs).1.stat.mode),
        !(ppu.dot_counter == 455 && regs.ly >= 153),
    ensures
        nth_bit(advance_dot(ppu, regs).1.if_, 1),
{
    let (p1, r1) = if ppu.dot_counter + 1 == 456 {
        line_end(ppu, regs)
    } else {
        (Ppu { dot_counter: (ppu.dot_counter + 1) as u16, ..ppu }, regs)
    };
    let m = mode_at(r1.ly, p1.dot_counter as int).0;
    let entered = Registers { stat: Stat { mode: m, ..r1.stat }, ..r1 };
    lemma_request_keeps_bits(entered, InterruptSource::Stat, 1);
    if ppu.dot_counter + 1 == 456 {
        let ly1 = regs.ly + 1;
        let r0 = Registers { ly: (ly1 % 256) as u8, ..regs };
        let r2 = r0.with_coincidence_updated();
        if ly1 == 144 {
            let r3 = Registers { stat: Stat { mode: StatMode::Vblank, ..r2.stat }, ..r2 };
            lemma_request_keeps_bits(r3.with_request(InterruptSource::VBlank), InterruptSource::Stat, 1);
        }
    }
}

/// A tick during which some T-cycle moves STAT into OAM search, VBlank or HBlank while STAT
/// enables that mode's interrupt (the wrap from line 153 aside) ends with IF bit 1 set.
pub proof fn lemma_tick_mode_entry_requests_stat(ppu: Ppu, regs: Registers, n: nat, j: nat)
    requires
        regs.lcdc.lcd_ppu_enable,
        ppu.wf(),
        j < n,
        advance(ppu, regs, j).0.dot_counter < 456,
        advance_dot(advance(ppu, regs, j).0, advance(ppu, regs, j).1).1.stat.mode != advance(
            ppu,
            regs,
            j,
        ).1.stat.mode,
        entry_interrupt_enabled(
            advance(ppu, regs, j).1.stat,
            advance_dot(advance(ppu, regs, j).0, advance(ppu, regs, j).1).1.stat.mode,
        ),
        !(advance(ppu, regs, j).0.dot_counter == 455 && advance(ppu, regs, j).1.ly >= 153),
    ensures
        nth_bit(tick_spec(ppu, regs, n).1.if_, 1),
{
    let (pj, rj) = advance(ppu, regs, j);
    let (pk, rk) = advance_dot(pj, rj);
    lemma_mode_entry_requests_stat(pj, rj);
    lemma_advance_adds(ppu, regs, j, 1);
    assert(advance(pj, rj, 1) == (pk, rk)) by {
        assert(advance(pk, rk, 0) == (pk, rk));
    }
    lemma_advance_adds(ppu, regs, j + 1, (n - j - 1) as nat);
    assert(j + 1 + (n - j - 1) as nat == n);
    lemma_advance_keeps_bits(pk, rk, (n - j - 1) as nat, 1);
}

/// With the LCD on, a tick that starts at the last dot of a line 0-142 that is not in OAM
/// search, with the OAM interrupt enabled in STAT, requests the STAT interrupt as line ly + 1
/// starts in OAM search.
pub proof fn lemma_tick_into_oam_search_requests_stat(ppu: Ppu, regs: Registers, n: nat)
    requires
        regs.lcdc.lcd_ppu_enable,
        ppu.dot_counter == 455,
        regs.ly < 143,
        regs.stat.mode != StatMode::OamSearch,
        regs.stat.oam_ir_enable,
        n >= 1,
    ensures
        nth_bit(tick_spec(ppu, regs, n).1.if_, 1),
{
    assert(advance(ppu, regs, 0) == (ppu, regs));
    lemma_advance_dot_shows_mode(ppu, regs);
    let (p1, r1) = advance_dot(ppu, regs);
    assert(r1.ly == regs.ly + 1 && p1.dot_counter == 0) by {
        lemma_coincidence_touches_only_if_and_flag(Registers { ly: (regs.ly + 1) as u8, ..regs });
        lemma_update_mode(line_end(ppu, regs).1, StatMode::OamSearch);
    }
    lemma_tick_mode_entry_requests_stat(ppu, regs, n, 0);
}

} // verus!

verus! {

/// With the LCD on, after a tick of at least one T-cycle STAT shows OAM search on dots 0-79,
/// pixel transfer on dots 80-251 and HBlank on dots 252-455 of lines 0-143, and VBlank on
/// lines 144-153.
pub proof fn lemma_tick_mode_timing(ppu: Ppu, regs: Registers, n: nat)
    requires
        regs.lcdc.lcd_ppu_enable,
        n > 0,
    ensures
        ({
            let (p, r) = tick_spec(ppu, regs, n);
            r.stat.mode == if r.ly >= 144 {
                StatMode::Vblank
            } else if p.dot_counter < 80 {
                StatMode::OamSearch
            } else if p.dot_counter < 252 {
                StatMode::LcdTransfer
            } else {
                StatMode::Hblank
            }
        }),
{
    lemma_tick_shows_mode_of_dot(ppu, regs, n);
}

/// With the LCD off a tick holds the PPU at dot 0 of line 0 in HBlank and changes nothing else.
pub proof fn lemma_tick_lcd_off(ppu: Ppu, regs: Registers, n: nat)
    requires
        !regs.lcdc.lcd_ppu_enable,
    ensures
        tick_spec(ppu, regs, n).0 == (Ppu { dot_counter: 0, ..ppu }),
        tick_spec(ppu, regs, n).1 == (Registers {
            ly: 0,
            stat: Stat { mode: StatMode::Hblank, ..regs.stat },
            ..regs
        }),
{
}

/// A run of T-cycles keeps a ready frame ready.
proof fn lemma_advance_keeps_frame_ready(ppu: Ppu, regs: Registers, n: nat)
    requires
        ppu.frame_ready,
    ensures
        advance(ppu, regs, n).0.frame_ready,
    decreases n,
{
    if n > 0 {
        let (p1, r1) = advance_dot(ppu, regs);
        lemma_advance_keeps_frame_ready(p1, r1, (n - 1) as nat);
    }
}

/// With the LCD on, the T-cycle that ends line 143 starts line 144 in VBlank, requests the
/// VBlank interrupt (IF bit 0) and marks the frame ready; any longer tick from there keeps
/// the frame ready and the request.
pub proof fn lemma_tick_enters_vblank(ppu: Ppu, regs: Registers, n: nat)
    requires
        regs.lcdc.lcd_ppu_enable,
        ppu.dot_counter == 455,
        regs.ly == 143,
        n >= 1,
    ensures
        tick_spec(ppu, regs, 1).1.ly == 144,
        tick_spec(ppu, regs, 1).0.dot_counter == 0,
        tick_spec(ppu, regs, 1).1.stat.mode == StatMode::Vblank,
        tick_spec(ppu, regs, n).0.frame_ready,
        nth_bit(tick_spec(ppu, regs, n).1.if_, 0),
{
    let (p1, r1) = advance_dot(ppu, regs);
    assert(advance(ppu, regs, 1) == (p1, r1)) by {
        assert(advance(p1, r1, 0) == (p1, r1));
    }
    let r0 = Registers { ly: 144, ..regs };
    let r2 = r0.with_coincidence_updated();
    let r3 = Registers { stat: Stat { mode: StatMode::Vblank, ..r2.stat }, ..r2 };
    lemma_request_keeps_bits(r3, InterruptSource::VBlank, 0);
    lemma_request_keeps_bits(r3.with_request(InterruptSource::VBlank), InterruptSource::Stat, 0);
    let le = line_end(ppu, regs);
    lemma_request_keeps_bits(
        Registers { stat: Stat { mode: StatMode::Vblank, ..le.1.stat }, ..le.1 },
        InterruptSource::Stat,
        0,
    );
    assert(nth_bit(r1.if_, 0));
    assert(r1.ly == 144) by {
        lemma_update_mode(le.1, StatMode::Vblank);
    }
    lemma_advance_dot_shows_mode(ppu, regs);
    lemma_advance_adds(ppu, regs, 1, (n - 1) as nat);
    lemma_advance_keeps_frame_ready(p1, r1, (n - 1) as nat);
    lemma_advance_keeps_bits(p1, r1, (n - 1) as nat, 0);
}

} // verus!

verus! {

/// The frame handed out for display is 432 rows of 480 RGBA pixels: the pixel at (`row`,
/// `col`) shows source pixel (row / 3, col / 3) of the 160x144 frame as gray in its red,
/// green and blue bytes, and its alpha byte is 255.
pub proof fn lemma_rgba_pixel(gray: Seq<u8>, row: int, col: int, ch: int)
    requires
        0 <= row < 432,
        0 <= col < 480,
        0 <= ch < 4,
    ensures
        rgba_scaled(gray).len() == 432 * 480 * 4,
        rgba_scaled(gray)[(row * 480 + col) * 4 + ch] == if ch == 3 {
            255u8
        } else {
            gray[(row / 3) * 160 + col / 3]
        },
{
    let i = (row * 480 + col) * 4 + ch;
    assert(i == row * 1920 + (col * 4 + ch));
    lemma_fundamental_div_mod_converse(i, 1920, row, col * 4 + ch);
    lemma_fundamental_div_mod_converse(col * 4 + ch, 4, col, ch);
}

} // verus!
