//! The hardware registers mapped at $FF00-$FF26, $FF40-$FF4B and $FFFF.
use vstd::prelude::*;

use crate::interrupt::InterruptSource;
use crate::util::{
    bit_value, clear_nth_bit, is_nth_bit_set, nth_bit, set_nth_bit, with_bit_cleared, with_bit_set,
};

verus! {

pub const P1_REG: usize = 0xFF00;
pub const SB_REG: usize = 0xFF01;
pub const SC_REG: usize = 0xFF02;
pub const TMA_REG: usize = 0xFF06;
pub const TAC_REG: usize = 0xFF07;
pub const IF_REG: usize = 0xFF0F;
pub const NR_11_REG: usize = 0xFF11;
pub const NR_13_REG: usize = 0xFF13;
pub const NR_14_REG: usize = 0xFF14;
pub const NR_50_REG: usize = 0xFF24;
pub const NR_51_REG: usize = 0xFF25;
pub const NR_52_REG: usize = 0xFF26;
pub const LCDC_REG: usize = 0xFF40;
pub const STAT_REG: usize = 0xFF41;
pub const SCY_REG: usize = 0xFF42;
pub const SCX_REG: usize = 0xFF43;
pub const LY_REG: usize = 0xFF44;
pub const LYC_REG: usize = 0xFF45;
pub const BGP_REG: usize = 0xFF47;
pub const OBP0_REG: usize = 0xFF48;
pub const OBP1_REG: usize = 0xFF49;
pub const WY_REG: usize = 0xFF4A;
pub const WX_REG: usize = 0xFF4B;
pub const IE_REG: usize = 0xFFFF;

pub const VBLANK_IR_BIT: usize = 0;
pub const LCD_IR_BIT: usize = 1;
pub const TIMER_IR_BIT: usize = 2;
pub const SERIAL_IR_BIT: usize = 3;
pub const JOYPAD_IR_BIT: usize = 4;

/// This timer is incremented at the clock frequency specified by the TAC register ($FF07).
/// When the value overflows (exceeds $FF) it is reset to the value
/// specified in TMA (FF06) and an interrupt is requested.
#[derive(Debug, Clone, Copy)]
pub struct Tima {
    pub value: u32,
    pub pending_cycles: u32,
}

/// When TIMA overflows, it is reset to the value in this register and an interrupt is requested.
#[derive(Debug, Clone, Copy)]
pub struct Tma(pub u8);

/// The eight action/direction buttons arranged as a 2x4 matrix (register P1).
#[derive(Debug, Clone, Copy)]
pub struct Joypad {
    /// If this bit is 0, then buttons (SsBA) can be read from the lower nibble.
    pub select_buttons: bool,
    /// If this bit is 0, then directional keys can be read from the lower nibble.
    pub select_d_pad: bool,
    pub start_down: bool,
    pub select_up: bool,
    pub b_left: bool,
    pub a_right: bool,
}

impl Joypad {
    /// The joypad state that a write of `value` leaves: bits 0-5 of it.
    pub open spec fn decoded(value: u8) -> Joypad {
        Joypad {
            a_right: nth_bit(value, 0),
            b_left: nth_bit(value, 1),
            select_up: nth_bit(value, 2),
            start_down: nth_bit(value, 3),
            select_d_pad: nth_bit(value, 4),
            select_buttons: nth_bit(value, 5),
        }
    }

    /// The byte that a read of P1 gives.
    pub open spec fn encoded(self) -> u8 {
        (bit_value(self.a_right) + 2 * bit_value(self.b_left) + 4 * bit_value(self.select_up) + 8
            * bit_value(self.start_down) + 16 * bit_value(self.select_d_pad) + 32 * bit_value(
            self.select_buttons,
        )) as u8
    }

    fn get(&self) -> (r: u8)
        ensures
            r == self.encoded(),
    {
        let mut r: u8 = 0;
        if self.a_right {
            r = r + 1;
        }
        if self.b_left {
            r = r + 2;
        }
        if self.select_up {
            r = r + 4;
        }
        if self.start_down {
            r = r + 8;
        }
        if self.select_d_pad {
            r = r + 16;
        }
        if self.select_buttons {
            r = r + 32;
        }
        r
    }

    fn set(&mut self, value: u8)
        ensures
            *final(self) == Joypad::decoded(value),
    {
        self.a_right = is_nth_bit_set(value, 0);
        self.b_left = is_nth_bit_set(value, 1);
        self.select_up = is_nth_bit_set(value, 2);
        self.start_down = is_nth_bit_set(value, 3);
        self.select_d_pad = is_nth_bit_set(value, 4);
        self.select_buttons = is_nth_bit_set(value, 5);
    }
}

/// Reading P1 back gives the low six bits of what was written.
pub proof fn lemma_joypad_roundtrip(value: u8)
    ensures
        Joypad::decoded(value).encoded() == value & 0x3Fu8,
{
    let b0 = (value >> 0u8) & 1u8 == 1u8;
    let b1 = (value >> 1u8) & 1u8 == 1u8;
    let b2 = (value >> 2u8) & 1u8 == 1u8;
    let b3 = (value >> 3u8) & 1u8 == 1u8;
    let b4 = (value >> 4u8) & 1u8 == 1u8;
    let b5 = (value >> 5u8) & 1u8 == 1u8;
    let s: u8 = (value & 0x3Fu8);
    assert(s as int == (if b0 { 1int } else { 0 }) + (if b1 { 2int } else { 0 }) + (if b2 {
        4int
    } else {
        0
    }) + (if b3 { 8int } else { 0 }) + (if b4 { 16int } else { 0 }) + (if b5 {
        32int
    } else {
        0
    })) by (bit_vector)
        requires
            b0 == ((value >> 0u8) & 1u8 == 1u8),
            b1 == ((value >> 1u8) & 1u8 == 1u8),
            b2 == ((value >> 2u8) & 1u8 == 1u8),
            b3 == ((value >> 3u8) & 1u8 == 1u8),
            b4 == ((value >> 4u8) & 1u8 == 1u8),
            b5 == ((value >> 5u8) & 1u8 == 1u8),
            s == value & 0x3Fu8,
    ;
}

/// Clock source of the timer: how many cycles per TIMA increment and at what frequency.
#[derive(Debug, Clone, Copy)]
pub struct ClockSource {
    /// cycles
    pub increment_every: u32,
    /// Hz
    pub frequency: u32,
}

impl ClockSource {
    /// Clock    Increment every    Frequency (Hz)
    /// 00       256 M-cycles       4096
    /// 01       4 M-cycles         262144
    /// 10       16 M-cycles        65536
    /// 11       64 M-cycles        16384
    pub open spec fn for_select(select: u8) -> ClockSource {
        if select == 0 {
            ClockSource { increment_every: 256, frequency: 4096 }
        } else if select == 1 {
            ClockSource { increment_every: 4, frequency: 262144 }
        } else if select == 2 {
            ClockSource { increment_every: 16, frequency: 65536 }
        } else {
            ClockSource { increment_every: 64, frequency: 16384 }
        }
    }

    pub open spec fn initial() -> ClockSource {
        ClockSource { increment_every: 256, frequency: 4096 }
    }

    fn new() -> (r: ClockSource)
        ensures
            r == ClockSource::initial(),
    {
        ClockSource { increment_every: 256, frequency: 4096 }
    }
}

/// The TAC register.
#[derive(Debug, Clone, Copy)]
pub struct TimerControl {
    /// Controls whether TIMA is incremented.
    pub enable: bool,
    pub clock_select: ClockSource,
}

impl TimerControl {
    pub open spec fn decoded(value: u8) -> TimerControl {
        TimerControl {
            enable: nth_bit(value, 2),
            clock_select: ClockSource::for_select(value & 3u8),
        }
    }

    fn set(&mut self, value: u8)
        ensures
            *final(self) == TimerControl::decoded(value),
    {
        self.enable = is_nth_bit_set(value, 2);
        let clock_select = value & 0b_0000_0011;
        assert(clock_select <= 3) by (bit_vector)
            requires
                clock_select == value & 3u8,
        ;
        let (cycle, freq): (u32, u32) = if clock_select == 0 {
            (256, 4096)
        } else if clock_select == 1 {
            (4, 262144)
        } else if clock_select == 2 {
            (16, 65536)
        } else {
            (64, 16384)
        };
        self.clock_select = ClockSource { increment_every: cycle, frequency: freq };
    }
}

/// A shade of gray.
#[derive(Debug, Clone, Copy, PartialEq, Eq, Structural)]
pub enum Color {
    White,
    LightGray,
    DarkGray,
    Black,
}

impl Color {
    /// Value 0 White, 1 Light gray, 2 Dark gray, 3 Black; `hi` is the high bit of the value.
    pub open spec fn of_bits(hi: bool, lo: bool) -> Color {
        match (hi, lo) {
            (false, false) => Color::White,
            (false, true) => Color::LightGray,
            (true, false) => Color::DarkGray,
            (true, true) => Color::Black,
        }
    }

    fn from_bits(hi: bool, lo: bool) -> (r: Color)
        ensures
            r == Color::of_bits(hi, lo),
    {
        match (hi, lo) {
            (false, false) => Color::White,
            (false, true) => Color::LightGray,
            (true, false) => Color::DarkGray,
            (true, true) => Color::Black,
        }
    }
}

/// These registers assign gray shades to the color indexes of the OBJs that use the
/// corresponding palette. The lower two bits are ignored because color index 0 is transparent.
#[derive(Debug, Clone, Copy)]
pub struct ObPallet {
    pub id_1: Color,
    pub id_2: Color,
    pub id_3: Color,
}

impl ObPallet {
    pub open spec fn decoded(value: u8) -> ObPallet {
        ObPallet {
            id_1: Color::of_bits(nth_bit(value, 3), nth_bit(value, 2)),
            id_2: Color::of_bits(nth_bit(value, 5), nth_bit(value, 4)),
            id_3: Color::of_bits(nth_bit(value, 7), nth_bit(value, 6)),
        }
    }

    pub open spec fn initial() -> ObPallet {
        ObPallet { id_1: Color::White, id_2: Color::White, id_3: Color::White }
    }

    fn set(&mut self, value: u8)
        ensures
            *final(self) == ObPallet::decoded(value),
    {
        self.id_1 = Color::from_bits(is_nth_bit_set(value, 3), is_nth_bit_set(value, 2));
        self.id_2 = Color::from_bits(is_nth_bit_set(value, 5), is_nth_bit_set(value, 4));
        self.id_3 = Color::from_bits(is_nth_bit_set(value, 7), is_nth_bit_set(value, 6));
    }
}

/// OBJ size: 8x8 or 8x16.
#[derive(Debug, Clone, Copy, PartialEq, Eq, Structural)]
pub enum ObjSize {
    Size8x8,
    Size8x16,
}

/// The LCDC register.
#[derive(Debug, Clone, Copy)]
pub struct LcdControl {
    /// bit 7
    pub lcd_ppu_enable: bool,
    /// bit 6: window tile map area, 0 = 9800-9BFF; 1 = 9C00-9FFF
    pub window_tile_map_area: (u16, u16),
    /// bit 5
    pub window_enable: bool,
    /// bit 4: BG & Window tile data area, 0 = 8800-97FF; 1 = 8000-8FFF
    pub bg_window_data_area: bool,
    /// bit 3: BG tile map area, 0 = 9800-9BFF; 1 = 9C00-9FFF
    pub bg_tile_map_area: bool,
    /// bit 2: OBJ size, 0 = 8x8; 1 = 8x16
    pub obj_size: ObjSize,
    /// bit 1: sprites enabled
    pub obj_enable: bool,
    /// bit 0
    pub bg_window_priority_enabled: bool,
}

impl LcdControl {
    pub open spec fn decoded(value: u8) -> LcdControl {
        LcdControl {
            bg_window_priority_enabled: nth_bit(value, 0),
            obj_enable: nth_bit(value, 1),
            obj_size: if nth_bit(value, 2) {
                ObjSize::Size8x16
            } else {
                ObjSize::Size8x8
            },
            bg_tile_map_area: nth_bit(value, 3),
            bg_window_data_area: nth_bit(value, 4),
            window_enable: nth_bit(value, 5),
            window_tile_map_area: if nth_bit(value, 6) {
                (0x9C00u16, 0x9FFFu16)
            } else {
                (0x9800u16, 0x9BFFu16)
            },
            lcd_ppu_enable: nth_bit(value, 7),
        }
    }

    pub open spec fn initial() -> LcdControl {
        LcdControl {
            lcd_ppu_enable: false,
            window_tile_map_area: (0, 0),
            window_enable: false,
            bg_window_data_area: false,
            bg_tile_map_area: false,
            obj_size: ObjSize::Size8x8,
            obj_enable: false,
            bg_window_priority_enabled: false,
        }
    }

    fn set(&mut self, value: u8)
        ensures
            *final(self) == LcdControl::decoded(value),
    {
        self.bg_window_priority_enabled = is_nth_bit_set(value, 0);
        self.obj_enable = is_nth_bit_set(value, 1);
        self.obj_size = if is_nth_bit_set(value, 2) {
            ObjSize::Size8x16
        } else {
            ObjSize::Size8x8
        };
        self.bg_tile_map_area = is_nth_bit_set(value, 3);
        self.bg_window_data_area = is_nth_bit_set(value, 4);
        self.window_enable = is_nth_bit_set(value, 5);
        self.window_tile_map_area = if is_nth_bit_set(value, 6) {
            (0x9C00, 0x9FFF)
        } else {
            (0x9800, 0x9BFF)
        };
        self.lcd_ppu_enable = is_nth_bit_set(value, 7);
    }
}

impl Default for LcdControl {
    fn default() -> (r: LcdControl)
        ensures
            r == LcdControl::initial(),
    {
        LcdControl {
            lcd_ppu_enable: false,
            window_tile_map_area: (0, 0),
            window_enable: false,
            bg_window_data_area: false,
            bg_tile_map_area: false,
            obj_size: ObjSize::Size8x8,
            obj_enable: false,
            bg_window_priority_enabled: false,
        }
    }
}

/// The SC register.
#[derive(Debug, Clone, Copy)]
pub struct SerialControl {
    pub enable: bool,
    /// If set to 1, enable high speed serial clock (~256 kHz in single-speed mode)
    pub high_speed_clock: bool,
    /// 0 = External clock ("slave"), 1 = Internal clock ("master")
    pub clock_select: bool,
}

impl SerialControl {
    pub open spec fn decoded(value: u8) -> SerialControl {
        SerialControl {
            enable: nth_bit(value, 0),
            high_speed_clock: nth_bit(value, 1),
            clock_select: nth_bit(value, 2),
        }
    }

    fn set(&mut self, value: u8)
        ensures
            *final(self) == SerialControl::decoded(value),
    {
        self.enable = is_nth_bit_set(value, 0);
        self.high_speed_clock = is_nth_bit_set(value, 1);
        self.clock_select = is_nth_bit_set(value, 2);
    }
}

/// NR52: Audio master control
#[derive(Debug, Clone, Copy)]
pub struct Nr52 {
    pub audio_on: bool,
    pub ch4_on: bool,
    pub ch3_on: bool,
    pub ch2_on: bool,
    pub ch1_on: bool,
}

impl Nr52 {
    pub open spec fn decoded(value: u8) -> Nr52 {
        Nr52 {
            audio_on: nth_bit(value, 7),
            ch4_on: nth_bit(value, 3),
            ch3_on: nth_bit(value, 2),
            ch2_on: nth_bit(value, 1),
            ch1_on: nth_bit(value, 0),
        }
    }

    fn set(&mut self, value: u8)
        ensures
            *final(self) == Nr52::decoded(value),
    {
        self.audio_on = is_nth_bit_set(value, 7);
        self.ch4_on = is_nth_bit_set(value, 3);
        self.ch3_on = is_nth_bit_set(value, 2);
        self.ch2_on = is_nth_bit_set(value, 1);
        self.ch1_on = is_nth_bit_set(value, 0);
    }
}

/// Channel 1 length timer & duty cycle (not modelled: writes are accepted and ignored).
#[derive(Debug, Clone, Copy)]
pub struct Nr11 {}

impl Nr11 {
    fn set(&mut self, _value: u8)
        ensures
            *final(self) == *old(self),
    {
    }
}

/// This register selects which of the 4 sound channels (1-4) go to left and/or right outputs.
#[derive(Debug, Clone, Copy)]
pub struct Nr51 {
    pub ch4_right: bool,
    pub ch3_right: bool,
    pub ch2_right: bool,
    pub ch1_right: bool,
    pub ch4_left: bool,
    pub ch3_left: bool,
    pub ch2_left: bool,
    pub ch1_left: bool,
}

impl Nr51 {
    pub open spec fn decoded(value: u8) -> Nr51 {
        Nr51 {
            ch4_right: nth_bit(value, 7),
            ch3_right: nth_bit(value, 6),
            ch2_right: nth_bit(value, 5),
            ch1_right: nth_bit(value, 4),
            ch4_left: nth_bit(value, 3),
            ch3_left: nth_bit(value, 2),
            ch2_left: nth_bit(value, 1),
            ch1_left: nth_bit(value, 0),
        }
    }

    fn set(&mut self, value: u8)
        ensures
            *final(self) == Nr51::decoded(value),
    {
        self.ch4_right = is_nth_bit_set(value, 7);
        self.ch3_right = is_nth_bit_set(value, 6);
        self.ch2_right = is_nth_bit_set(value, 5);
        self.ch1_right = is_nth_bit_set(value, 4);
        self.ch4_left = is_nth_bit_set(value, 3);
        self.ch3_left = is_nth_bit_set(value, 2);
        self.ch2_left = is_nth_bit_set(value, 1);
        self.ch1_left = is_nth_bit_set(value, 0);
    }
}

/// A speaker output level, in range [0, 7].
#[derive(Debug, Clone, Copy)]
pub struct OutputLevel(pub u8);

impl OutputLevel {
    fn new(value: u8) -> (r: OutputLevel)
        requires
            value <= 7,
        ensures
            r == OutputLevel(value),
    {
        OutputLevel(value)
    }
}

/// Bit 7-4 - SO2 (Right speaker) output level (0-7)
/// Bit 3   - Vin to SO2
/// Bit 2-0 - SO1 (Left speaker) output level (0-7)
/// Bit 0   - Vin to SO1
#[derive(Debug, Clone, Copy)]
pub struct Nr50 {
    pub right_speaker: OutputLevel,
    pub right_vin: bool,
    pub left_speaker: OutputLevel,
    pub left_vin: bool,
}

impl Nr50 {
    /// Whether a write of `value` is in range: the right output level, bits 7-4, is at most 7.
    pub open spec fn accepts(value: u8) -> bool {
        (value >> 4u8) & 0x0Fu8 <= 7
    }

    pub open spec fn decoded(value: u8) -> Nr50 {
        Nr50 {
            right_speaker: OutputLevel((value >> 4u8) & 0x0Fu8),
            right_vin: nth_bit(value, 3),
            left_speaker: OutputLevel(value & 0x07u8),
            left_vin: nth_bit(value, 0),
        }
    }

    fn set(&mut self, value: u8)
        requires
            Nr50::accepts(value),
        ensures
            *final(self) == Nr50::decoded(value),
    {
        let right_speaker: u8 = (value >> 4) & 0x0F;
        self.right_speaker = OutputLevel::new(right_speaker);
        self.right_vin = is_nth_bit_set(value, 3);
        let left_speaker: u8 = value & 0x07;
        assert(left_speaker <= 7) by (bit_vector)
            requires
                left_speaker == value & 7u8,
        ;
        self.left_speaker = OutputLevel::new(left_speaker);
        self.left_vin = is_nth_bit_set(value, 0);
    }
}

/// Bit 6 - LYC=LY Coincidence Interrupt Enable
/// Bit 5 - Mode 2 (OAM) Interrupt Enable
/// Bit 4 - Mode 1 (V-Blank) Interrupt Enable
/// Bit 3 - Mode 0 (H-Blank) Interrupt Enable
/// Bit 2 - LYC=LY Flag (0=not equal, 1=equal)
/// Bit 1-0 - Mode Flag
#[derive(Debug, Clone, Copy)]
pub struct Stat {
    pub coincidence_ir_enable: bool,
    pub oam_ir_enable: bool,
    pub v_blank_ir_enable: bool,
    pub h_blank_ir_enable: bool,
    pub lyc_ly: bool,
    pub mode: StatMode,
}

impl Stat {
    /// A write to STAT sets the four interrupt enables, bits 3-6; the LYC=LY flag and the mode
    /// are read-only.
    pub open spec fn with_enables(self, value: u8) -> Stat {
        Stat {
            coincidence_ir_enable: nth_bit(value, 6),
            oam_ir_enable: nth_bit(value, 5),
            v_blank_ir_enable: nth_bit(value, 4),
            h_blank_ir_enable: nth_bit(value, 3),
            ..self
        }
    }

    pub open spec fn initial() -> Stat {
        Stat {
            coincidence_ir_enable: false,
            oam_ir_enable: false,
            v_blank_ir_enable: false,
            h_blank_ir_enable: false,
            lyc_ly: false,
            mode: StatMode::OamSearch,
        }
    }

    fn set(&mut self, value: u8)
        ensures
            *final(self) == old(self).with_enables(value),
    {
        self.coincidence_ir_enable = is_nth_bit_set(value, 6);
        self.oam_ir_enable = is_nth_bit_set(value, 5);
        self.v_blank_ir_enable = is_nth_bit_set(value, 4);
        self.h_blank_ir_enable = is_nth_bit_set(value, 3);
    }
}

impl Default for Stat {
    fn default() -> (r: Stat)
        ensures
            r == Stat::initial(),
    {
        Stat {
            coincidence_ir_enable: false,
            oam_ir_enable: false,
            v_blank_ir_enable: false,
            h_blank_ir_enable: false,
            lyc_ly: false,
            mode: StatMode::OamSearch,
        }
    }
}

/// The STAT mode bits are read-only: the PPU sets them depending on the scanline timing.
/// Emulators typically initialize LY = 0 and mode = 2 at boot.
#[derive(Debug, PartialEq, Eq, Copy, Clone, Structural)]
pub enum StatMode {
    Hblank,
    Vblank,
    OamSearch,
    LcdTransfer,
}

impl Default for StatMode {
    fn default() -> (r: StatMode)
        ensures
            r == StatMode::OamSearch,
    {
        StatMode::OamSearch
    }
}

/// Channel 1 frequency low (not modelled: writes are accepted and ignored).
#[derive(Debug, Clone, Copy)]
pub struct Nr13 {}

impl Nr13 {
    fn set(&mut self, _value: u8)
        ensures
            *final(self) == *old(self),
    {
    }
}

/// Channel 1 frequency high and control (not modelled: writes are accepted and ignored).
#[derive(Debug, Clone, Copy)]
pub struct Nr14 {}

impl Nr14 {
    fn set(&mut self, _value: u8)
        ensures
            *final(self) == *old(self),
    {
    }
}

/// The hardware registers.
#[derive(Debug, Clone, Copy)]
pub struct Registers {
    /// pending interrupts: vblank 0, lcd 1, timer 2, serial 3, joypad 4
    pub if_: u8,
    /// interrupt enable: vblank 0, lcd 1, timer 2, serial 3, joypad 4
    pub ie: u8,
    /// Top-left coordinates of the visible 160x144 area within the 256x256 BG map.
    pub scx: u8,
    pub scy: u8,
    pub sc: SerialControl,
    /// On-screen coordinates of the Window's top-left pixel.
    pub wy: u8,
    pub wx: u8,
    pub tima: Tima,
    pub tma: Tma,
    pub tac: TimerControl,
    /// Gray shades of the color indices of the BG and Window tiles.
    pub bgp: u8,
    pub ob_0: ObPallet,
    pub ob_1: ObPallet,
    pub lcdc: LcdControl,
    /// The current horizontal line, 0 to 153; 144 to 153 is the VBlank period.
    pub ly: u8,
    pub p1: Joypad,
    pub nr52: Nr52,
    pub nr11: Nr11,
    pub nr51: Nr51,
    pub nr50: Nr50,
    pub stat: Stat,
    pub nr13: Nr13,
    pub nr14: Nr14,
    pub lyc: u8,
}

/// Whether `address` is one of the hardware register addresses.
pub open spec fn is_register_address(address: int) -> bool {
    (0xFF00 <= address <= 0xFF26) || (0xFF40 <= address <= 0xFF4B) || address == 0xFFFF
}

impl Registers {
    /// The state at power-on.
    pub open spec fn initial() -> Registers {
        Registers {
            if_: 0,
            ie: 0,
            scx: 0,
            scy: 0,
            sc: SerialControl { enable: false, high_speed_clock: false, clock_select: false },
            wy: 0,
            wx: 0,
            tima: Tima { value: 0, pending_cycles: 0 },
            tma: Tma(0),
            tac: TimerControl { enable: false, clock_select: ClockSource::initial() },
            bgp: 0,
            ob_0: ObPallet::initial(),
            ob_1: ObPallet::initial(),
            lcdc: LcdControl::initial(),
            ly: 0,
            p1: Joypad {
                select_buttons: false,
                select_d_pad: false,
                start_down: false,
                select_up: false,
                b_left: false,
                a_right: false,
            },
            nr52: Nr52 { audio_on: false, ch4_on: false, ch3_on: false, ch2_on: false, ch1_on: false },
            nr11: Nr11 {  },
            nr51: Nr51 {
                ch4_right: false,
                ch3_right: false,
                ch2_right: false,
                ch1_right: false,
                ch4_left: false,
                ch3_left: false,
                ch2_left: false,
                ch1_left: false,
            },
            nr50: Nr50 {
                right_speaker: OutputLevel(0),
                right_vin: false,
                left_speaker: OutputLevel(0),
                left_vin: false,
            },
            stat: Stat::initial(),
            nr13: Nr13 {  },
            nr14: Nr14 {  },
            lyc: 0,
        }
    }

    /// The invariant of the timer: TIMA never holds more than a byte between updates, and the
    /// selected clock counts a positive number of cycles per increment.
    pub open spec fn wf(self) -> bool {
        &&& self.tima.value <= 0xFF
        &&& self.tac.clock_select.increment_every > 0
    }

    /// What a read of `address` gives; `None` where the read is not supported.
    pub open spec fn read_spec(self, address: int) -> Option<u8> {
        if address == IF_REG {
            Some(self.if_)
        } else if address == IE_REG {
            Some(self.ie)
        } else if address == LY_REG {
            Some(self.ly)
        } else if address == P1_REG {
            Some(self.p1.encoded())
        } else if address == SCX_REG {
            Some(self.scx)
        } else if address == SCY_REG {
            Some(self.scy)
        } else {
            None
        }
    }

    /// The registers after a write of `value` to `address`; `None` where the write is not
    /// supported (LY is read-only, NR50 only takes output levels up to 7).
    pub open spec fn write_spec(self, address: int, value: u8) -> Option<Registers> {
        if address == IF_REG {
            Some(Registers { if_: value, ..self })
        } else if address == IE_REG {
            Some(Registers { ie: value, ..self })
        } else if address == SB_REG {
            Some(self)
        } else if address == SC_REG {
            Some(Registers { sc: SerialControl::decoded(value), ..self })
        } else if address == WX_REG {
            Some(Registers { wx: value, ..self })
        } else if address == WY_REG {
            Some(Registers { wy: value, ..self })
        } else if address == TMA_REG {
            Some(Registers { tma: Tma(value), ..self })
        } else if address == TAC_REG {
            Some(Registers { tac: TimerControl::decoded(value), ..self })
        } else if address == BGP_REG {
            Some(Registers { bgp: value, ..self })
        } else if address == OBP0_REG {
            Some(Registers { ob_0: ObPallet::decoded(value), ..self })
        } else if address == OBP1_REG {
            Some(Registers { ob_1: ObPallet::decoded(value), ..self })
        } else if address == LCDC_REG {
            Some(Registers { lcdc: LcdControl::decoded(value), ..self })
        } else if address == P1_REG {
            Some(Registers { p1: Joypad::decoded(value), ..self })
        } else if address == NR_52_REG {
            Some(Registers { nr52: Nr52::decoded(value), ..self })
        } else if address == NR_11_REG {
            Some(self)
        } else if address == NR_51_REG {
            Some(Registers { nr51: Nr51::decoded(value), ..self })
        } else if address == NR_50_REG {
            if Nr50::accepts(value) {
                Some(Registers { nr50: Nr50::decoded(value), ..self })
            } else {
                None
            }
        } else if address == STAT_REG {
            Some(Registers { stat: self.stat.with_enables(value), ..self })
        } else if address == NR_13_REG {
            Some(self)
        } else if address == NR_14_REG {
            Some(self)
        } else if address == SCY_REG {
            Some(Registers { scy: value, ..self })
        } else if address == SCX_REG {
            Some(Registers { scx: value, ..self })
        } else if address == LYC_REG {
            Some(Registers { lyc: value, ..self })
        } else {
            None
        }
    }

    /// The interrupt that is served next: the lowest bit set in both IF and IE, among the
    /// five interrupt bits.
    pub open spec fn pending_interrupt(self) -> Option<InterruptSource> {
        let p = self.if_ & self.ie;
        if nth_bit(p, 0) {
            Some(InterruptSource::VBlank)
        } else if nth_bit(p, 1) {
            Some(InterruptSource::Stat)
        } else if nth_bit(p, 2) {
            Some(InterruptSource::Timer)
        } else if nth_bit(p, 3) {
            Some(InterruptSource::Serial)
        } else if nth_bit(p, 4) {
            Some(InterruptSource::Joypad)
        } else {
            None
        }
    }

    /// A request sets the interrupt's IF bit, whatever IE holds, and does nothing else.
    #[verifier::opaque]
    pub open spec fn with_request(self, source: InterruptSource) -> Registers {
        Registers { if_: with_bit_set(self.if_, source.bit()), ..self }
    }

    /// Acknowledging an interrupt clears its IF bit.
    pub open spec fn with_acknowledged(self, source: InterruptSource) -> Registers {
        Registers { if_: with_bit_cleared(self.if_, source.bit()), ..self }
    }

    /// The LYC=LY flag follows LY == LYC; when they are equal and the coincidence interrupt
    /// is enabled, the STAT bit of IF is set.
    #[verifier::opaque]
    pub open spec fn with_coincidence_updated(self) -> Registers {
        let coinc_now = self.ly == self.lyc;
        let r = Registers { stat: Stat { lyc_ly: coinc_now, ..self.stat }, ..self };
        if coinc_now && self.stat.coincidence_ir_enable {
            Registers { if_: with_bit_set(r.if_, 1), ..r }
        } else {
            r
        }
    }

    /// One increment of TIMA: on overflow past $FF it is reloaded from TMA and the timer
    /// interrupt is requested.
    pub open spec fn with_tima_ticked(self) -> Registers {
        let value = self.tima.value + 1;
        if value > 0xFF {
            Registers { tima: Tima { value: self.tma.0 as u32, ..self.tima }, ..self }.with_request(
                InterruptSource::Timer,
            )
        } else {
            Registers { tima: Tima { value: value as u32, ..self.tima }, ..self }
        }
    }

    /// The registers with `pending` cycles counted towards the next increment of TIMA.
    pub open spec fn with_pending_cycles(self, pending: u32) -> Registers {
        Registers { tima: Tima { pending_cycles: pending, ..self.tima }, ..self }
    }

    /// `k` increments of TIMA in a row.
    pub open spec fn with_tima_ticked_times(self, k: nat) -> Registers
        decreases k,
    {
        if k == 0 {
            self
        } else {
            self.with_tima_ticked().with_tima_ticked_times((k - 1) as nat)
        }
    }

    /// The registers after `n_cycles` cycles of the timer: when it is enabled, TIMA counts
    /// once for every whole period of the selected clock among the pending cycles and these
    /// cycles, and the remainder stays pending.
    pub open spec fn with_timer_advanced(self, n_cycles: u8) -> Registers {
        if !self.tac.enable {
            self
        } else {
            let total = self.tima.pending_cycles + n_cycles;
            let every = self.tac.clock_select.increment_every;
            self.with_pending_cycles((total % every as int) as u32).with_tima_ticked_times(
                (total / every as int) as nat,
            )
        }
    }

    /// Whether the timer can count `n_cycles` more cycles without overflowing its cycle counter.
    pub open spec fn timer_can_advance(self, n_cycles: u8) -> bool {
        self.tac.enable ==> self.tima.pending_cycles + n_cycles <= u32::MAX
    }

    /// The shade that the BG palette gives color index `idx`.
    pub open spec fn palette_shade(self, idx: u8) -> u8 {
        (self.bgp >> (idx * 2) as u8) & 3u8
    }

    pub fn matches(address: usize) -> (r: bool)
        ensures
            r == is_register_address(address as int),
    {
        (P1_REG <= address && address <= NR_52_REG) || (LCDC_REG <= address && address <= WX_REG)
            || address == IE_REG
    }

    /// If more than one of the requested interrupts is enabled, the one with the highest
    /// priority is served first. Bit 0 (VBlank) has the highest priority and bit 4 (Joypad)
    /// the lowest.
    pub fn get_pending_interrupt(&self) -> (r: Option<InterruptSource>)
        ensures
            r == self.pending_interrupt(),
    {
        let pending = self.if_ & self.ie;
        if pending == 0 {
            proof {
                assert(forall|n: u8| n < 8 ==> #[trigger] ((pending >> n) & 1u8) != 1u8)
                    by (bit_vector)
                    requires
                        pending == 0u8,
                ;
                assert((pending >> 0u8) & 1u8 != 1u8);
                assert((pending >> 1u8) & 1u8 != 1u8);
                assert((pending >> 2u8) & 1u8 != 1u8);
                assert((pending >> 3u8) & 1u8 != 1u8);
                assert((pending >> 4u8) & 1u8 != 1u8);
            }
            return None;
        }
        // isolate lowest set bit (VBlank first): x & -x
        let neg = 0u8.wrapping_sub(pending);
        let lsb = pending & neg;
        proof {
            let p = pending;
            let b0 = (p >> 0u8) & 1u8 == 1u8;
            let b1 = (p >> 1u8) & 1u8 == 1u8;
            let b2 = (p >> 2u8) & 1u8 == 1u8;
            let b3 = (p >> 3u8) & 1u8 == 1u8;
            let b4 = (p >> 4u8) & 1u8 == 1u8;
            assert(neg + p == 256);
            assert((lsb == 1u8) == b0 && (lsb == 2u8) == (!b0 && b1) && (lsb == 4u8) == (!b0 && !b1
                && b2) && (lsb == 8u8) == (!b0 && !b1 && !b2 && b3) && (lsb == 16u8) == (!b0 && !b1
                && !b2 && !b3 && b4)) by (bit_vector)
                requires
                    neg + p == 256,
                    lsb == p & neg,
                    b0 == ((p >> 0u8) & 1u8 == 1u8),
                    b1 == ((p >> 1u8) & 1u8 == 1u8),
                    b2 == ((p >> 2u8) & 1u8 == 1u8),
                    b3 == ((p >> 3u8) & 1u8 == 1u8),
                    b4 == ((p >> 4u8) & 1u8 == 1u8),
            ;
        }
        let src = if lsb == 0x01 {
            InterruptSource::VBlank
        } else if lsb == 0x02 {
            InterruptSource::Stat
        } else if lsb == 0x04 {
            InterruptSource::Timer
        } else if lsb == 0x08 {
            InterruptSource::Serial
        } else if lsb == 0x10 {
            InterruptSource::Joypad
        } else {
            return None;
        };
        Some(src)
    }

    /// This timer is incremented at the clock frequency specified by the TAC register.
    /// When the value overflows it is reset to the value specified in TMA and an interrupt is
    /// requested.
    pub fn inc_timer(&mut self, n_cycles: u8)
        requires
            old(self).wf(),
            old(self).timer_can_advance(n_cycles),
        ensures
            *final(self) == old(self).with_timer_advanced(n_cycles),
            final(self).wf(),
    {
        if !self.tac.enable {
            return ;
        }
        let ghost start = *self;
        let every = self.tac.clock_select.increment_every;
        let ghost total: int = self.tima.pending_cycles + n_cycles;
        let ghost rest: u32 = (total % every as int) as u32;
        self.tima.pending_cycles = self.tima.pending_cycles + n_cycles as u32;
        let ghost mut done: int = 0;
        while self.tima.pending_cycles >= every
            invariant
                every == self.tac.clock_select.increment_every,
                every > 0,
                self.tima.value <= 0xFF,
                self.tac == start.tac,
                total == start.tima.pending_cycles + n_cycles,
                rest == (total % every as int) as u32,
                0 <= done,
                self.tima.pending_cycles + done * every == total,
                self.with_pending_cycles(rest).with_tima_ticked_times(
                    (total / every as int - done) as nat,
                ) == start.with_timer_advanced(n_cycles),
            decreases self.tima.pending_cycles,
        {
            let ghost before = *self;
            assert(total / every as int >= done + 1) by (nonlinear_arith)
                requires
                    total - done * every >= every,
                    every > 0,
            ;
            self.tima.pending_cycles = self.tima.pending_cycles - every;
            self.tima.value = self.tima.value + 1;
            if self.tima.value > 0xFF {
                self.tima.value = self.tma.0 as u32;
                self.request_interrupt(&InterruptSource::Timer);
            }
            proof {
                reveal(Registers::with_request);
                let k = (total / every as int - done) as nat;
                assert(before.with_pending_cycles(rest).with_tima_ticked() == self.with_pending_cycles(
                    rest,
                ));
                assert(before.with_pending_cycles(rest).with_tima_ticked_times(k)
                    == before.with_pending_cycles(rest).with_tima_ticked().with_tima_ticked_times(
                    (k - 1) as nat,
                ));
                done = done + 1;
                assert(self.tima.pending_cycles + done * every == total) by (nonlinear_arith)
                    requires
                        self.tima.pending_cycles == before.tima.pending_cycles - every,
                        before.tima.pending_cycles + (done - 1) * every == total,
                ;
            }
        }
        proof {
            vstd::arithmetic::div_mod::lemma_fundamental_div_mod_converse(
                total,
                every as int,
                done,
                self.tima.pending_cycles as int,
            );
            assert(self.with_pending_cycles(rest) == *self);
        }
    }

    pub(crate) fn read(&self, address: usize) -> (r: u8)
        requires
            self.read_spec(address as int) is Some,
        ensures
            Some(r) == self.read_spec(address as int),
    {
        if address == IF_REG {
            self.if_
        } else if address == IE_REG {
            self.ie
        } else if address == LY_REG {
            self.ly
        } else if address == P1_REG {
            self.p1.get()
        } else if address == SCX_REG {
            self.scx
        } else {
            self.scy
        }
    }

    /// Whether a read of `address` is supported.
    pub(crate) fn can_read(address: usize) -> (r: bool)
        ensures
            r == (Registers::initial().read_spec(address as int) is Some),
    {
        address == IF_REG || address == IE_REG || address == LY_REG || address == P1_REG
            || address == SCX_REG || address == SCY_REG
    }

    /// Whether a write of `value` to `address` is supported.
    pub(crate) fn can_write(address: usize, value: u8) -> (r: bool)
        ensures
            r == (Registers::initial().write_spec(address as int, value) is Some),
    {
        if address == NR_50_REG {
            (value >> 4) & 0x0F <= 7
        } else {
            address == IF_REG || address == IE_REG || address == SB_REG || address == SC_REG
                || address == WX_REG || address == WY_REG || address == TMA_REG || address
                == TAC_REG || address == BGP_REG || address == OBP0_REG || address == OBP1_REG
                || address == LCDC_REG || address == P1_REG || address == NR_52_REG || address
                == NR_11_REG || address == NR_51_REG || address == STAT_REG || address
                == NR_13_REG || address == NR_14_REG || address == SCY_REG || address == SCX_REG
                || address == LYC_REG
        }
    }

    pub(crate) fn write(&mut self, address: usize, value: u8)
        requires
            old(self).write_spec(address as int, value) is Some,
        ensures
            Some(*final(self)) == old(self).write_spec(address as int, value),
    {
        if address == IF_REG {
            self.if_ = value;
        } else if address == IE_REG {
            self.ie = value;
        } else if address == SB_REG {
            // serial send: nothing is modelled
        } else if address == SC_REG {
            self.sc.set(value);
        } else if address == WX_REG {
            self.wx = value;
        } else if address == WY_REG {
            self.wy = value;
        } else if address == TMA_REG {
            self.tma.0 = value;
        } else if address == TAC_REG {
            self.tac.set(value);
        } else if address == BGP_REG {
            self.bgp = value;
        } else if address == OBP0_REG {
            self.ob_0.set(value);
        } else if address == OBP1_REG {
            self.ob_1.set(value);
        } else if address == LCDC_REG {
            self.lcdc.set(value);
        } else if address == P1_REG {
            self.p1.set(value);
        } else if address == NR_52_REG {
            self.nr52.set(value);
        } else if address == NR_11_REG {
            self.nr11.set(value);
        } else if address == NR_51_REG {
            self.nr51.set(value);
        } else if address == NR_50_REG {
            self.nr50.set(value);
        } else if address == STAT_REG {
            self.stat.set(value);
        } else if address == NR_13_REG {
            self.nr13.set(value);
        } else if address == NR_14_REG {
            self.nr14.set(value);
        } else if address == SCY_REG {
            self.scy = value;
        } else if address == SCX_REG {
            self.scx = value;
        } else {
            self.lyc = value;
        }
    }

    pub fn request_interrupt(&mut self, interrupt_source: &InterruptSource)
        ensures
            *final(self) == old(self).with_request(*interrupt_source),
    {
        proof {
            reveal(Registers::with_request);
        }
        let bit_idx = match interrupt_source {
            InterruptSource::VBlank => VBLANK_IR_BIT,
            InterruptSource::Stat => LCD_IR_BIT,
            InterruptSource::Timer => TIMER_IR_BIT,
            InterruptSource::Serial => SERIAL_IR_BIT,
            InterruptSource::Joypad => JOYPAD_IR_BIT,
        };
        self.if_ = set_nth_bit(self.if_, bit_idx);
    }

    pub fn update_stat_coincidence(&mut self)
        ensures
            *final(self) == old(self).with_coincidence_updated(),
    {
        proof {
            reveal(Registers::with_coincidence_updated);
        }
        let coinc_now = self.ly == self.lyc;
        self.stat.lyc_ly = coinc_now;
        if coinc_now && self.stat.coincidence_ir_enable {
            self.if_ = set_nth_bit(self.if_, LCD_IR_BIT);
        }
    }

    /// Acknowledging an interrupt resets its IF bit.
    pub fn acknowledge_interrupt(&mut self, interrupt: &InterruptSource)
        ensures
            *final(self) == old(self).with_acknowledged(*interrupt),
    {
        let bit_idx = match interrupt {
            InterruptSource::VBlank => VBLANK_IR_BIT,
            InterruptSource::Stat => LCD_IR_BIT,
            InterruptSource::Timer => TIMER_IR_BIT,
            InterruptSource::Serial => SERIAL_IR_BIT,
            InterruptSource::Joypad => JOYPAD_IR_BIT,
        };
        self.if_ = clear_nth_bit(self.if_, bit_idx);
    }

    pub fn map_palette_dmg(&self, idx: u8) -> (r: u8)
        requires
            idx < 4,
        ensures
            r == self.palette_shade(idx),
    {
        (self.bgp >> (idx * 2)) & 0b11
    }
}

/// The interrupt served next is one that is both requested and enabled, and no interrupt of
/// higher priority (lower bit) is; when none is reported, none of the five is both requested
/// and enabled.
pub proof fn lemma_pending_is_highest_priority(r: Registers)
    ensures
        r.pending_interrupt() matches Some(s) ==> nth_bit(r.if_ & r.ie, s.bit()) && forall|k: nat|
            k < s.bit() ==> !#[trigger] nth_bit(r.if_ & r.ie, k),
        r.pending_interrupt() is None ==> forall|k: nat| k < 5 ==> !#[trigger] nth_bit(r.if_ & r.ie, k),
{
}

/// Acknowledging an interrupt clears its IF bit and leaves the other IF bits as they were.
pub proof fn lemma_acknowledge_clears_its_bit(r: Registers, source: InterruptSource, k: nat)
    requires
        k < 8,
    ensures
        !nth_bit(r.with_acknowledged(source).if_, source.bit()),
        k != source.bit() ==> nth_bit(r.with_acknowledged(source).if_, k) == nth_bit(r.if_, k),
{
    crate::util::lemma_clear_bit(r.if_, source.bit(), k);
}

/// An acknowledged interrupt is no longer the one served next.
pub proof fn lemma_acknowledged_not_pending(r: Registers, source: InterruptSource)
    ensures
        r.with_acknowledged(source).pending_interrupt() != Some(source),
{
    let a = r.with_acknowledged(source);
    crate::util::lemma_clear_bit(r.if_, source.bit(), source.bit());
    let b = source.bit() as u8;
    let x = a.if_;
    let y = r.ie;
    assert(((x >> b) & 1u8 != 1u8) ==> (((x & y) >> b) & 1u8 != 1u8)) by (bit_vector);
}

/// A request sets the interrupt's IF bit whatever IE holds. When the interrupt is enabled,
/// some interrupt is then served; when it is not, IE masks the new bit and the interrupt
/// served next is the same as before.
pub proof fn lemma_request(r: Registers, source: InterruptSource)
    ensures
        nth_bit(r.with_request(source).if_, source.bit()),
        r.with_request(source).ie == r.ie,
        nth_bit(r.ie, source.bit()) ==> r.with_request(source).pending_interrupt() is Some,
        !nth_bit(r.ie, source.bit()) ==> r.with_request(source).pending_interrupt()
            == r.pending_interrupt(),
{
    reveal(Registers::with_request);
    crate::util::lemma_set_bit(r.if_, source.bit(), source.bit());
    let b = source.bit() as u8;
    let x0 = r.if_;
    let x = r.with_request(source).if_;
    let y = r.ie;
    assert(x == x0 | (1u8 << b));
    if nth_bit(r.ie, source.bit()) {
        assert((((x >> b) & 1u8 == 1u8) && ((y >> b) & 1u8 == 1u8)) ==> (((x & y) >> b) & 1u8
            == 1u8)) by (bit_vector);
    } else {
        assert(((y >> b) & 1u8 != 1u8 && b < 8) ==> ((x0 | (1u8 << b)) & y) == x0 & y)
            by (bit_vector);
    }
}

/// Increments of TIMA keep the pending cycles, TAC and TMA.
proof fn lemma_ticks_keep_timer_setup(r: Registers, k: nat)
    ensures
        r.with_tima_ticked_times(k).tima.pending_cycles == r.tima.pending_cycles,
        r.with_tima_ticked_times(k).tac == r.tac,
        r.with_tima_ticked_times(k).tma == r.tma,
    decreases k,
{
    reveal(Registers::with_request);
    if k > 0 {
        lemma_ticks_keep_timer_setup(r.with_tima_ticked(), (k - 1) as nat);
    }
}

/// An increment of TIMA does not depend on the pending cycles.
proof fn lemma_tick_ignores_pending(r: Registers, pending: u32)
    ensures
        r.with_tima_ticked().with_pending_cycles(pending) == r.with_pending_cycles(
            pending,
        ).with_tima_ticked(),
{
    let value = r.tima.value + 1;
    if value > 0xFF {
        let base = Registers { tima: Tima { value: r.tma.0 as u32, ..r.tima }, ..r };
        let moved = Registers { tima: Tima { value: r.tma.0 as u32, pending_cycles: pending }, ..r };
        assert(base.with_pending_cycles(pending) == moved);
        assert(r.with_pending_cycles(pending).with_tima_ticked() == moved.with_request(
            InterruptSource::Timer,
        ));
        assert(base.with_request(InterruptSource::Timer).with_pending_cycles(pending)
            == moved.with_request(InterruptSource::Timer)) by {
            reveal(Registers::with_request);
        }
    }
}

/// Increments of TIMA do not depend on the pending cycles.
proof fn lemma_ticks_ignore_pending(r: Registers, k: nat, pending: u32)
    ensures
        r.with_tima_ticked_times(k).with_pending_cycles(pending) == r.with_pending_cycles(
            pending,
        ).with_tima_ticked_times(k),
    decreases k,
{
    if k > 0 {
        lemma_tick_ignores_pending(r, pending);
        lemma_ticks_ignore_pending(r.with_tima_ticked(), (k - 1) as nat, pending);
    }
}

/// `a` increments of TIMA followed by `b` more are `a + b` increments.
proof fn lemma_ticks_add(r: Registers, a: nat, b: nat)
    ensures
        r.with_tima_ticked_times(a).with_tima_ticked_times(b) == r.with_tima_ticked_times(a + b),
    decreases a,
{
    if a > 0 {
        lemma_ticks_add(r.with_tima_ticked(), (a - 1) as nat, b);
        assert((a - 1) as nat + b == (a + b - 1) as nat);
    }
}

/// Advancing the timer by `n1` cycles and then by `n2` is advancing it by `n1 + n2`: every
/// whole period of the selected clock counts, however the cycles are split between calls.
pub proof fn lemma_timer_advance_composes(r: Registers, n1: u8, n2: u8)
    requires
        r.wf(),
        n1 + n2 <= 255,
    ensures
        r.with_timer_advanced(n1).with_timer_advanced(n2) == r.with_timer_advanced(
            (n1 + n2) as u8,
        ),
{
    if r.tac.enable {
        let e = r.tac.clock_select.increment_every as int;
        let t1 = r.tima.pending_cycles + n1;
        let q1 = t1 / e;
        let p1 = (t1 % e) as u32;
        let a = r.with_pending_cycles(p1).with_tima_ticked_times(q1 as nat);
        lemma_ticks_keep_timer_setup(r.with_pending_cycles(p1), q1 as nat);
        let t2 = p1 + n2;
        let q2 = t2 / e;
        let p2 = (t2 % e) as u32;
        assert(a.with_timer_advanced(n2) == a.with_pending_cycles(p2).with_tima_ticked_times(
            q2 as nat,
        ));
        lemma_ticks_ignore_pending(r.with_pending_cycles(p1), q1 as nat, p2);
        assert(r.with_pending_cycles(p1).with_pending_cycles(p2) == r.with_pending_cycles(p2));
        lemma_ticks_add(r.with_pending_cycles(p2), q1 as nat, q2 as nat);
        vstd::arithmetic::div_mod::lemma_fundamental_div_mod(t1, e);
        vstd::arithmetic::div_mod::lemma_fundamental_div_mod(t2, e);
        vstd::arithmetic::div_mod::lemma_mod_bound(t1, e);
        vstd::arithmetic::div_mod::lemma_mod_bound(t2, e);
        vstd::arithmetic::div_mod::lemma_div_pos_is_pos(t1, e);
        vstd::arithmetic::div_mod::lemma_div_pos_is_pos(t2, e);
        assert(t1 + n2 == (q1 + q2) * e + t2 % e) by (nonlinear_arith)
            requires
                t1 == e * q1 + t1 % e,
                t2 == e * q2 + t2 % e,
                t2 == t1 % e + n2,
        ;
        vstd::arithmetic::div_mod::lemma_fundamental_div_mod_converse(t1 + n2, e, q1 + q2, t2 % e);
        assert(r.tima.pending_cycles + ((n1 + n2) as u8) == t1 + n2);
    }
}

/// A write to TAC ($FF07): bit 2 enables the timer and bits 0-1 select its clock, TIMA
/// counting once every 256, 4, 16 or 64 cycles (4096, 262144, 65536 or 16384 Hz) for select
/// 0, 1, 2 or 3; every clock counts cycles of the same 1048576 Hz. Nothing else changes.
pub proof fn lemma_tac_write(r: Registers, v: u8)
    ensures
        r.write_spec(0xFF07, v) is Some,
        ({
            let t = r.write_spec(0xFF07, v).unwrap().tac;
            let every = t.clock_select.increment_every;
            let hz = t.clock_select.frequency;
            &&& r.write_spec(0xFF07, v).unwrap() == Registers { tac: t, ..r }
            &&& t.enable == (v & 4u8 != 0u8)
            &&& (v & 3u8 == 0u8 ==> every == 256 && hz == 4096)
            &&& (v & 3u8 == 1u8 ==> every == 4 && hz == 262144)
            &&& (v & 3u8 == 2u8 ==> every == 16 && hz == 65536)
            &&& (v & 3u8 == 3u8 ==> every == 64 && hz == 16384)
            &&& every * hz == 1048576
        }),
{
    assert(
        (((v >> 2u8) & 1u8 == 1u8) == (v & 4u8 != 0u8))
        && (v & 3u8 <= 3u8)
    ) by (bit_vector);
}

/// A write to LCDC ($FF40) sets each control from its bit: 7 LCD on, 6 window map at 0x9C00
/// (else 0x9800), 5 window on, 4 unsigned tile data at 0x8000, 3 BG map at 0x9C00 (else
/// 0x9800), 2 sprites 8x16 (else 8x8), 1 sprites on, 0 BG and window on. Nothing else changes.
pub proof fn lemma_lcdc_write(r: Registers, v: u8)
    ensures
        r.write_spec(0xFF40, v) is Some,
        ({
            let l = r.write_spec(0xFF40, v).unwrap().lcdc;
            &&& r.write_spec(0xFF40, v).unwrap() == Registers { lcdc: l, ..r }
            &&& l.lcd_ppu_enable == (v & 0x80u8 != 0u8)
            &&& l.window_tile_map_area.0 == (if v & 0x40u8 != 0u8 {
                0x9C00u16
            } else {
                0x9800u16
            })
            &&& l.window_enable == (v & 0x20u8 != 0u8)
            &&& l.bg_window_data_area == (v & 0x10u8 != 0u8)
            &&& l.bg_tile_map_area == (v & 0x08u8 != 0u8)
            &&& (l.obj_size == ObjSize::Size8x16) == (v & 0x04u8 != 0u8)
            &&& l.obj_enable == (v & 0x02u8 != 0u8)
            &&& l.bg_window_priority_enabled == (v & 0x01u8 != 0u8)
        }),
{
    assert(
        (((v >> 7u8) & 1u8 == 1u8) == (v & 0x80u8 != 0u8))
        && (((v >> 6u8) & 1u8 == 1u8) == (v & 0x40u8 != 0u8))
        && (((v >> 5u8) & 1u8 == 1u8) == (v & 0x20u8 != 0u8))
        && (((v >> 4u8) & 1u8 == 1u8) == (v & 0x10u8 != 0u8))
        && (((v >> 3u8) & 1u8 == 1u8) == (v & 0x08u8 != 0u8))
        && (((v >> 2u8) & 1u8 == 1u8) == (v & 0x04u8 != 0u8))
        && (((v >> 1u8) & 1u8 == 1u8) == (v & 0x02u8 != 0u8))
        && (((v >> 0u8) & 1u8 == 1u8) == (v & 0x01u8 != 0u8))
    ) by (bit_vector);
}

/// A write to STAT ($FF41) sets the interrupt enables from bits 6 (LYC=LY), 5 (OAM search),
/// 4 (VBlank) and 3 (HBlank); the mode and the LYC=LY flag stay, and nothing else changes.
pub proof fn lemma_stat_write(r: Registers, v: u8)
    ensures
        r.write_spec(0xFF41, v) is Some,
        ({
            let st = r.write_spec(0xFF41, v).unwrap().stat;
            &&& r.write_spec(0xFF41, v).unwrap() == Registers { stat: st, ..r }
            &&& st.coincidence_ir_enable == (v & 0x40u8 != 0u8)
            &&& st.oam_ir_enable == (v & 0x20u8 != 0u8)
            &&& st.v_blank_ir_enable == (v & 0x10u8 != 0u8)
            &&& st.h_blank_ir_enable == (v & 0x08u8 != 0u8)
            &&& st.mode == r.stat.mode
            &&& st.lyc_ly == r.stat.lyc_ly
        }),
{
    assert(
        (((v >> 6u8) & 1u8 == 1u8) == (v & 0x40u8 != 0u8))
        && (((v >> 5u8) & 1u8 == 1u8) == (v & 0x20u8 != 0u8))
        && (((v >> 4u8) & 1u8 == 1u8) == (v & 0x10u8 != 0u8))
        && (((v >> 3u8) & 1u8 == 1u8) == (v & 0x08u8 != 0u8))
    ) by (bit_vector);
}

/// Increments of TIMA that do not pass $FF add to TIMA and change nothing else.
proof fn lemma_ticks_without_overflow(r: Registers, k: nat)
    requires
        r.tima.value + k <= 0xFF,
    ensures
        r.with_tima_ticked_times(k) == (Registers {
            tima: Tima { value: (r.tima.value + k) as u32, ..r.tima },
            ..r
        }),
    decreases k,
{
    if k > 0 {
        lemma_ticks_without_overflow(r.with_tima_ticked(), (k - 1) as nat);
    }
}

/// Increments of TIMA never clear an IF bit, and one that passes $FF sets the timer's bit 2.
proof fn lemma_ticks_overflow_requests(r: Registers, k: nat)
    requires
        r.tima.value <= 0xFF,
        r.tima.value + k > 0xFF,
    ensures
        nth_bit(r.with_tima_ticked_times(k).if_, 2),
    decreases k,
{
    reveal(Registers::with_request);
    let r1 = r.with_tima_ticked();
    if r.tima.value == 0xFF {
        crate::util::lemma_set_bit(r.if_, 2, 2);
        lemma_ticks_keep_bit(r1, (k - 1) as nat, 2);
    } else {
        lemma_ticks_overflow_requests(r1, (k - 1) as nat);
    }
}

/// Increments of TIMA never clear an IF bit.
proof fn lemma_ticks_keep_bit(r: Registers, k: nat, b: nat)
    requires
        b < 8,
        nth_bit(r.if_, b),
    ensures
        nth_bit(r.with_tima_ticked_times(k).if_, b),
    decreases k,
{
    reveal(Registers::with_request);
    if k > 0 {
        crate::util::lemma_set_bit(r.if_, 2, b);
        lemma_ticks_keep_bit(r.with_tima_ticked(), (k - 1) as nat, b);
    }
}

/// With the timer on, `n` more cycles make TIMA count once per whole period of the selected
/// clock among the pending cycles and the new ones, the remainder staying pending: while that
/// count does not take TIMA past $FF, nothing but TIMA and the pending cycles changes; when it
/// does, the timer interrupt is requested (IF bit 2).
pub proof fn lemma_timer_counts_whole_periods(r: Registers, n: u8)
    requires
        r.wf(),
        r.tac.enable,
    ensures
        ({
            let every = r.tac.clock_select.increment_every as int;
            let total = r.tima.pending_cycles + n;
            let r2 = r.with_timer_advanced(n);
            &&& r2.tima.pending_cycles == total % every
            &&& r.tima.value + total / every <= 0xFF ==> r2 == (Registers {
                tima: Tima {
                    value: (r.tima.value + total / every) as u32,
                    pending_cycles: (total % every) as u32,
                },
                ..r
            })
            &&& r.tima.value + total / every > 0xFF ==> nth_bit(r2.if_, 2)
        }),
{
    let every = r.tac.clock_select.increment_every as int;
    let total = r.tima.pending_cycles + n;
    let start = r.with_pending_cycles((total % every) as u32);
    vstd::arithmetic::div_mod::lemma_mod_bound(total, every);
    vstd::arithmetic::div_mod::lemma_div_pos_is_pos(total, every);
    lemma_ticks_keep_timer_setup(start, (total / every) as nat);
    if r.tima.value + total / every <= 0xFF {
        lemma_ticks_without_overflow(start, (total / every) as nat);
    } else {
        lemma_ticks_overflow_requests(start, (total / every) as nat);
    }
}

/// A supported register write keeps the timer's invariant.
pub proof fn lemma_write_keeps_wf(r: Registers, address: int, value: u8)
    requires
        r.wf(),
        r.write_spec(address, value) is Some,
    ensures
        r.write_spec(address, value).unwrap().wf(),
{
}

/// Whether a register read or write is supported depends on the address and the value only.
pub proof fn lemma_register_access_is_stateless(r: Registers, address: int, value: u8)
    ensures
        (r.read_spec(address) is Some) == (Registers::initial().read_spec(address) is Some),
        (r.write_spec(address, value) is Some) == (Registers::initial().write_spec(
            address,
            value,
        ) is Some),
{
}

/// A request only touches IF.
pub broadcast proof fn lemma_request_touches_only_if(r: Registers, source: InterruptSource)
    ensures
        #[trigger] r.with_request(source) == (Registers { if_: r.with_request(source).if_, ..r }),
{
    reveal(Registers::with_request);
}

/// The coincidence update only touches IF and the LYC=LY flag of STAT.
pub broadcast proof fn lemma_coincidence_touches_only_if_and_flag(r: Registers)
    ensures
        #[trigger] r.with_coincidence_updated() == (Registers {
            if_: r.with_coincidence_updated().if_,
            stat: Stat { lyc_ly: r.ly == r.lyc, ..r.stat },
            ..r
        }),
{
    reveal(Registers::with_coincidence_updated);
}

impl Default for Registers {
    fn default() -> (r: Registers)
        ensures
            r == Registers::initial(),
    {
        Registers {
            if_: 0,
            ie: 0,
            scx: 0,
            scy: 0,
            sc: SerialControl { enable: false, high_speed_clock: false, clock_select: false },
            wy: 0,
            wx: 0,
            tima: Tima { value: 0, pending_cycles: 0 },
            tma: Tma(0),
            tac: TimerControl { enable: false, clock_select: ClockSource::new() },
            bgp: 0,
            ob_0: ObPallet { id_1: Color::White, id_2: Color::White, id_3: Color::White },
            ob_1: ObPallet { id_1: Color::White, id_2: Color::White, id_3: Color::White },
            lcdc: LcdControl::default(),
            ly: 0,
            p1: Joypad {
                select_buttons: false,
                select_d_pad: false,
                start_down: false,
                select_up: false,
                b_left: false,
                a_right: false,
            },
            nr52: Nr52 { audio_on: false, ch4_on: false, ch3_on: false, ch2_on: false, ch1_on: false },
            nr11: Nr11 {  },
            nr51: Nr51 {
                ch4_right: false,
                ch3_right: false,
                ch2_right: false,
                ch1_right: false,
                ch4_left: false,
                ch3_left: false,
                ch2_left: false,
                ch1_left: false,
            },
            nr50: Nr50 {
                right_speaker: OutputLevel(0),
                right_vin: false,
                left_speaker: OutputLevel(0),
                left_vin: false,
            },
            stat: Stat::default(),
            nr13: Nr13 {  },
            nr14: Nr14 {  },
            lyc: 0,
        }
    }
}

} // verus!

verus! {

/// The coincidence update sets the LYC=LY flag exactly when LY equals LYC and, when they are
/// equal and STAT enables the coincidence interrupt, sets IF bit 1; every IF bit that was set
/// stays set, and IF gains no other bit.
pub proof fn lemma_coincidence_update(r: Registers, k: nat)
    requires
        k < 8,
    ensures
        r.with_coincidence_updated().stat.lyc_ly == (r.ly == r.lyc),
        (r.ly == r.lyc && r.stat.coincidence_ir_enable) ==> nth_bit(r.with_coincidence_updated().if_, 1),
        k != 1 ==> nth_bit(r.with_coincidence_updated().if_, k) == nth_bit(r.if_, k),
        !(r.ly == r.lyc && r.stat.coincidence_ir_enable) ==> r.with_coincidence_updated().if_ == r.if_,
{
    reveal(Registers::with_coincidence_updated);
    crate::util::lemma_set_bit(r.if_, 1, k);
    crate::util::lemma_set_bit(r.if_, 1, 1);
}

/// The BG palette gives color index `idx` the shade in its bits 2 idx and 2 idx + 1.
pub proof fn lemma_palette_shade(r: Registers, idx: u8)
    requires
        idx < 4,
    ensures
        r.palette_shade(idx) == (r.bgp / (if idx == 0 {
            1u8
        } else if idx == 1 {
            4u8
        } else if idx == 2 {
            16u8
        } else {
            64u8
        })) % 4,
{
    let b = r.bgp;
    assert(
        ((b >> 0u8) & 3u8 == (b / 1) % 4)
        && ((b >> 2u8) & 3u8 == (b / 4) % 4)
        && ((b >> 4u8) & 3u8 == (b / 16) % 4)
        && ((b >> 6u8) & 3u8 == (b / 64) % 4)
    ) by (bit_vector);
}

} // verus!

verus! {

/// When TIMA passes $FF once among `k` increments, it restarts from TMA: it ends at TMA plus
/// the increments after the overflow, with the timer interrupt requested.
proof fn lemma_ticks_one_overflow(r: Registers, k: nat)
    requires
        r.tima.value <= 0xFF,
        r.tima.value + k > 0xFF,
        r.tima.value + k - 256 + r.tma.0 <= 0xFF,
    ensures
        r.with_tima_ticked_times(k).tima.value == r.tma.0 + (r.tima.value + k - 256),
{
    let before = (0xFF - r.tima.value) as nat;
    lemma_ticks_without_overflow(r, before);
    let s = r.with_tima_ticked_times(before);
    assert(s.tima.value == 0xFF);
    lemma_ticks_add(r, before, (k - before) as nat);
    assert(before + (k - before) as nat == k);
    let rest = (k - before - 1) as nat;
    assert(s.with_tima_ticked_times((k - before) as nat) == s.with_tima_ticked().with_tima_ticked_times(rest));
    let s1 = s.with_tima_ticked();
    assert(s1.tima.value == s.tma.0) by {
        lemma_request_touches_only_if(Registers { tima: Tima { value: s.tma.0 as u32, ..s.tima }, ..s }, InterruptSource::Timer);
    }
    lemma_ticks_keep_timer_setup(r, before);
    lemma_ticks_without_overflow(s1, rest);
}

/// With the timer on, when the whole periods among the pending and new cycles take TIMA past
/// $FF once, TIMA restarts from TMA and ends at TMA plus the periods counted after the
/// overflow.
pub proof fn lemma_timer_reloads_from_tma(r: Registers, n: u8)
    requires
        r.wf(),
        r.tac.enable,
    ensures
        ({
            let every = r.tac.clock_select.increment_every as int;
            let q = (r.tima.pending_cycles + n) / every;
            (r.tima.value + q > 0xFF && r.tima.value + q - 256 + r.tma.0 <= 0xFF)
                ==> r.with_timer_advanced(n).tima.value == r.tma.0 + (r.tima.value + q - 256)
        }),
{
    let every = r.tac.clock_select.increment_every as int;
    let total = r.tima.pending_cycles + n;
    let q = total / every;
    vstd::arithmetic::div_mod::lemma_div_pos_is_pos(total, every);
    let start = r.with_pending_cycles((total % every) as u32);
    if r.tima.value + q > 0xFF && r.tima.value + q - 256 + r.tma.0 <= 0xFF {
        lemma_ticks_one_overflow(start, q as nat);
    }
}

} // verus!

verus! {

/// The shade of a 2-bit palette value: 0 white, 1 light gray, 2 dark gray, 3 black.
pub open spec fn shade_of(v: u8) -> Color {
    if v == 0 {
        Color::White
    } else if v == 1 {
        Color::LightGray
    } else if v == 2 {
        Color::DarkGray
    } else {
        Color::Black
    }
}

/// The plain byte registers: a write of `v` to IF ($FF0F), IE ($FFFF), SCY ($FF42), SCX
/// ($FF43), LYC ($FF45), BGP ($FF47), WY ($FF4A), WX ($FF4B) or TMA ($FF06) stores `v` there
/// and changes nothing else; writes to SB ($FF01) and to NR11, NR13, NR14 ($FF11, $FF13,
/// $FF14) change nothing; LY ($FF44) is read-only. Reads of IF, IE, LY, SCY and SCX give the
/// register.
pub proof fn lemma_byte_registers(r: Registers, v: u8)
    ensures
        r.write_spec(0xFF0F, v) == Some(Registers { if_: v, ..r }),
        r.write_spec(0xFFFF, v) == Some(Registers { ie: v, ..r }),
        r.write_spec(0xFF42, v) == Some(Registers { scy: v, ..r }),
        r.write_spec(0xFF43, v) == Some(Registers { scx: v, ..r }),
        r.write_spec(0xFF45, v) == Some(Registers { lyc: v, ..r }),
        r.write_spec(0xFF47, v) == Some(Registers { bgp: v, ..r }),
        r.write_spec(0xFF4A, v) == Some(Registers { wy: v, ..r }),
        r.write_spec(0xFF4B, v) == Some(Registers { wx: v, ..r }),
        r.write_spec(0xFF06, v) == Some(Registers { tma: Tma(v), ..r }),
        r.write_spec(0xFF01, v) == Some(r),
        r.write_spec(0xFF11, v) == Some(r),
        r.write_spec(0xFF13, v) == Some(r),
        r.write_spec(0xFF14, v) == Some(r),
        r.write_spec(0xFF44, v) is None,
        r.read_spec(0xFF0F) == Some(r.if_),
        r.read_spec(0xFFFF) == Some(r.ie),
        r.read_spec(0xFF44) == Some(r.ly),
        r.read_spec(0xFF42) == Some(r.scy),
        r.read_spec(0xFF43) == Some(r.scx),
{
}

/// The bit-field registers: P1 ($FF00) keeps bits 0-5 (A/right, B/left, select/up,
/// start/down, d-pad select, buttons select); OBP0 and OBP1 ($FF48, $FF49) give colors 1, 2, 3
/// the shades in bits 2-3, 4-5, 6-7; SC ($FF02) takes enable, high speed and clock select from
/// bits 0, 1, 2; NR52 ($FF26) takes channels 1-4 from bits 0-3 and audio on from bit 7; NR51
/// ($FF25) routes channels 1-4 left from bits 0-3 and right from bits 4-7; NR50 ($FF24) takes
/// the right level from bits 4-6, right Vin from bit 3, the left level from bits 0-2 and left
/// Vin from bit 0, and refuses a value with bit 7 set.
pub proof fn lemma_bit_field_registers(r: Registers, v: u8)
    ensures
        ({
            let p = r.write_spec(0xFF00, v).unwrap().p1;
            &&& p.a_right == (v & 1u8 != 0u8) && p.b_left == (v & 2u8 != 0u8)
            &&& p.select_up == (v & 4u8 != 0u8) && p.start_down == (v & 8u8 != 0u8)
            &&& p.select_d_pad == (v & 16u8 != 0u8) && p.select_buttons == (v & 32u8 != 0u8)
        }),
        r.write_spec(0xFF48, v).unwrap().ob_0 == (ObPallet {
            id_1: shade_of((v / 4) % 4),
            id_2: shade_of((v / 16) % 4),
            id_3: shade_of(v / 64),
        }),
        r.write_spec(0xFF49, v).unwrap().ob_1 == (ObPallet {
            id_1: shade_of((v / 4) % 4),
            id_2: shade_of((v / 16) % 4),
            id_3: shade_of(v / 64),
        }),
        r.write_spec(0xFF02, v).unwrap().sc == (SerialControl {
            enable: v & 1u8 != 0u8,
            high_speed_clock: v & 2u8 != 0u8,
            clock_select: v & 4u8 != 0u8,
        }),
        r.write_spec(0xFF26, v).unwrap().nr52 == (Nr52 {
            audio_on: v & 0x80u8 != 0u8,
            ch4_on: v & 8u8 != 0u8,
            ch3_on: v & 4u8 != 0u8,
            ch2_on: v & 2u8 != 0u8,
            ch1_on: v & 1u8 != 0u8,
        }),
        r.write_spec(0xFF25, v).unwrap().nr51 == (Nr51 {
            ch4_right: v & 0x80u8 != 0u8,
            ch3_right: v & 0x40u8 != 0u8,
            ch2_right: v & 0x20u8 != 0u8,
            ch1_right: v & 0x10u8 != 0u8,
            ch4_left: v & 8u8 != 0u8,
            ch3_left: v & 4u8 != 0u8,
            ch2_left: v & 2u8 != 0u8,
            ch1_left: v & 1u8 != 0u8,
        }),
        (r.write_spec(0xFF24, v) is Some) == (v < 0x80),
        v < 0x80 ==> r.write_spec(0xFF24, v).unwrap().nr50 == (Nr50 {
            right_speaker: OutputLevel(v / 16),
            right_vin: v & 8u8 != 0u8,
            left_speaker: OutputLevel(v % 8),
            left_vin: v & 1u8 != 0u8,
        }),
{
    assert(
        (((v >> 0u8) & 1u8 == 1u8) == (v & 1u8 != 0u8))
        && (((v >> 1u8) & 1u8 == 1u8) == (v & 2u8 != 0u8))
        && (((v >> 2u8) & 1u8 == 1u8) == (v & 4u8 != 0u8))
        && (((v >> 3u8) & 1u8 == 1u8) == (v & 8u8 != 0u8))
        && (((v >> 4u8) & 1u8 == 1u8) == (v & 16u8 != 0u8))
        && (((v >> 5u8) & 1u8 == 1u8) == (v & 32u8 != 0u8))
        && (((v >> 6u8) & 1u8 == 1u8) == (v & 0x40u8 != 0u8))
        && (((v >> 7u8) & 1u8 == 1u8) == (v & 0x80u8 != 0u8))
    ) by (bit_vector);
    assert(
        ((v >> 2u8) & 1u8 <= 1 && (v >> 3u8) & 1u8 <= 1 && (v >> 4u8) & 1u8 <= 1 && (v >> 5u8) & 1u8
            <= 1 && (v >> 6u8) & 1u8 <= 1 && (v >> 7u8) & 1u8 <= 1)
        && ((((v >> 3u8) & 1u8) * 2 + ((v >> 2u8) & 1u8)) as u8 == (v / 4) % 4)
        && ((((v >> 5u8) & 1u8) * 2 + ((v >> 4u8) & 1u8)) as u8 == (v / 16) % 4)
        && ((((v >> 7u8) & 1u8) * 2 + ((v >> 6u8) & 1u8)) as u8 == v / 64)
        && (((v >> 4u8) & 0x0Fu8 <= 7) == (v < 0x80))
        && ((v >> 4u8) & 0x0Fu8 == v / 16)
        && (v & 0x07u8 == v % 8)
    ) by (bit_vector);
}

} // verus!
