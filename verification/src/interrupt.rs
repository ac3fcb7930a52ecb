use vstd::prelude::*;

verus! {

/// Interrupt Handling
/// The IF bit corresponding to this interrupt and the IME flag are reset by the CPU. The former
/// "acknowledges" the interrupt, while the latter prevents any further interrupts from being
/// handled until the program re-enables them, typically by using the reti instruction.
/// The corresponding interrupt handler is called by the CPU. This is a regular call, exactly like
/// what would be performed by a call <address> instruction (the current PC is pushed onto the
/// stack and then set to the address of the interrupt handler).
///
/// Two wait states are executed (2 M-cycles), the current value of the PC register is pushed onto
/// the stack (2 more M-cycles) and the PC register is set to the address of the handler (one of:
/// $40, $48, $50, $58, $60), which consumes one last M-cycle: 5 M-cycles in all.
///
/// Jump vectors in the first ROM bank:
/// RST instructions: 0000, 0008, 0010, 0018, 0020, 0028, 0030, 0038
/// Interrupts: 0040, 0048, 0050, 0058, 0060
#[derive(Debug, Clone, Copy, PartialEq, Eq, PartialOrd, Ord, Structural)]
pub enum InterruptSource {
    /// Requested every time the Game Boy enters VBlank (Mode 1).
    VBlank,
    /// LCD STAT interrupt.
    Stat,
    /// Requested every time that the timer overflows (that is, when TIMA exceeds $FF).
    Timer,
    /// Requested upon completion of a serial data transfer.
    Serial,
    /// Requested when any of P1 bits 0-3 change from High to Low.
    Joypad,
}

impl InterruptSource {
    /// The bit of IE and IF that belongs to this interrupt; it is also its priority
    /// (bit 0, VBlank, is served first).
    pub open spec fn bit(self) -> nat {
        match self {
            InterruptSource::VBlank => 0,
            InterruptSource::Stat => 1,
            InterruptSource::Timer => 2,
            InterruptSource::Serial => 3,
            InterruptSource::Joypad => 4,
        }
    }

    /// The handler address of this interrupt.
    pub open spec fn vector(self) -> u16 {
        (0x40 + 8 * self.bit()) as u16
    }

    /// Interrupt   IF Bit  Vector Address
    /// VBlank      Bit 0   0x0040
    /// LCD STAT    Bit 1   0x0048
    /// Timer       Bit 2   0x0050
    /// Serial      Bit 3   0x0058
    /// Joypad      Bit 4   0x0060
    pub fn jump_addres(&self) -> (r: u16)
        ensures
            r == self.vector(),
    {
        match self {
            InterruptSource::VBlank => 0x0040,
            InterruptSource::Stat => 0x0048,
            InterruptSource::Timer => 0x0050,
            InterruptSource::Serial => 0x0058,
            InterruptSource::Joypad => 0x0060,
        }
    }
}

} // verus!
