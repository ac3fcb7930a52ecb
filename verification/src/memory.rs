//! The 16-bit address space: ROM, video RAM, work RAM, OAM, I/O registers and high RAM.
use vstd::prelude::*;

pub use crate::interrupt::InterruptSource;
use crate::cartridge::{header_error, rom_size_of, Cartridge};
use crate::registers::{is_register_address, Registers, StatMode};

verus! {

pub const BOOT_ROM_END: usize = 0x00FF;
pub const ROM_0_END: usize = 0x3FFF;
pub const ROM_N_START: usize = 0x4000;
pub const ROM_N_END: usize = 0x7FFF;
pub const VRAM_START: usize = 0x8000;
pub const VRAM_END: usize = 0x9FFF;
pub const EX_RAM_START: usize = 0xA000;
pub const EX_RAM_END: usize = 0xBFFF;
pub const WRAM_START: usize = 0xC000;
pub const WRAM_END: usize = 0xDFFF;
pub const ECHO_RAM_START: usize = 0xE000;
pub const ECHO_RAM_END: usize = 0xFDFF;
pub const OAM_START: usize = 0xFE00;
pub const OAM_END: usize = 0xFE9F;
pub const NOT_USABLE_START: usize = 0xFEA0;
pub const NOT_USABLE_END: usize = 0xFEFF;
pub const IO_START: usize = 0xFF00;
pub const IO_END: usize = 0xFF7F;
pub const HRAM_START: usize = 0xFF80;
pub const HRAM_END: usize = 0xFFFE;
pub const BANK_SELECT_REGISTER: usize = 0x2000;
pub const BOOT_ROM_DISABLE_REG: usize = 0xFF50;

pub open spec fn in_vram(address: int) -> bool {
    VRAM_START <= address <= VRAM_END
}

pub open spec fn in_wram(address: int) -> bool {
    WRAM_START <= address <= WRAM_END
}

pub open spec fn in_hram(address: int) -> bool {
    HRAM_START <= address <= HRAM_END
}

pub open spec fn in_oam(address: int) -> bool {
    OAM_START <= address <= OAM_END
}

/// Video, work and high RAM: the regions where a read gives back what was written.
pub open spec fn is_ram_address(address: int) -> bool {
    in_vram(address) || in_wram(address) || in_hram(address)
}

/// The I/O addresses that no register backs; writes to them are ignored.
pub open spec fn is_unmapped_io(address: int) -> bool {
    (0xFF4C <= address <= 0xFF4F) || (0xFF5A <= address <= 0xFF5F) || (0xFF78 <= address
        <= 0xFF7F) || (0xFF72 <= address <= 0xFF75) || (0xFF56 <= address <= 0xFF57) || (0xFF51
        <= address <= 0xFF55) || (0xFF60 <= address <= 0xFF6F) || (0xFF58 <= address <= 0xFF59)
        || address == 0xFF77 || address == 0xFF76 || address == 0xFF71 || address == 0xFF70
}

/// Tile data, BG maps: 0x8000-0x9FFF mapped to 0..0x1FFF.
pub struct Vram(pub [u8; 8192]);

impl Vram {
    fn new() -> (r: Vram)
        ensures
            forall|i: int| 0 <= i < 8192 ==> r.0@[i] == 0,
    {
        Vram([0u8; 8192])
    }

    fn matches(address: usize) -> (r: bool)
        ensures
            r == in_vram(address as int),
    {
        VRAM_START <= address && address <= VRAM_END
    }

    fn read(&self, address: usize) -> (r: u8)
        requires
            in_vram(address as int),
        ensures
            r == self.0@[address - VRAM_START],
    {
        let address = address - VRAM_START;
        self.0[address]
    }

    fn write(&mut self, address: usize, value: u8)
        requires
            in_vram(address as int),
        ensures
            final(self).0@ == old(self).0@.update(address - VRAM_START, value),
    {
        let address = address - VRAM_START;
        self.0[address] = value;
    }
}

/// One entry of OAM.
/// +0  Y position  Sprite's vertical position on screen = (value - 16).
/// +1  X position  Sprite's horizontal position = (value - 8).
/// +2  Tile index
/// +3  Attributes
#[derive(Debug, Clone, Copy)]
pub struct SpriteAttribute {
    pub y: u8,
    pub x: u8,
    pub tile: u8,
    pub attr: u8,
}

impl SpriteAttribute {
    /// The sprite with byte `field` (0 to 3, in the order above) replaced by `value`.
    pub open spec fn with_field(self, field: int, value: u8) -> SpriteAttribute {
        if field == 0 {
            SpriteAttribute { y: value, ..self }
        } else if field == 1 {
            SpriteAttribute { x: value, ..self }
        } else if field == 2 {
            SpriteAttribute { tile: value, ..self }
        } else {
            SpriteAttribute { attr: value, ..self }
        }
    }
}

/// OAM (Object Attribute Memory) is a 160-byte table at 0xFE00-0xFE9F: 40 sprite entries of
/// 4 bytes each.
pub struct ObjectAttributeMemory {
    pub sprites: [SpriteAttribute; 40],
}

impl ObjectAttributeMemory {
    pub open spec fn updated(sprites: Seq<SpriteAttribute>, address: int, value: u8) -> Seq<
        SpriteAttribute,
    > {
        let index = address - OAM_START;
        sprites.update(index / 4, sprites[index / 4].with_field(index % 4, value))
    }

    fn new() -> (r: ObjectAttributeMemory)
        ensures
            forall|i: int|
                0 <= i < 40 ==> r.sprites@[i] == (SpriteAttribute { y: 0, x: 0, tile: 0, attr: 0 }),
    {
        ObjectAttributeMemory { sprites: [SpriteAttribute { y: 0, x: 0, tile: 0, attr: 0 };40] }
    }

    fn write(&mut self, address: usize, value: u8)
        requires
            in_oam(address as int),
        ensures
            final(self).sprites@ == ObjectAttributeMemory::updated(
                old(self).sprites@,
                address as int,
                value,
            ),
    {
        let index = address - OAM_START;
        let sprite_id = index / 4;
        let mut sprite = self.sprites[sprite_id];
        let field = index % 4;
        if field == 0 {
            sprite.y = value;
        } else if field == 1 {
            sprite.x = value;
        } else if field == 2 {
            sprite.tile = value;
        } else {
            sprite.attr = value;
        }
        self.sprites[sprite_id] = sprite;
    }
}

/// High RAM, 0xFF80-0xFFFE.
pub struct Hram(pub [u8; 127]);

impl Hram {
    fn new() -> (r: Hram)
        ensures
            forall|i: int| 0 <= i < 127 ==> r.0@[i] == 0,
    {
        Hram([0u8; 127])
    }

    fn matches(address: usize) -> (r: bool)
        ensures
            r == in_hram(address as int),
    {
        HRAM_START <= address && address <= HRAM_END
    }

    fn read(&self, address: usize) -> (r: u8)
        requires
            in_hram(address as int),
        ensures
            r == self.0@[address - HRAM_START],
    {
        let address = address - HRAM_START;
        self.0[address]
    }

    fn write(&mut self, address: usize, value: u8)
        requires
            in_hram(address as int),
        ensures
            final(self).0@ == old(self).0@.update(address - HRAM_START, value),
    {
        let address = address - HRAM_START;
        self.0[address] = value;
    }
}

/// Work RAM, 2 banks together: 0xC000-0xDFFF.
pub struct Wram(pub [u8; 8192]);

impl Wram {
    fn new() -> (r: Wram)
        ensures
            forall|i: int| 0 <= i < 8192 ==> r.0@[i] == 0,
    {
        Wram([0u8; 8192])
    }

    fn matches(address: usize) -> (r: bool)
        ensures
            r == in_wram(address as int),
    {
        WRAM_START <= address && address <= WRAM_END
    }

    fn read(&self, address: usize) -> (r: u8)
        requires
            in_wram(address as int),
        ensures
            r == self.0@[address - WRAM_START],
    {
        let address = address - WRAM_START;
        self.0[address]
    }

    fn write(&mut self, address: usize, value: u8)
        requires
            in_wram(address as int),
        ensures
            final(self).0@ == old(self).0@.update(address - WRAM_START, value),
    {
        let address = address - WRAM_START;
        self.0[address] = value;
    }
}

/// The I/O range 0xFF00-0xFF7F beyond the hardware registers.
#[derive(Debug)]
pub struct IoMem {}

impl IoMem {
    fn matches(address: usize) -> (r: bool)
        ensures
            r == (IO_START <= address <= IO_END),
    {
        IO_START <= address && address <= IO_END
    }

    fn is_unmapped(address: usize) -> (r: bool)
        ensures
            r == is_unmapped_io(address as int),
    {
        (0xFF4C <= address && address <= 0xFF4F) || (0xFF5A <= address && address <= 0xFF5F) || (
        0xFF78 <= address && address <= 0xFF7F) || (0xFF72 <= address && address <= 0xFF75) || (
        0xFF56 <= address && address <= 0xFF57) ||
        // CGB only VRAM DMA
        (0xFF51 <= address && address <= 0xFF55) || (0xFF60 <= address && address <= 0xFF6F) ||
        // CGB only
        (0xFF58 <= address && address <= 0xFF59) ||
        // those are only for CGB
        address == 0xFF77 || address == 0xFF76 || address == 0xFF71 || address == 0xFF70
    }

    /// Writes to undocumented I/O addresses are ignored.
    fn write(&mut self, address: usize, _value: u8)
        requires
            is_unmapped_io(address as int),
        ensures
            *final(self) == *old(self),
    {
    }
}

/// The mathematical content of the address space.
#[verifier::ext_equal]
pub struct MemoryView {
    pub boot_rom: Seq<u8>,
    pub rom_0: Seq<u8>,
    pub rom_n: Seq<u8>,
    pub vram: Seq<u8>,
    pub wram: Seq<u8>,
    pub hram: Seq<u8>,
    pub oam: Seq<SpriteAttribute>,
    pub registers: Registers,
    pub boot_rom_mapped: bool,
    pub rom_size: nat,
}

impl MemoryView {
    /// The regions have the sizes of the hardware.
    pub open spec fn wf(self) -> bool {
        &&& self.boot_rom.len() == 0x100
        &&& self.rom_0.len() == 0x4000
        &&& self.rom_n.len() == 0x4000
        &&& self.vram.len() == 0x2000
        &&& self.wram.len() == 0x2000
        &&& self.hram.len() == 0x7F
        &&& self.oam.len() == 40
    }

    /// What a read of `address` gives; `None` where the read is not supported (ROM beyond the
    /// cartridge's ROM size, external RAM, echo RAM, OAM, the unusable area, and I/O that is no
    /// readable register). Bank 1 of the cartridge is mapped at 0x4000-0x7FFF.
    #[verifier::opaque]
    pub open spec fn read(self, address: int) -> Option<u8> {
        if self.boot_rom_mapped && address <= BOOT_ROM_END {
            Some(self.boot_rom[address])
        } else if is_register_address(address) {
            self.registers.read_spec(address)
        } else if address <= ROM_0_END {
            if address >= self.rom_size {
                None
            } else {
                Some(self.rom_0[address])
            }
        } else if address <= ROM_N_END {
            if address >= self.rom_size {
                None
            } else {
                Some(self.rom_n[address - ROM_N_START])
            }
        } else if in_vram(address) {
            Some(self.vram[address - VRAM_START])
        } else if in_wram(address) {
            Some(self.wram[address - WRAM_START])
        } else if in_hram(address) {
            Some(self.hram[address - HRAM_START])
        } else {
            None
        }
    }

    /// The memory after a write of `value` to `address`; `None` where the write is not
    /// supported (boot ROM, ROM, external RAM, echo RAM, and I/O that no register backs).
    #[verifier::opaque]
    pub open spec fn write(self, address: int, value: u8) -> Option<MemoryView> {
        if address == BOOT_ROM_DISABLE_REG && self.boot_rom_mapped && value != 0 {
            Some(MemoryView { boot_rom_mapped: false, ..self })
        } else if address <= BOOT_ROM_END {
            None
        } else if is_register_address(address) {
            match self.registers.write_spec(address, value) {
                Some(r) => Some(MemoryView { registers: r, ..self }),
                None => None,
            }
        } else if address == BANK_SELECT_REGISTER {
            Some(self)
        } else if address <= ROM_N_END {
            None
        } else if in_vram(address) {
            Some(MemoryView { vram: self.vram.update(address - VRAM_START, value), ..self })
        } else if EX_RAM_START <= address <= EX_RAM_END {
            None
        } else if in_wram(address) {
            Some(MemoryView { wram: self.wram.update(address - WRAM_START, value), ..self })
        } else if ECHO_RAM_START <= address <= ECHO_RAM_END {
            None
        } else if in_oam(address) {
            // CPU access is blocked during Mode 2 & 3, but allowed in HBlank & VBlank.
            if self.registers.stat.mode == StatMode::Hblank || self.registers.stat.mode
                == StatMode::Vblank {
                Some(
                    MemoryView {
                        oam: ObjectAttributeMemory::updated(self.oam, address, value),
                        ..self
                    },
                )
            } else {
                Some(self)
            }
        } else if NOT_USABLE_START <= address <= NOT_USABLE_END {
            Some(self)
        } else if IO_START <= address <= IO_END {
            if is_unmapped_io(address) {
                Some(self)
            } else {
                None
            }
        } else if in_hram(address) {
            Some(MemoryView { hram: self.hram.update(address - HRAM_START, value), ..self })
        } else {
            None
        }
    }
}

/// A read of video, work or high RAM gives back the byte last written there.
pub proof fn lemma_ram_read_after_write(m: MemoryView, address: int, value: u8)
    requires
        m.wf(),
        is_ram_address(address),
    ensures
        m.write(address, value) is Some,
        m.write(address, value).unwrap().read(address) == Some(value),
{
    reveal(MemoryView::read);
    reveal(MemoryView::write);
}

/// A read of IF, IE, SCX or SCY gives back the byte last written there; a read of P1 gives
/// its low six bits.
pub proof fn lemma_register_read_after_write(m: MemoryView, address: int, value: u8)
    requires
        m.wf(),
        address == 0xFF0F || address == 0xFFFF || address == 0xFF43 || address == 0xFF42
            || address == 0xFF00,
    ensures
        m.write(address, value) is Some,
        address != 0xFF00 ==> m.write(address, value).unwrap().read(address) == Some(value),
        address == 0xFF00 ==> m.write(address, value).unwrap().read(address) == Some(
            value & 0x3Fu8,
        ),
{
    reveal(MemoryView::read);
    reveal(MemoryView::write);
    crate::registers::lemma_joypad_roundtrip(value);
}

/// A write to one address leaves what a read of any other address gives unchanged
/// (the boot ROM switch at 0xFF50 aside).
pub proof fn lemma_write_leaves_other_reads(m: MemoryView, address: int, other: int, value: u8)
    requires
        m.wf(),
        0 <= address <= 0xFFFF,
        0 <= other <= 0xFFFF,
        address != other,
        address != BOOT_ROM_DISABLE_REG,
        m.write(address, value) is Some,
    ensures
        m.write(address, value).unwrap().read(other) == m.read(other),
{
    reveal(MemoryView::read);
    reveal(MemoryView::write);
    let m2 = m.write(address, value).unwrap();
    if is_register_address(address) {
        let r2 = m.registers.write_spec(address, value).unwrap();
        assert(m2 == MemoryView { registers: r2, ..m });
        assert(r2.read_spec(other) == m.registers.read_spec(other));
    } else {
        assert(m2.registers == m.registers);
        assert(m2.boot_rom_mapped == m.boot_rom_mapped);
        assert(m2.rom_0 == m.rom_0 && m2.rom_n == m.rom_n && m2.boot_rom == m.boot_rom
            && m2.rom_size == m.rom_size);
    }
}

/// Whether a write to one address is supported does not depend on an earlier write to
/// another address.
pub proof fn lemma_write_support_independent(m: MemoryView, a1: int, v1: u8, a2: int, v2: u8)
    requires
        a1 != a2,
        m.write(a1, v1) is Some,
    ensures
        (m.write(a1, v1).unwrap().write(a2, v2) is Some) == (m.write(a2, v2) is Some),
{
    reveal(MemoryView::write);
    let m1 = m.write(a1, v1).unwrap();
    crate::registers::lemma_register_access_is_stateless(m.registers, a2, v2);
    crate::registers::lemma_register_access_is_stateless(m1.registers, a2, v2);
    if a2 == BOOT_ROM_DISABLE_REG {
        assert(m1.boot_rom_mapped == m.boot_rom_mapped);
    }
}

/// Whether a write is supported does not depend on the registers' contents, nor on the RAM.
pub proof fn lemma_write_support_same_layout(m1: MemoryView, m2: MemoryView, address: int, value: u8)
    requires
        m1.boot_rom_mapped == m2.boot_rom_mapped,
    ensures
        (m1.write(address, value) is Some) == (m2.write(address, value) is Some),
        m1.write(address, value) is Some ==> m1.write(address, value).unwrap().boot_rom_mapped
            == m2.write(address, value).unwrap().boot_rom_mapped,
{
    reveal(MemoryView::write);
    crate::registers::lemma_register_access_is_stateless(m1.registers, address, value);
    crate::registers::lemma_register_access_is_stateless(m2.registers, address, value);
}

/// Once the boot ROM has been switched off by a non-zero write to 0xFF50, the low addresses
/// read the cartridge ROM.
pub proof fn lemma_boot_rom_disable(m: MemoryView, value: u8, other: int)
    requires
        m.wf(),
        m.boot_rom_mapped,
        value != 0,
        0 <= other <= BOOT_ROM_END,
    ensures
        m.write(BOOT_ROM_DISABLE_REG as int, value) is Some,
        m.write(BOOT_ROM_DISABLE_REG as int, value).unwrap().read(other) == (if other
            < m.rom_size {
            Some(m.rom_0[other])
        } else {
            None
        }),
{
    reveal(MemoryView::read);
    reveal(MemoryView::write);
}

/// `n` zero bytes.
pub open spec fn zeros(n: nat) -> Seq<u8> {
    Seq::new(n, |i: int| 0u8)
}

/// ROM bank 1 of an image: its bytes 0x4000 to 0x7FFF, zero where the image is shorter.
pub open spec fn rom_bank_1_of(rom: Seq<u8>) -> Seq<u8> {
    Seq::new(0x4000, |i: int| if 0x4000 + i < rom.len() {
        rom[0x4000 + i]
    } else {
        0u8
    })
}

/// Whether a ROM image (and, for a cartridge, a boot ROM) can be loaded: a test ROM needs its
/// first 16 KiB; a cartridge also needs a supported header and a 256-byte boot ROM.
pub open spec fn can_load(rom: Seq<u8>, boot_rom: Seq<u8>, test_rom: bool) -> bool {
    &&& rom.len() >= 0x4000
    &&& !test_rom ==> header_error(rom) is None && boot_rom.len() >= 0x100
}

/// The memory right after loading: ROM bank 0 holds the first 16 KiB of the image and bank 1
/// the next 16 KiB (zero beyond the image); a
/// cartridge maps the boot ROM over its first 256 bytes and takes its ROM size from the
/// header, a test ROM runs without boot ROM and its size is the image's; all RAM is zero and
/// the registers are at their power-on state.
pub open spec fn loaded(rom: Seq<u8>, boot_rom: Seq<u8>, test_rom: bool) -> MemoryView {
    MemoryView {
        boot_rom: if test_rom {
            zeros(0x100)
        } else {
            boot_rom.take(0x100)
        },
        rom_0: rom.take(0x4000),
        rom_n: rom_bank_1_of(rom),
        vram: zeros(0x2000),
        wram: zeros(0x2000),
        hram: zeros(0x7F),
        oam: Seq::new(40, |i: int| SpriteAttribute { y: 0, x: 0, tile: 0, attr: 0 }),
        registers: Registers::initial(),
        boot_rom_mapped: !test_rom,
        rom_size: if test_rom {
            rom.len()
        } else {
            rom_size_of(rom[0x148]) as nat
        },
    }
}

/// Right after loading, the cartridge's ROM bank 1 is read at 0x4000-0x7FFF: each address
/// within the ROM size and the image gives the image's byte there.
pub proof fn lemma_rom_bank_1_read(rom: Seq<u8>, boot_rom: Seq<u8>, test_rom: bool, address: int)
    requires
        ROM_N_START <= address <= ROM_N_END,
        address < loaded(rom, boot_rom, test_rom).rom_size,
        address < rom.len(),
    ensures
        loaded(rom, boot_rom, test_rom).read(address) == Some(rom[address]),
{
    reveal(MemoryView::read);
    let m = loaded(rom, boot_rom, test_rom);
    assert(m.rom_n[address - ROM_N_START] == rom[address]);
}

/// The Game Boy has a 16-bit address bus, which is used to address ROM, RAM, and I/O.
///
/// 0000    3FFF    16 KiB ROM bank 00
/// 4000    7FFF    16 KiB ROM Bank 01-NN
/// 8000    9FFF    8 KiB Video RAM (VRAM)
/// A000    BFFF    8 KiB External RAM
/// C000    DFFF    8 KiB Work RAM (WRAM)
/// E000    FDFF    Echo RAM (mirror of C000-DDFF)
/// FE00    FE9F    Object attribute memory (OAM)
/// FEA0    FEFF    Not Usable
/// FF00    FF7F    I/O Registers
/// FF80    FFFE    High RAM (HRAM)
/// FFFF    FFFF    Interrupt Enable register (IE)
pub struct Memory {
    pub boot_rom: [u8; 256],
    pub rom_0: [u8; 16384],
    pub rom_n: [u8; 16384],
    pub vram: Vram,
    pub registers: Registers,
    pub wram: Wram,
    pub hram: Hram,
    pub boot_rom_mapped: bool,
    pub io_: IoMem,
    pub oam: ObjectAttributeMemory,
    pub rom_size: usize,
}

impl View for Memory {
    type V = MemoryView;

    open spec fn view(&self) -> MemoryView {
        MemoryView {
            boot_rom: self.boot_rom@,
            rom_0: self.rom_0@,
            rom_n: self.rom_n@,
            vram: self.vram.0@,
            wram: self.wram.0@,
            hram: self.hram.0@,
            oam: self.oam.sprites@,
            registers: self.registers,
            boot_rom_mapped: self.boot_rom_mapped,
            rom_size: self.rom_size as nat,
        }
    }
}

impl Memory {
    /// The first 16 KiB of `data`.
    fn rom_bank_0(data: &[u8]) -> (r: [u8; 16384])
        requires
            data@.len() >= 0x4000,
        ensures
            r@ == data@.take(0x4000),
    {
        let mut rom_0 = [0u8; 16384];
        let mut i: usize = 0;
        while i < 0x4000
            invariant
                data@.len() >= 0x4000,
                i <= 0x4000,
                forall|j: int| 0 <= j < i ==> rom_0@[j] == data@[j],
            decreases 0x4000 - i,
        {
            rom_0[i] = data[i];
            i = i + 1;
        }
        assert(rom_0@ =~= data@.take(0x4000));
        rom_0
    }

    /// ROM bank 1 of `data`: its bytes 0x4000 to 0x7FFF, zero where `data` is shorter.
    fn rom_bank_1(data: &[u8]) -> (r: [u8; 16384])
        ensures
            r@ == rom_bank_1_of(data@),
    {
        let mut rom_n = [0u8; 16384];
        let mut i: usize = 0;
        while i < 0x4000
            invariant
                i <= 0x4000,
                forall|j: int| 0 <= j < i ==> rom_n@[j] == rom_bank_1_of(data@)[j],
                forall|j: int| i <= j < 0x4000 ==> rom_n@[j] == 0,
            decreases 0x4000 - i,
        {
            if ROM_N_START + i < data.len() {
                rom_n[i] = data[ROM_N_START + i];
            }
            i = i + 1;
        }
        assert(rom_n@ =~= rom_bank_1_of(data@));
        rom_n
    }

    fn from_test_rom(data: Vec<u8>) -> (r: Memory)
        requires
            data@.len() >= 0x4000,
        ensures
            r@ == loaded(data@, Seq::empty(), true),
    {
        let rom_0 = Memory::rom_bank_0(data.as_slice());
        let rom_n = Memory::rom_bank_1(data.as_slice());
        let vram = Vram::new();
        let wram = Wram::new();
        let io_ = IoMem {  };
        let hram = Hram::new();
        let registers = Registers::default();
        let boot_rom_ = [0u8; 256];
        let r = Memory {
            boot_rom: boot_rom_,
            rom_0,
            rom_n,
            vram,
            wram,
            hram,
            registers,
            rom_size: data.len(),
            io_,
            boot_rom_mapped: false,
            oam: ObjectAttributeMemory::new(),
        };
        assert(r@.vram =~= zeros(0x2000));
        assert(r@.wram =~= zeros(0x2000));
        assert(r@.hram =~= zeros(0x7F));
        assert(r@.oam =~= Seq::new(40, |i: int| SpriteAttribute { y: 0, x: 0, tile: 0, attr: 0 }));
        assert(r@.boot_rom =~= zeros(0x100));
        assert(r@ =~= loaded(data@, Seq::empty(), true));
        r
    }

    fn from_cartridge(rom: Vec<u8>, boot_rom: Vec<u8>) -> (r: Memory)
        requires
            can_load(rom@, boot_rom@, false),
        ensures
            r@ == loaded(rom@, boot_rom@, false),
    {
        let cartridge = Cartridge::new(rom);
        let rom_0 = Memory::rom_bank_0(cartridge.data.as_slice());
        let rom_n = Memory::rom_bank_1(cartridge.data.as_slice());
        let vram = Vram::new();
        let wram = Wram::new();
        let io_ = IoMem {  };
        let hram = Hram::new();
        let registers = Registers::default();
        let mut boot_rom_ = [0u8; 256];
        let mut i: usize = 0;
        while i < 0x100
            invariant
                boot_rom@.len() >= 0x100,
                i <= 0x100,
                forall|j: int| 0 <= j < i ==> boot_rom_@[j] == boot_rom@[j],
            decreases 0x100 - i,
        {
            boot_rom_[i] = boot_rom[i];
            i = i + 1;
        }
        let r = Memory {
            boot_rom: boot_rom_,
            rom_0,
            rom_n,
            vram,
            wram,
            hram,
            registers,
            io_,
            boot_rom_mapped: true,
            oam: ObjectAttributeMemory::new(),
            rom_size: cartridge.header.rom_size,
        };
        assert(r@.vram =~= zeros(0x2000));
        assert(r@.wram =~= zeros(0x2000));
        assert(r@.hram =~= zeros(0x7F));
        assert(r@.oam =~= Seq::new(40, |i: int| SpriteAttribute { y: 0, x: 0, tile: 0, attr: 0 }));
        assert(r@.boot_rom =~= boot_rom@.take(0x100));
        assert(r@ =~= loaded(rom@, boot_rom@, false));
        r
    }

    /// Load a test ROM (`test_rom`), which runs without boot ROM, or a cartridge with the boot
    /// ROM `boot_rom` mapped over its first 256 bytes.
    pub fn new(rom: Vec<u8>, boot_rom: Vec<u8>, test_rom: bool) -> (r: Memory)
        requires
            can_load(rom@, boot_rom@, test_rom),
        ensures
            r@ == loaded(rom@, boot_rom@, test_rom),
    {
        if test_rom {
            Memory::from_test_rom(rom)
        } else {
            Memory::from_cartridge(rom, boot_rom)
        }
    }

    /// Whether a read of `address` is supported.
    pub fn can_read(&self, address: u16) -> (r: bool)
        ensures
            r == (self@.read(address as int) is Some),
    {
        proof {
            reveal(MemoryView::read);
            crate::registers::lemma_register_access_is_stateless(self.registers, address as int, 0);
        }
        let address = address as usize;
        if self.boot_rom_mapped && address <= BOOT_ROM_END {
            return true;
        }
        if Registers::matches(address) {
            return Registers::can_read(address);
        }
        if address <= ROM_N_END {
            return address < self.rom_size;
        }
        Vram::matches(address) || Wram::matches(address) || Hram::matches(address)
    }

    /// Whether a write of `value` to `address` is supported.
    pub fn can_write(&self, address: u16, value: u8) -> (r: bool)
        ensures
            r == (self@.write(address as int, value) is Some),
    {
        proof {
            reveal(MemoryView::write);
            crate::registers::lemma_register_access_is_stateless(self.registers, address as int, value);
        }
        let address = address as usize;
        if address == BOOT_ROM_DISABLE_REG && self.boot_rom_mapped && value != 0x0 {
            return true;
        }
        if address <= BOOT_ROM_END {
            return false;
        }
        if Registers::matches(address) {
            return Registers::can_write(address, value);
        }
        if address == BANK_SELECT_REGISTER {
            return true;
        }
        if address <= ROM_N_END {
            return false;
        }
        if Vram::matches(address) || Wram::matches(address) || Hram::matches(address) {
            return true;
        }
        if OAM_START <= address && address <= NOT_USABLE_END {
            return true;
        }
        if IoMem::matches(address) {
            return IoMem::is_unmapped(address);
        }
        false
    }

    pub fn read(&self, address: u16) -> (r: u8)
        requires
            self@.read(address as int) is Some,
        ensures
            Some(r) == self@.read(address as int),
    {
        proof {
            reveal(MemoryView::read);
        }
        let address = address as usize;
        if self.boot_rom_mapped && address <= BOOT_ROM_END {
            return self.boot_rom[address];
        }
        if Registers::matches(address) {
            return self.registers.read(address);
        }
        if address <= ROM_0_END {
            return self.rom_0[address];
        }
        if address <= ROM_N_END {
            return self.rom_n[address - ROM_N_START];
        }
        if Vram::matches(address) {
            return self.vram.read(address);
        }
        if Wram::matches(address) {
            return self.wram.read(address);
        }
        self.hram.read(address)
    }

    pub fn write(&mut self, address: u16, value: u8)
        requires
            old(self)@.write(address as int, value) is Some,
        ensures
            Some(final(self)@) == old(self)@.write(address as int, value),
    {
        proof {
            reveal(MemoryView::write);
        }
        let address = address as usize;
        if address == BOOT_ROM_DISABLE_REG {
            if self.boot_rom_mapped && value != 0x0 {
                self.boot_rom_mapped = false;
                return ;
            }
        }
        if Registers::matches(address) {
            return self.registers.write(address, value);
        }
        if address == BANK_SELECT_REGISTER {
            // ROM-only cartridge: no bank switch, the write is ignored
            return ;
        }
        if Vram::matches(address) {
            self.vram.write(address, value);
            return ;
        }
        if Wram::matches(address) {
            self.wram.write(address, value);
            return ;
        }
        if OAM_START <= address && address <= OAM_END {
            match self.registers.stat.mode {
                StatMode::Hblank | StatMode::Vblank => self.oam.write(address, value),
                _ => {},
            }
            return ;
        }
        if NOT_USABLE_START <= address && address <= NOT_USABLE_END {
            return ;
        }
        if IoMem::matches(address) {
            return self.io_.write(address, value);
        }
        self.hram.write(address, value);
    }
}

} // verus!

verus! {

/// The RAM regions as the CPU sees them: video RAM at 0x8000-0x9FFF, work RAM at
/// 0xC000-0xDFFF and high RAM at 0xFF80-0xFFFE hold byte `k` of their region at their start
/// address plus `k`; a write there changes that byte only.
pub proof fn lemma_ram_regions(m: MemoryView, k: int, v: u8)
    requires
        m.wf(),
    ensures
        0 <= k < 0x2000 ==> m.read(0x8000 + k) == Some(m.vram[k]) && m.write(0x8000 + k, v)
            == Some(MemoryView { vram: m.vram.update(k, v), ..m }),
        0 <= k < 0x2000 ==> m.read(0xC000 + k) == Some(m.wram[k]) && m.write(0xC000 + k, v)
            == Some(MemoryView { wram: m.wram.update(k, v), ..m }),
        0 <= k < 0x7F ==> m.read(0xFF80 + k) == Some(m.hram[k]) && m.write(0xFF80 + k, v)
            == Some(MemoryView { hram: m.hram.update(k, v), ..m }),
{
    reveal(MemoryView::read);
    reveal(MemoryView::write);
}

/// The cartridge ROM as the CPU sees it, once the boot ROM is off (or above its 256 bytes):
/// bank 0 at 0x0000-0x3FFF and bank 1 at 0x4000-0x7FFF, readable below the ROM size; writes
/// to ROM are refused, but for the bank select register at 0x2000, which a ROM-only
/// cartridge ignores. External RAM (0xA000-0xBFFF) and echo RAM (0xE000-0xFDFF) refuse reads
/// and writes.
pub proof fn lemma_rom_and_unmapped_regions(m: MemoryView, a: int, v: u8)
    requires
        m.wf(),
        0 <= a <= 0xFFFF,
    ensures
        a < 0x4000 && (!m.boot_rom_mapped || a >= 0x100) ==> m.read(a) == (if a < m.rom_size {
            Some(m.rom_0[a])
        } else {
            None
        }),
        0x4000 <= a < 0x8000 ==> m.read(a) == (if a < m.rom_size {
            Some(m.rom_n[a - 0x4000])
        } else {
            None
        }),
        0x100 <= a < 0x8000 && a != 0x2000 ==> m.write(a, v) is None,
        m.write(0x2000, v) == Some(m),
        (0xA000 <= a < 0xC000 || 0xE000 <= a < 0xFE00) ==> m.read(a) is None && m.write(a, v)
            is None,
{
    reveal(MemoryView::read);
    reveal(MemoryView::write);
}

/// OAM at 0xFE00-0xFE9F: byte 4i + f is field f (0 Y, 1 X, 2 tile, 3 attributes) of sprite
/// i. A write there lands while the PPU is in HBlank or VBlank and is ignored during OAM
/// search and pixel transfer; OAM reads are refused.
pub proof fn lemma_oam_writes(m: MemoryView, i: int, f: int, v: u8)
    requires
        m.wf(),
        0 <= i < 40,
        0 <= f < 4,
    ensures
        m.read(0xFE00 + 4 * i + f) is None,
        m.write(0xFE00 + 4 * i + f, v) is Some,
        ({
            let m2 = m.write(0xFE00 + 4 * i + f, v).unwrap();
            let s = m.oam[i];
            if m.registers.stat.mode == StatMode::Hblank || m.registers.stat.mode
                == StatMode::Vblank {
                m2 == MemoryView {
                    oam: m.oam.update(
                        i,
                        if f == 0 {
                            SpriteAttribute { y: v, ..s }
                        } else if f == 1 {
                            SpriteAttribute { x: v, ..s }
                        } else if f == 2 {
                            SpriteAttribute { tile: v, ..s }
                        } else {
                            SpriteAttribute { attr: v, ..s }
                        },
                    ),
                    ..m
                }
            } else {
                m2 == m
            }
        }),
{
    reveal(MemoryView::read);
    reveal(MemoryView::write);
    vstd::arithmetic::div_mod::lemma_fundamental_div_mod_converse(4 * i + f, 4, i, f);
}

} // verus!

verus! {

/// Right after loading: a cartridge maps its boot ROM over 0x0000-0x00FF and its ROM size is
/// 32 KiB doubled as often as header byte 0x148 says; a test ROM runs from its image, every
/// address below 0x8000 and below the image's length reading the image's byte; video, work
/// and high RAM read zero.
pub proof fn lemma_loaded_memory(rom: Seq<u8>, boot_rom: Seq<u8>, test_rom: bool, a: int, k: int)
    requires
        can_load(rom, boot_rom, test_rom),
    ensures
        !test_rom && 0 <= a < 0x100 ==> loaded(rom, boot_rom, test_rom).read(a) == Some(boot_rom[a]),
        !test_rom ==> loaded(rom, boot_rom, test_rom).rom_size == rom_size_of(rom[0x148]),
        test_rom && 0 <= a < 0x8000 && a < rom.len() ==> loaded(rom, boot_rom, test_rom).read(a)
            == Some(rom[a]),
        0 <= k < 0x2000 ==> loaded(rom, boot_rom, test_rom).read(0x8000 + k) == Some(0u8)
            && loaded(rom, boot_rom, test_rom).read(0xC000 + k) == Some(0u8),
        0 <= k < 0x7F ==> loaded(rom, boot_rom, test_rom).read(0xFF80 + k) == Some(0u8),
{
    reveal(MemoryView::read);
    let m = loaded(rom, boot_rom, test_rom);
    if test_rom && 0 <= a < 0x8000 && a < rom.len() && a >= 0x4000 {
        assert(m.rom_n[a - 0x4000] == rom[a]);
    }
}

} // verus!
