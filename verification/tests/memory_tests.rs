use gbemu::interrupt::InterruptSource;
use gbemu::memory::Memory;
use gbemu::registers::StatMode;
use gbemu::util::{clear_nth_bit, is_nth_bit_set, set_nth_bit};

fn test_memory() -> Memory {
    let mut rom = vec![0u8; 0x8000];
    for (i, b) in rom.iter_mut().enumerate() {
        *b = (i % 251) as u8;
    }
    Memory::new(rom, Vec::new(), true)
}

#[test]
fn bit_helpers() {
    assert!(is_nth_bit_set(0b1000_0000, 7));
    assert!(!is_nth_bit_set(0b1000_0000, 6));
    assert_eq!(set_nth_bit(0b0000_0001, 3), 0b0000_1001);
    assert_eq!(set_nth_bit(0b0000_1000, 3), 0b0000_1000);
    assert_eq!(clear_nth_bit(0b1111_1111, 4), 0b1110_1111);
}

#[test]
fn jump_vectors() {
    assert_eq!(InterruptSource::VBlank.jump_addres(), 0x40);
    assert_eq!(InterruptSource::Stat.jump_addres(), 0x48);
    assert_eq!(InterruptSource::Timer.jump_addres(), 0x50);
    assert_eq!(InterruptSource::Serial.jump_addres(), 0x58);
    assert_eq!(InterruptSource::Joypad.jump_addres(), 0x60);
}

#[test]
fn rom_reads_from_the_image() {
    let memory = test_memory();
    assert_eq!(memory.read(0x0000), 0);
    assert_eq!(memory.read(0x0100), (0x100 % 251) as u8);
    assert_eq!(memory.read(0x3FFF), (0x3FFF % 251) as u8);
    // ROM bank 1
    assert_eq!(memory.read(0x4000), (0x4000 % 251) as u8);
    assert_eq!(memory.read(0x7FFF), (0x7FFF % 251) as u8);
}

#[test]
fn cartridge_bank_1_is_mapped() {
    let mut rom = vec![0u8; 0x8000];
    rom[0x4000] = 0x5A;
    rom[0x7FFF] = 0xA5;
    rom[0x0147] = 0x00;
    rom[0x0148] = 0x00;
    rom[0x0149] = 0x00;
    let mut memory = Memory::new(rom, vec![0u8; 256], false);
    assert_eq!(memory.read(0x4000), 0x5A);
    assert_eq!(memory.read(0x7FFF), 0xA5);
    assert_eq!(memory.read(0x5000), 0x00);
    // bank 1 is read-only
    assert!(!memory.can_write(0x4000, 1));
    let _ = &mut memory;
}

#[test]
fn short_test_rom_has_no_bank_1() {
    let memory = Memory::new(vec![0x11u8; 0x4000], Vec::new(), true);
    assert!(memory.can_read(0x3FFF));
    assert!(!memory.can_read(0x4000));
    assert!(!memory.can_read(0x7FFF));
}

#[test]
fn ram_reads_back_what_was_written() {
    let mut memory = test_memory();
    memory.write(0x8000, 0x11);
    memory.write(0x9FFF, 0x22);
    memory.write(0xC000, 0x33);
    memory.write(0xDFFF, 0x44);
    memory.write(0xFF80, 0x55);
    memory.write(0xFFFE, 0x66);
    assert_eq!(memory.read(0x8000), 0x11);
    assert_eq!(memory.read(0x9FFF), 0x22);
    assert_eq!(memory.read(0xC000), 0x33);
    assert_eq!(memory.read(0xDFFF), 0x44);
    assert_eq!(memory.read(0xFF80), 0x55);
    assert_eq!(memory.read(0xFFFE), 0x66);
    // a write to one address leaves the others
    memory.write(0xC001, 0x77);
    assert_eq!(memory.read(0xC000), 0x33);
    assert_eq!(memory.read(0x8001), 0x00);
}

#[test]
fn registers_read_back() {
    let mut memory = test_memory();
    memory.write(0xFF0F, 0x15);
    memory.write(0xFFFF, 0x1F);
    memory.write(0xFF43, 0x12);
    memory.write(0xFF42, 0x34);
    memory.write(0xFF00, 0xFF);
    assert_eq!(memory.read(0xFF0F), 0x15);
    assert_eq!(memory.read(0xFFFF), 0x1F);
    assert_eq!(memory.read(0xFF43), 0x12);
    assert_eq!(memory.read(0xFF42), 0x34);
    assert_eq!(memory.read(0xFF00), 0x3F);
    assert_eq!(memory.read(0xFF44), 0);
}

#[test]
fn ignored_writes() {
    let mut memory = test_memory();
    // bank select on a ROM-only cartridge, the unusable area, undocumented I/O
    memory.write(0x2000, 0x01);
    memory.write(0xFEA0, 0x01);
    memory.write(0xFF4C, 0x01);
    memory.write(0xFF7F, 0x01);
    assert_eq!(memory.read(0x2000), (0x2000 % 251) as u8);
}

#[test]
fn oam_writes_only_in_blank_modes() {
    let mut memory = test_memory();
    assert_eq!(memory.registers.stat.mode, StatMode::OamSearch);
    memory.write(0xFE05, 0x42);
    assert_eq!(memory.oam.sprites[1].x, 0);
    memory.registers.stat.mode = StatMode::Hblank;
    memory.write(0xFE05, 0x42);
    memory.write(0xFE06, 0x43);
    memory.write(0xFE07, 0x44);
    memory.write(0xFE04, 0x45);
    assert_eq!(memory.oam.sprites[1].x, 0x42);
    assert_eq!(memory.oam.sprites[1].tile, 0x43);
    assert_eq!(memory.oam.sprites[1].attr, 0x44);
    assert_eq!(memory.oam.sprites[1].y, 0x45);
}

#[test]
fn boot_rom_is_mapped_until_disabled() {
    let mut rom = vec![0u8; 0x8000];
    rom[0x0000] = 0xAA;
    rom[0x0147] = 0x00;
    rom[0x0148] = 0x00;
    let boot: Vec<u8> = (0..256).map(|i| (255 - i) as u8).collect();
    let mut memory = Memory::new(rom, boot, false);
    assert!(memory.boot_rom_mapped);
    assert_eq!(memory.rom_size, 32 * 1024);
    assert_eq!(memory.read(0x0000), 0xFF);
    assert_eq!(memory.read(0x00FF), 0x00);
    memory.write(0xFF50, 0x01);
    assert!(!memory.boot_rom_mapped);
    assert_eq!(memory.read(0x0000), 0xAA);
}

#[test]
fn pending_interrupt_priority() {
    let mut memory = test_memory();
    memory.write(0xFFFF, 0x1F);
    memory.write(0xFF0F, 0b0001_0110);
    assert_eq!(memory.registers.get_pending_interrupt(), Some(InterruptSource::Stat));
    memory.registers.acknowledge_interrupt(&InterruptSource::Stat);
    assert_eq!(memory.read(0xFF0F), 0b0001_0100);
    assert_eq!(memory.registers.get_pending_interrupt(), Some(InterruptSource::Timer));
    memory.write(0xFFFF, 0x10);
    assert_eq!(memory.registers.get_pending_interrupt(), Some(InterruptSource::Joypad));
    memory.write(0xFFFF, 0x00);
    assert_eq!(memory.registers.get_pending_interrupt(), None);
    memory.write(0xFFFF, 0xE0);
    memory.write(0xFF0F, 0xE0);
    assert_eq!(memory.registers.get_pending_interrupt(), None);
}

#[test]
fn request_interrupt_sets_flag_masked_by_enable() {
    let mut memory = test_memory();
    // IF records the request even while IE masks it
    memory.registers.request_interrupt(&InterruptSource::VBlank);
    assert_eq!(memory.read(0xFF0F), 0x01);
    assert_eq!(memory.read(0xFFFF), 0x00);
    assert_eq!(memory.registers.get_pending_interrupt(), None);
    memory.write(0xFFFF, 0x01);
    assert_eq!(memory.registers.get_pending_interrupt(), Some(InterruptSource::VBlank));
    memory.registers.request_interrupt(&InterruptSource::Joypad);
    assert_eq!(memory.read(0xFF0F), 0x11);
    assert_eq!(memory.registers.get_pending_interrupt(), Some(InterruptSource::VBlank));
}

#[test]
fn stat_coincidence() {
    let mut memory = test_memory();
    memory.write(0xFF45, 0x00);
    memory.write(0xFF41, 0x40);
    memory.registers.update_stat_coincidence();
    assert!(memory.registers.stat.lyc_ly);
    assert_eq!(memory.read(0xFF0F), 0x02);
    memory.write(0xFF45, 0x05);
    memory.registers.update_stat_coincidence();
    assert!(!memory.registers.stat.lyc_ly);
}

#[test]
fn timer_counts_and_overflows() {
    let mut memory = test_memory();
    memory.write(0xFFFF, 0x04);
    memory.write(0xFF06, 0xAB);
    // enabled, increment every 4 cycles
    memory.write(0xFF07, 0b101);
    assert_eq!(memory.registers.tac.clock_select.frequency, 262144);
    memory.registers.inc_timer(3);
    assert_eq!(memory.registers.tima.value, 0);
    memory.registers.inc_timer(3);
    assert_eq!(memory.registers.tima.value, 1);
    assert_eq!(memory.registers.tima.pending_cycles, 2);
    memory.registers.tima.value = 0xFF;
    memory.registers.inc_timer(2);
    assert_eq!(memory.registers.tima.value, 0xAB);
    assert_eq!(memory.read(0xFF0F), 0x04);
    // every whole period counts
    memory.registers.tima.value = 0;
    memory.registers.tima.pending_cycles = 0;
    memory.registers.inc_timer(8);
    assert_eq!(memory.registers.tima.value, 2);
    assert_eq!(memory.registers.tima.pending_cycles, 0);
    memory.registers.inc_timer(4);
    memory.registers.inc_timer(4);
    assert_eq!(memory.registers.tima.value, 4);
    memory.registers.inc_timer(255);
    assert_eq!(memory.registers.tima.value, 4 + 63);
    assert_eq!(memory.registers.tima.pending_cycles, 3);
    // disabled: nothing moves
    memory.write(0xFF07, 0b001);
    memory.registers.tima.value = 0xAB;
    memory.registers.inc_timer(200);
    assert_eq!(memory.registers.tima.value, 0xAB);
}

#[test]
fn palette_mapping() {
    let mut memory = test_memory();
    memory.write(0xFF47, 0b11_10_01_00);
    assert_eq!(memory.registers.map_palette_dmg(0), 0);
    assert_eq!(memory.registers.map_palette_dmg(1), 1);
    assert_eq!(memory.registers.map_palette_dmg(2), 2);
    assert_eq!(memory.registers.map_palette_dmg(3), 3);
}

#[test]
fn lcdc_and_audio_registers() {
    let mut memory = test_memory();
    memory.write(0xFF40, 0x91);
    assert!(memory.registers.lcdc.lcd_ppu_enable);
    assert!(memory.registers.lcdc.bg_window_data_area);
    assert!(memory.registers.lcdc.bg_window_priority_enabled);
    assert!(!memory.registers.lcdc.window_enable);
    memory.write(0xFF26, 0x80);
    assert!(memory.registers.nr52.audio_on);
    memory.write(0xFF25, 0xF3);
    assert!(memory.registers.nr51.ch4_right && memory.registers.nr51.ch1_left);
    assert!(!memory.registers.nr51.ch3_left);
    memory.write(0xFF24, 0x77);
    assert_eq!(memory.registers.nr50.right_speaker.0, 7);
    assert_eq!(memory.registers.nr50.left_speaker.0, 7);
}

#[test]
fn supported_accesses() {
    let memory = test_memory();
    assert!(memory.can_read(0x0000));
    assert!(memory.can_read(0x7FFF));
    assert!(memory.can_read(0xC000));
    assert!(!memory.can_read(0xE000));
    assert!(!memory.can_read(0xFE00));
    assert!(memory.can_read(0xFF44));
    assert!(!memory.can_read(0xFF40));
    assert!(!memory.can_read(0xFF50));
    assert!(memory.can_write(0xC000, 1));
    assert!(!memory.can_write(0x0100, 1));
    assert!(!memory.can_write(0xFF44, 1));
    assert!(memory.can_write(0xFF24, 0x77));
    assert!(!memory.can_write(0xFF24, 0x87));
    assert!(!memory.can_write(0xFF50, 1));
    assert!(memory.can_write(0xFE00, 1));
    assert!(!memory.can_write(0xA000, 1));
}
