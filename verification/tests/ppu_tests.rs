use gbemu::memory::Memory;
use gbemu::ppu::Ppu;
use gbemu::registers::StatMode;

fn test_memory() -> Memory {
    Memory::new(vec![0u8; 0x8000], Vec::new(), true)
}

#[test]
fn lcd_off_freezes_the_ppu() {
    let mut memory = test_memory();
    let mut ppu = Ppu::new();
    ppu.tick(&mut memory.registers, 100);
    assert_eq!(ppu.dot_counter, 0);
    assert_eq!(memory.registers.ly, 0);
    assert_eq!(memory.registers.stat.mode, StatMode::Hblank);
}

#[test]
fn modes_follow_the_dot_counter() {
    let mut memory = test_memory();
    memory.write(0xFF40, 0x80);
    let mut ppu = Ppu::new();
    ppu.tick(&mut memory.registers, 40);
    assert_eq!(memory.registers.stat.mode, StatMode::OamSearch);
    assert_eq!(ppu.dot_counter, 40);
    ppu.tick(&mut memory.registers, 50);
    assert_eq!(memory.registers.stat.mode, StatMode::LcdTransfer);
    assert_eq!(ppu.dot_counter, 90);
    ppu.tick(&mut memory.registers, 200);
    assert_eq!(memory.registers.stat.mode, StatMode::Hblank);
    assert_eq!(ppu.dot_counter, 290);
    ppu.tick(&mut memory.registers, 166);
    assert_eq!(ppu.dot_counter, 0);
    assert_eq!(memory.registers.ly, 1);
    assert_eq!(memory.registers.stat.mode, StatMode::OamSearch);
}

#[test]
fn stat_shows_the_mode_of_the_current_dot() {
    let mut memory = test_memory();
    memory.write(0xFF40, 0x80);
    let mut ppu = Ppu::new();
    ppu.tick(&mut memory.registers, 79);
    assert_eq!(ppu.dot_counter, 79);
    assert_eq!(memory.registers.stat.mode, StatMode::OamSearch);
    ppu.tick(&mut memory.registers, 1);
    assert_eq!(ppu.dot_counter, 80);
    assert_eq!(memory.registers.stat.mode, StatMode::LcdTransfer);
    ppu.tick(&mut memory.registers, 171);
    assert_eq!(ppu.dot_counter, 251);
    assert_eq!(memory.registers.stat.mode, StatMode::LcdTransfer);
    ppu.tick(&mut memory.registers, 1);
    assert_eq!(memory.registers.stat.mode, StatMode::Hblank);
    let mut memory = test_memory();
    memory.write(0xFF40, 0x80);
    let mut ppu = Ppu::new();
    ppu.tick(&mut memory.registers, 80);
    assert_eq!(ppu.dot_counter, 80);
    assert_eq!(memory.registers.stat.mode, StatMode::LcdTransfer);
}

#[test]
fn hblank_entry_requests_stat_interrupt() {
    let mut memory = test_memory();
    // HBlank STAT interrupt enabled
    memory.write(0xFF41, 0x08);
    memory.write(0xFF40, 0x80);
    let mut ppu = Ppu::new();
    ppu.tick(&mut memory.registers, 251);
    assert_eq!(memory.read(0xFF0F) & 0x02, 0);
    ppu.tick(&mut memory.registers, 1);
    assert_eq!(memory.read(0xFF0F) & 0x02, 0x02);
}

#[test]
fn position_advances_by_the_cycles_ticked() {
    let mut memory = test_memory();
    memory.write(0xFF40, 0x80);
    let mut ppu = Ppu::new();
    let mut total: u64 = 0;
    for k in 0..2000u64 {
        let n = (k * 37 % 256) as u8;
        ppu.tick(&mut memory.registers, n);
        total += n as u64;
        let pos = memory.registers.ly as u64 * 456 + ppu.dot_counter as u64;
        assert_eq!(pos, total % (154 * 456));
    }
}

#[test]
fn ticks_compose() {
    let mut m1 = test_memory();
    let mut m2 = test_memory();
    m1.write(0xFF40, 0x80);
    m2.write(0xFF40, 0x80);
    let mut p1 = Ppu::new();
    let mut p2 = Ppu::new();
    for _ in 0..456 {
        p1.tick(&mut m1.registers, 4);
    }
    for _ in 0..(456 * 4 / 24) {
        p2.tick(&mut m2.registers, 24);
    }
    assert_eq!(p1.dot_counter, p2.dot_counter);
    assert_eq!(m1.registers.ly, m2.registers.ly);
    assert_eq!(m1.registers.ly, 4);
    assert_eq!(m1.registers.stat.mode, m2.registers.stat.mode);
}

#[test]
fn vblank_at_line_144() {
    let mut memory = test_memory();
    memory.write(0xFFFF, 0x03);
    memory.write(0xFF41, 0x10);
    memory.write(0xFF40, 0x80);
    let mut ppu = Ppu::new();
    for _ in 0..(144 * 456 / 8) {
        ppu.tick(&mut memory.registers, 8);
    }
    assert_eq!(memory.registers.ly, 144);
    assert_eq!(memory.registers.stat.mode, StatMode::Vblank);
    assert!(ppu.frame_ready);
    assert_eq!(memory.read(0xFF0F) & 0x03, 0x03);
    // the frame wraps after line 153
    for _ in 0..(10 * 456 / 8) {
        ppu.tick(&mut memory.registers, 8);
    }
    assert_eq!(memory.registers.ly, 0);
    assert_eq!(memory.registers.stat.mode, StatMode::OamSearch);
}

#[test]
fn ly_stays_in_range() {
    let mut memory = test_memory();
    memory.write(0xFF40, 0x80);
    let mut ppu = Ppu::new();
    for _ in 0..100_000 {
        ppu.tick(&mut memory.registers, 255);
        assert!(memory.registers.ly <= 153);
        assert!(ppu.dot_counter < 456);
    }
}

#[test]
fn draw_frame_only_when_ready() {
    let mut memory = test_memory();
    let mut ppu = Ppu::new();
    assert!(ppu.draw_frame(&memory).is_none());
    memory.write(0xFF40, 0x80);
    for _ in 0..(144 * 456 / 8) {
        ppu.tick(&mut memory.registers, 8);
    }
    assert!(ppu.frame_ready);
    let frame = ppu.draw_frame(&memory).expect("frame");
    assert_eq!(frame.len(), 480 * 432 * 4);
    assert_eq!(&frame[0..4], &[0, 0, 0, 255]);
    assert!(!ppu.frame_ready);
    assert!(ppu.draw_frame(&memory).is_none());
}

#[test]
fn background_decoding() {
    let mut memory = test_memory();
    // tile 1 at 0x8010: row 0 = lo 0xF0, hi 0x0F -> colors 1,1,1,1,2,2,2,2
    memory.write(0x8010, 0xF0);
    memory.write(0x8011, 0x0F);
    // BG map 0 (0x9800): first tile is tile 1
    memory.write(0x9800, 0x01);
    // identity palette
    memory.write(0xFF47, 0b11_10_01_00);
    // LCD on, BG on, unsigned tile data
    memory.write(0xFF40, 0x91);
    let frame = memory.decode_framebuffer();
    assert_eq!(frame.len(), 160 * 144);
    assert_eq!(&frame[0..8], &[1, 1, 1, 1, 2, 2, 2, 2]);
    assert_eq!(frame[8], 0);
    // row 1 of tile 1 is zero
    assert_eq!(frame[160], 0);
    // scrolled by 4
    memory.write(0xFF43, 4);
    let frame = memory.decode_framebuffer();
    assert_eq!(&frame[0..4], &[2, 2, 2, 2]);
    // wraps around at 256
    memory.write(0xFF43, 252);
    let frame = memory.decode_framebuffer();
    assert_eq!(&frame[4..8], &[1, 1, 1, 1]);
}

#[test]
fn window_covers_the_background() {
    let mut memory = test_memory();
    memory.write(0x8010, 0xFF);
    memory.write(0x8011, 0xFF);
    // window map at 0x9C00 (LCDC bit 6)
    memory.write(0x9C00, 0x01);
    memory.write(0xFF47, 0b11_10_01_00);
    memory.write(0xFF4A, 0);
    memory.write(0xFF4B, 7 + 80);
    memory.write(0xFF40, 0x80 | 0x40 | 0x20 | 0x10 | 0x01);
    let frame = memory.decode_framebuffer();
    assert_eq!(frame[79], 0);
    assert_eq!(&frame[80..88], &[3; 8]);
    assert_eq!(frame[88], 0);
    // window line 8 shows the second row of the window map, tile 0
    assert_eq!(frame[160 * 8 + 80], 0);
}

#[test]
fn window_starts_at_row_wy() {
    let mut memory = test_memory();
    // tile 1: every pixel color 3
    for a in 0x8010..0x8020u16 {
        memory.write(a, 0xFF);
    }
    memory.write(0x9C00, 0x01);
    memory.write(0xFF47, 0b11_10_01_00);
    memory.write(0xFF4A, 50);
    memory.write(0xFF4B, 7 + 80);
    memory.write(0xFF40, 0x80 | 0x40 | 0x20 | 0x10 | 0x01);
    let frame = memory.decode_framebuffer();
    // rows above WY show the background
    assert_eq!(frame[160 * 49 + 80], 0);
    // row WY is window line 0
    assert_eq!(&frame[160 * 50 + 80..160 * 50 + 88], &[3; 8]);
    assert_eq!(frame[160 * 57 + 80], 3);
    assert_eq!(frame[160 * 58 + 80], 0);
    // the LY register does not change the frame
    memory.registers.ly = 100;
    assert_eq!(memory.decode_framebuffer(), frame);
}

#[test]
fn lcd_off_gives_white() {
    let mut memory = test_memory();
    memory.write(0x8000, 0xFF);
    memory.write(0xFF47, 0xFF);
    memory.write(0xFF40, 0x11);
    let frame = memory.decode_framebuffer();
    assert!(frame.iter().all(|&s| s == 0));
}

#[test]
fn scaled_frame_repeats_each_pixel() {
    let mut memory = test_memory();
    memory.write(0x8010, 0xF0);
    memory.write(0x8011, 0x0F);
    memory.write(0x9800, 0x01);
    memory.write(0xFF47, 0b11_10_01_00);
    memory.write(0xFF40, 0x91);
    let mut ppu = Ppu::new();
    for _ in 0..(144 * 456 / 8) {
        ppu.tick(&mut memory.registers, 8);
    }
    let frame = ppu.draw_frame(&memory).expect("frame");
    let at = |row: usize, x: usize, c: usize| frame[(row * 480 + x) * 4 + c];
    for row in 0..3 {
        for x in 0..12 {
            assert_eq!(at(row, x, 0), 1);
            assert_eq!(at(row, x, 1), 1);
            assert_eq!(at(row, x, 2), 1);
            assert_eq!(at(row, x, 3), 255);
        }
        for x in 12..24 {
            assert_eq!(at(row, x, 0), 2);
        }
        assert_eq!(at(row, 24, 0), 0);
    }
    // source row 1 of the tile is blank
    assert_eq!(at(3, 0, 0), 0);
}
