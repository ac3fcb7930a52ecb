use gbemu::cartridge::{Cartridge, CartridgeError, CartridgeType};

fn image_with_title(title: &[u8]) -> Vec<u8> {
    let mut data = vec![0u8; 0x8000];
    data[0x134..0x134 + title.len()].copy_from_slice(title);
    data
}

#[test]
fn header_fields() {
    let mut data = image_with_title(b"  TETRIS  ");
    data[0x148] = 0x01;
    let cartridge = Cartridge::parse(data.clone()).expect("supported");
    assert_eq!(cartridge.header._title, "TETRIS");
    assert_eq!(cartridge.header.rom_size, 64 * 1024);
    assert_eq!(cartridge.header._cartridge_type, CartridgeType::RomOnly);
    let mut checksum: u8 = 0;
    for v in &data[0x134..=0x14C] {
        checksum = checksum.wrapping_sub(*v).wrapping_sub(1);
    }
    assert_eq!(cartridge.header._checksum, checksum);
    assert_eq!(cartridge.data, data);
    let same = Cartridge::new(data);
    assert_eq!(same.header._title, "TETRIS");
}

#[test]
fn title_drops_zero_padding() {
    let data = image_with_title(b"AB\0\0CD");
    let cartridge = Cartridge::parse(data).expect("supported");
    assert_eq!(cartridge.header._title, "ABCD");
}

#[test]
fn checksum_of_zero_header() {
    let cartridge = Cartridge::parse(vec![0u8; 0x150]).expect("supported");
    // 25 bytes of zero: 0 - 25 * 1 = 231
    assert_eq!(cartridge.header._checksum, 231);
    assert_eq!(cartridge.header._title, "");
}

#[test]
fn too_short() {
    assert_eq!(Cartridge::parse(vec![0u8; 0x14F]).err(), Some(CartridgeError::TooShort));
}

#[test]
fn invalid_title() {
    let data = image_with_title(&[0xFF, 0xFE]);
    assert_eq!(Cartridge::parse(data).err(), Some(CartridgeError::InvalidTitle));
}

#[test]
fn cgb_only_flag_is_refused() {
    let mut data = image_with_title(b"GAME");
    data[0x143] = 0xC0;
    assert_eq!(Cartridge::parse(data).err(), Some(CartridgeError::CgbOnly));
}

#[test]
fn cgb_enhanced_flag_is_accepted() {
    // $80: CGB enhancements, backwards compatible; the flag is not part of the title
    let mut data = image_with_title(b"POKEMON YELLOW");
    data[0x143] = 0x80;
    let cartridge = Cartridge::parse(data).expect("supported");
    assert_eq!(cartridge.header._title, "POKEMON YELLOW");
    assert_eq!(cartridge.header.rom_size, 0x8000);
    assert_eq!(cartridge.header._cartridge_type, CartridgeType::RomOnly);
}

#[test]
fn sixteen_character_title_without_cgb_flag() {
    let data = image_with_title(b"ABCDEFGHIJKLMNOP");
    let cartridge = Cartridge::parse(data).expect("supported");
    assert_eq!(cartridge.header._title, "ABCDEFGHIJKLMNOP");
}

#[test]
fn cartridge_types() {
    let mut data = image_with_title(b"GAME");
    data[0x147] = 0x13;
    assert_eq!(Cartridge::parse(data.clone()).err(), Some(CartridgeError::NotRomOnly));
    data[0x147] = 0x01;
    assert_eq!(
        Cartridge::parse(data).err(),
        Some(CartridgeError::UnsupportedCartridgeType(0x01))
    );
    assert_eq!(CartridgeType::from_code(0x00), CartridgeType::RomOnly);
    assert_eq!(CartridgeType::from_code(0x13), CartridgeType::Mbc3RamBattery);
}

#[test]
fn rom_size_too_large() {
    let mut data = image_with_title(b"GAME");
    data[0x148] = 0xFF;
    assert_eq!(Cartridge::parse(data).err(), Some(CartridgeError::RomSizeTooLarge(0xFF)));
}

#[test]
fn ram_not_supported() {
    let mut data = image_with_title(b"GAME");
    data[0x149] = 0x02;
    assert_eq!(Cartridge::parse(data).err(), Some(CartridgeError::RamNotSupported(0x02)));
}
