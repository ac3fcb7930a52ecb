//! The cartridge and its header.
use vstd::prelude::*;

use vstd::arithmetic::power::lemma_pow0;
use vstd::arithmetic::power2::{lemma_pow2, lemma_pow2_strictly_increases, lemma_pow2_unfold, pow2};
use vstd::utf8::{decode_utf8, valid_utf8};

verus! {

/// Whether `c` has the Unicode White_Space property.
pub open spec fn is_white_space(c: char) -> bool {
    let v = c as u32;
    (0x09 <= v <= 0x0D) || v == 0x20 || v == 0x85 || v == 0xA0 || v == 0x1680 || (0x2000 <= v
        <= 0x200A) || v == 0x2028 || v == 0x2029 || v == 0x202F || v == 0x205F || v == 0x3000
}

/// `s` without its leading white space.
pub open spec fn trim_start(s: Seq<char>) -> Seq<char>
    decreases s.len(),
{
    if s.len() > 0 && is_white_space(s[0]) {
        trim_start(s.subrange(1, s.len() as int))
    } else {
        s
    }
}

/// `s` without its trailing white space.
pub open spec fn trim_end(s: Seq<char>) -> Seq<char>
    decreases s.len(),
{
    if s.len() > 0 && is_white_space(s.last()) {
        trim_end(s.drop_last())
    } else {
        s
    }
}

/// `s` without its leading and trailing white space.
pub open spec fn trimmed(s: Seq<char>) -> Seq<char> {
    trim_end(trim_start(s))
}

/// Decodes `bytes` as UTF-8 with `std::str::from_utf8`; the result is `Some` exactly when the
/// bytes are valid UTF-8, and then holds the characters that they encode.
#[verifier::external_body]
fn utf8_to_string(bytes: &[u8]) -> (r: Option<String>)
    ensures
        r is Some <==> valid_utf8(bytes@),
        r matches Some(s) ==> s@ == decode_utf8(bytes@),
{
    match std::str::from_utf8(bytes) {
        Ok(s) => Some(s.to_string()),
        Err(_) => None,
    }
}

/// `str::trim`: the string without leading and trailing white space (Unicode White_Space).
#[verifier::external_body]
fn trim_string(s: &String) -> (r: String)
    ensures
        r@ == trimmed(s@),
{
    s.trim().to_string()
}

/// `s` without its zero bytes.
pub open spec fn nonzero_bytes(s: Seq<u8>) -> Seq<u8>
    decreases s.len(),
{
    if s.len() == 0 {
        s
    } else {
        let r = nonzero_bytes(s.drop_last());
        if s.last() != 0 {
            r.push(s.last())
        } else {
            r
        }
    }
}

/// The end (exclusive) of the title: $0144, or $0143 when byte $0143 has bit 7 set and so is
/// the CGB flag rather than a title character.
pub open spec fn title_end(data: Seq<u8>) -> int {
    if data[0x143] >= 0x80 {
        0x143
    } else {
        0x144
    }
}

/// The title bytes of a header, from $0134 up to the title's end, without the zero padding.
pub open spec fn title_bytes(data: Seq<u8>) -> Seq<u8> {
    nonzero_bytes(data.subrange(0x134, title_end(data)))
}

/// The raw title bytes of a header, without the zero padding.
fn title_of(data: &[u8]) -> (r: Vec<u8>)
    requires
        data@.len() >= 0x150,
    ensures
        r@ == title_bytes(data@),
{
    let end: usize = if data[0x143] >= 0x80 {
        0x143
    } else {
        0x144
    };
    let mut title: Vec<u8> = Vec::new();
    let mut i: usize = 0x134;
    while i < end
        invariant
            data@.len() >= 0x150,
            end == title_end(data@),
            0x134 <= i <= end,
            title@ == nonzero_bytes(data@.subrange(0x134, i as int)),
        decreases end - i,
    {
        proof {
            assert(data@.subrange(0x134, i + 1).drop_last() =~= data@.subrange(0x134, i as int));
        }
        if data[i] != 0 {
            title.push(data[i]);
        }
        i = i + 1;
    }
    title
}

/// The header checksum as the boot ROM computes it over `bytes`:
/// checksum = checksum - byte - 1 for each byte, on 8 bits.
pub open spec fn checksum_of(bytes: Seq<u8>) -> u8
    decreases bytes.len(),
{
    if bytes.len() == 0 {
        0
    } else {
        ((checksum_of(bytes.drop_last()) - bytes.last() - 1) % 256) as u8
    }
}

/// In most cases, the ROM size is given by 32 KiB x (1 << <value>).
pub open spec fn rom_size_of(code: u8) -> int {
    (32768 * pow2(code as nat)) as int
}

/// Code   Type
/// $00    ROM ONLY
/// $13    MBC3+RAM+BATTERY
/// (the other codes are not supported)
#[derive(Debug, Clone, Copy, PartialEq, Eq, Structural)]
pub enum CartridgeType {
    RomOnly,
    Mbc3RamBattery,
}

impl CartridgeType {
    pub open spec fn of_code(value: u8) -> Option<CartridgeType> {
        if value == 0x00 {
            Some(CartridgeType::RomOnly)
        } else if value == 0x13 {
            Some(CartridgeType::Mbc3RamBattery)
        } else {
            None
        }
    }

    pub fn from_code(value: u8) -> (r: CartridgeType)
        requires
            CartridgeType::of_code(value) is Some,
        ensures
            Some(r) == CartridgeType::of_code(value),
    {
        if value == 0x00 {
            CartridgeType::RomOnly
        } else {
            CartridgeType::Mbc3RamBattery
        }
    }
}

/// Why a cartridge image is refused.
#[derive(Debug, Clone, Copy, PartialEq, Eq, Structural)]
pub enum CartridgeError {
    /// The image is too short to hold a header ($0100-$014F).
    TooShort,
    /// The title is not valid UTF-8.
    InvalidTitle,
    /// The CGB flag is $C0: the game works on CGB only.
    CgbOnly,
    /// The cartridge type code is not one that this emulator knows.
    UnsupportedCartridgeType(u8),
    /// Only ROM-only cartridges are supported.
    NotRomOnly,
    /// The ROM size code gives a size beyond the address space.
    RomSizeTooLarge(u8),
    /// Cartridge RAM is not implemented.
    RamNotSupported(u8),
}

/// The first reason why `data` is refused as a cartridge image, in the order in which the
/// header is checked; `None` when it is accepted.
pub open spec fn header_error(data: Seq<u8>) -> Option<CartridgeError> {
    if data.len() < 0x150 {
        Some(CartridgeError::TooShort)
    } else if !valid_utf8(title_bytes(data)) {
        Some(CartridgeError::InvalidTitle)
    } else if data[0x143] == 0xC0 {
        Some(CartridgeError::CgbOnly)
    } else if CartridgeType::of_code(data[0x147]) is None {
        Some(CartridgeError::UnsupportedCartridgeType(data[0x147]))
    } else if data[0x147] != 0 {
        Some(CartridgeError::NotRomOnly)
    } else if rom_size_of(data[0x148]) > usize::MAX {
        Some(CartridgeError::RomSizeTooLarge(data[0x148]))
    } else if data[0x149] != 0 {
        Some(CartridgeError::RamNotSupported(data[0x149]))
    } else {
        None
    }
}

/// Each cartridge contains a header, located at the address range $0100-$014F.
///
/// 0134-0143 - Title (up to 0142 when 0143 holds a CGB flag, bit 7 set)
/// 0143 - CGB flag ($80: CGB enhancements, backwards compatible; $C0: CGB only)
/// 0146 - SGB flag
/// 0147 - Cartridge type
/// 0148 - ROM size
/// 0149 - RAM size
/// 014D - Header checksum: an 8-bit checksum computed from the cartridge header bytes
///        $0134-014C: checksum = checksum - rom[address] - 1 for each address.
/// 014E-014F - Global checksum
#[derive(Debug)]
pub struct Header {
    pub _title: String,
    pub rom_size: usize,
    pub _checksum: u8,
    pub _cartridge_type: CartridgeType,
}

impl Header {
    /// The header that `data` describes, field by field.
    pub open spec fn describes(self, data: Seq<u8>) -> bool {
        &&& self._title@ == trimmed(decode_utf8(title_bytes(data)))
        &&& self.rom_size == rom_size_of(data[0x148])
        &&& self._checksum == checksum_of(data.subrange(0x134, 0x14D))
        &&& self._cartridge_type == CartridgeType::RomOnly
    }

    fn new(data: &[u8]) -> (r: Header)
        requires
            header_error(data@) is None,
        ensures
            r.describes(data@),
    {
        let title = title_of(data);
        let title = match utf8_to_string(title.as_slice()) {
            Some(s) => s,
            None => {
                proof {
                    assert(false);
                }
                String::new()
            },
        };
        let title = trim_string(&title);
        let cartridge_type = CartridgeType::from_code(data[0x147]);
        // In most cases, the ROM size is given by 32 KiB x (1 << <value>):
        let code = data[0x148] as usize;
        proof {
            lemma_pow0(2);
            lemma_pow2(0);
        }
        let mut rom_size: usize = 32 * 1024;
        let mut k: usize = 0;
        while k < code
            invariant
                data@.len() >= 0x150,
                k <= code,
                code == data@[0x148],
                rom_size_of(data@[0x148]) <= usize::MAX,
                rom_size == 32768 * pow2(k as nat),
            decreases code - k,
        {
            proof {
                lemma_pow2_unfold((k + 1) as nat);
                if k + 1 < code {
                    lemma_pow2_strictly_increases((k + 1) as nat, code as nat);
                }
            }
            rom_size = rom_size * 2;
            k = k + 1;
        }
        let mut checksum: u8 = 0;
        let mut j: usize = 0x134;
        while j <= 0x14C
            invariant
                data@.len() >= 0x150,
                0x134 <= j <= 0x14D,
                checksum == checksum_of(data@.subrange(0x134, j as int)),
            decreases 0x14D - j,
        {
            proof {
                assert(data@.subrange(0x134, j + 1).drop_last() =~= data@.subrange(0x134, j as int));
            }
            checksum = checksum.wrapping_sub(data[j]).wrapping_sub(1);
            j = j + 1;
        }
        Header { _title: title, _cartridge_type: cartridge_type, rom_size, _checksum: checksum }
    }
}

/// A cartridge image and its header.
pub struct Cartridge {
    pub data: Vec<u8>,
    pub header: Header,
}

impl Cartridge {
    /// The cartridge of image `data`; the header is the range $0100-$014F.
    pub fn new(data: Vec<u8>) -> (r: Cartridge)
        requires
            header_error(data@) is None,
        ensures
            r.data@ == data@,
            r.header.describes(data@),
    {
        let header = Header::new(data.as_slice());
        Cartridge { data, header }
    }

    /// The cartridge of image `data`, or the first reason why its header is refused.
    pub fn parse(data: Vec<u8>) -> (r: Result<Cartridge, CartridgeError>)
        ensures
            header_error(data@) is None ==> r is Ok && r.unwrap().data@ == data@
                && r.unwrap().header.describes(data@),
            header_error(data@) matches Some(e) ==> r == Err::<Cartridge, CartridgeError>(e),
    {
        if data.len() < 0x150 {
            return Err(CartridgeError::TooShort);
        }
        let title = title_of(data.as_slice());
        if utf8_to_string(title.as_slice()).is_none() {
            return Err(CartridgeError::InvalidTitle);
        }
        if data[0x143] == 0xC0 {
            return Err(CartridgeError::CgbOnly);
        }
        let cartridge_type = data[0x147];
        if cartridge_type != 0x00 && cartridge_type != 0x13 {
            return Err(CartridgeError::UnsupportedCartridgeType(cartridge_type));
        }
        if cartridge_type != 0x00 {
            return Err(CartridgeError::NotRomOnly);
        }
        let code = data[0x148];
        proof {
            lemma_pow0(2);
            lemma_pow2(0);
        }
        let mut size: usize = 32 * 1024;
        let mut k: u8 = 0;
        while k < code
            invariant
                data@.len() >= 0x150,
                valid_utf8(title_bytes(data@)),
                data@[0x143] != 0xC0,
                data@[0x147] == 0,
                code == data@[0x148],
                k <= code,
                size == rom_size_of(k),
            decreases code - k,
        {
            proof {
                lemma_pow2_unfold((k + 1) as nat);
            }
            match size.checked_mul(2) {
                Some(v) => {
                    size = v;
                },
                None => {
                    proof {
                        if k + 1 < code {
                            lemma_pow2_strictly_increases((k + 1) as nat, code as nat);
                        }
                        assert(rom_size_of((k + 1) as u8) > usize::MAX);
                        assert(rom_size_of(code) > usize::MAX);
                    }
                    return Err(CartridgeError::RomSizeTooLarge(code));
                },
            }
            k = k + 1;
        }
        if data[0x149] != 0 {
            return Err(CartridgeError::RamNotSupported(data[0x149]));
        }
        Ok(Cartridge::new(data))
    }
}

} // verus!

verus! {

/// The sum of the bytes of `s`.
pub open spec fn byte_total(s: Seq<u8>) -> int
    decreases s.len(),
{
    if s.len() == 0 {
        0
    } else {
        byte_total(s.drop_last()) + s.last()
    }
}

/// The header checksum of `bytes` is minus the sum of the bytes and of their count, on 8
/// bits: each byte takes itself and one more away from the running value.
pub proof fn lemma_checksum_closed_form(bytes: Seq<u8>)
    ensures
        checksum_of(bytes) as int == (0 - byte_total(bytes) - bytes.len()) % 256,
    decreases bytes.len(),
{
    if bytes.len() > 0 {
        lemma_checksum_closed_form(bytes.drop_last());
        let prev = 0 - byte_total(bytes.drop_last()) - bytes.drop_last().len();
        vstd::arithmetic::div_mod::lemma_add_mod_noop(prev, 0 - bytes.last() - 1, 256);
        vstd::arithmetic::div_mod::lemma_mod_twice(prev, 256);
        vstd::arithmetic::div_mod::lemma_add_mod_noop(prev % 256, 0 - bytes.last() - 1, 256);
    }
}

/// The ROM size is 32 KiB for code 0 and doubles with each step of the code.
pub proof fn lemma_rom_size_doubles(code: u8)
    ensures
        rom_size_of(0) == 32768,
        code < 255 ==> rom_size_of((code + 1) as u8) == 2 * rom_size_of(code),
{
    lemma_pow0(2);
    lemma_pow2(0);
    if code < 255 {
        lemma_pow2_unfold((code + 1) as nat);
    }
}

/// The title is read from $0134 up to $0143 included, unless byte $0143 has bit 7 set: it is
/// then the CGB flag and the title stops at $0142.
pub proof fn lemma_title_range(data: Seq<u8>)
    requires
        data.len() >= 0x150,
    ensures
        data[0x143] & 0x80u8 != 0u8 ==> title_bytes(data) == nonzero_bytes(data.subrange(0x134, 0x143)),
        data[0x143] & 0x80u8 == 0u8 ==> title_bytes(data) == nonzero_bytes(data.subrange(0x134, 0x144)),
{
    let b = data[0x143];
    assert((b & 0x80u8 != 0u8) == (b >= 0x80)) by (bit_vector);
}

} // verus!

verus! {

/// An image is accepted exactly when it holds a whole header ($0100-$014F), its title is
/// valid UTF-8, its CGB flag is not $C0, its cartridge type is $00 (ROM only), its ROM size
/// (32 KiB doubled code times) fits in `usize` and its RAM size code is $00; an accepted
/// header describes a ROM-only cartridge whose checksum is minus the sum of bytes
/// $0134-$014C and of their count (25), on 8 bits.
pub proof fn lemma_accepted_images(data: Seq<u8>, h: Header)
    ensures
        (header_error(data) is None) == (data.len() >= 0x150 && valid_utf8(title_bytes(data))
            && data[0x143] != 0xC0 && data[0x147] == 0 && rom_size_of(data[0x148]) <= usize::MAX
            && data[0x149] == 0),
        data.len() >= 0x150 && valid_utf8(title_bytes(data)) && data[0x143] == 0xC0 ==> header_error(
            data,
        ) == Some(CartridgeError::CgbOnly),
        data.len() >= 0x150 && valid_utf8(title_bytes(data)) && data[0x143] != 0xC0 && data[0x147]
            == 0x13 ==> header_error(data) == Some(CartridgeError::NotRomOnly),
        data.len() >= 0x150 && valid_utf8(title_bytes(data)) && data[0x143] != 0xC0 && data[0x147]
            != 0x13 && data[0x147] != 0 ==> header_error(data) == Some(
            CartridgeError::UnsupportedCartridgeType(data[0x147]),
        ),
        header_error(data) is None && h.describes(data) ==> h._cartridge_type
            == CartridgeType::RomOnly && h._checksum as int == (0 - byte_total(
            data.subrange(0x134, 0x14D),
        ) - 25) % 256,
{
    if header_error(data) is None && h.describes(data) {
        lemma_checksum_closed_form(data.subrange(0x134, 0x14D));
    }
}

} // verus!
