//! The legacy single-byte codepage, mapped to Unicode scalars.

use vstd::prelude::*;

verus! {

/// The Unicode scalar that legacy byte `b` stands for. Bytes below `0x80`
/// keep their scalar value, except `0x11`..`0x14`, which carry the classic
/// keyboard glyphs; bytes `0x80` and above carry the accented letters,
/// symbols and ligatures of the legacy codepage.
pub open spec fn spec_mac_roman_char(b: u8) -> char {
    if b == 0x11 {
        '\u{2318}'
    } else if b == 0x12 {
        '\u{21E7}'
    } else if b == 0x13 {
        '\u{2325}'
    } else if b == 0x14 {
        '\u{2303}'
    } else if b < 0x80 {
        b as char
    } else {
        spec_mac_roman_char_high(b)
    }
}

/// The Unicode scalar for a legacy byte `0x80` or above.
pub open spec fn spec_mac_roman_char_high(b: u8) -> char {
    match b {
        0x80 => '\u{00C4}',
        0x81 => '\u{00C5}',
        0x82 => '\u{00C7}',
        0x83 => '\u{00C9}',
        0x84 => '\u{00D1}',
        0x85 => '\u{00D6}',
        0x86 => '\u{00DC}',
        0x87 => '\u{00E1}',
        0x88 => '\u{00E0}',
        0x89 => '\u{00E2}',
        0x8A => '\u{00E4}',
        0x8B => '\u{00E3}',
        0x8C => '\u{00E5}',
        0x8D => '\u{00E7}',
        0x8E => '\u{00E9}',
        0x8F => '\u{00E8}',
        0x90 => '\u{00EA}',
        0x91 => '\u{00EB}',
        0x92 => '\u{00ED}',
        0x93 => '\u{00EC}',
        0x94 => '\u{00EE}',
        0x95 => '\u{00EF}',
        0x96 => '\u{00F1}',
        0x97 => '\u{00F3}',
        0x98 => '\u{00F2}',
        0x99 => '\u{00F4}',
        0x9A => '\u{00F6}',
        0x9B => '\u{00F5}',
        0x9C => '\u{00FA}',
        0x9D => '\u{00F9}',
        0x9E => '\u{00FB}',
        0x9F => '\u{00FC}',
        0xA0 => '\u{2020}',
        0xA1 => '\u{00B0}',
        0xA2 => '\u{00A2}',
        0xA3 => '\u{00A3}',
        0xA4 => '\u{00A7}',
        0xA5 => '\u{2022}',
        0xA6 => '\u{00B6}',
        0xA7 => '\u{00DF}',
        0xA8 => '\u{00AE}',
        0xA9 => '\u{00A9}',
        0xAA => '\u{2122}',
        0xAB => '\u{00B4}',
        0xAC => '\u{00A8}',
        0xAD => '\u{2260}',
        0xAE => '\u{00C6}',
        0xAF => '\u{00D8}',
        0xB0 => '\u{221E}',
        0xB1 => '\u{00B1}',
        0xB2 => '\u{2264}',
        0xB3 => '\u{2265}',
        0xB4 => '\u{00A5}',
        0xB5 => '\u{00B5}',
        0xB6 => '\u{2202}',
        0xB7 => '\u{2211}',
        0xB8 => '\u{220F}',
        0xB9 => '\u{03C0}',
        0xBA => '\u{222B}',
        0xBB => '\u{00AA}',
        0xBC => '\u{00BA}',
        0xBD => '\u{03A9}',
        0xBE => '\u{00E6}',
        0xBF => '\u{00F8}',
        0xC0 => '\u{00BF}',
        0xC1 => '\u{00A1}',
        0xC2 => '\u{00AC}',
        0xC3 => '\u{221A}',
        0xC4 => '\u{0192}',
        0xC5 => '\u{2248}',
        0xC6 => '\u{2206}',
        0xC7 => '\u{00AB}',
        0xC8 => '\u{00BB}',
        0xC9 => '\u{2026}',
        0xCA => '\u{00A0}',
        0xCB => '\u{00C0}',
        0xCC => '\u{00C3}',
        0xCD => '\u{00D5}',
        0xCE => '\u{0152}',
        0xCF => '\u{0153}',
        0xD0 => '\u{2013}',
        0xD1 => '\u{2014}',
        0xD2 => '\u{201C}',
        0xD3 => '\u{201D}',
        0xD4 => '\u{2018}',
        0xD5 => '\u{2019}',
        0xD6 => '\u{00F7}',
        0xD7 => '\u{25CA}',
        0xD8 => '\u{00FF}',
        0xD9 => '\u{0178}',
        0xDA => '\u{2044}',
        0xDB => '\u{20AC}',
        0xDC => '\u{2039}',
        0xDD => '\u{203A}',
        0xDE => '\u{FB01}',
        0xDF => '\u{FB02}',
        0xE0 => '\u{2021}',
        0xE1 => '\u{00B7}',
        0xE2 => '\u{201A}',
        0xE3 => '\u{201E}',
        0xE4 => '\u{2030}',
        0xE5 => '\u{00C2}',
        0xE6 => '\u{00CA}',
        0xE7 => '\u{00C1}',
        0xE8 => '\u{00CB}',
        0xE9 => '\u{00C8}',
        0xEA => '\u{00CD}',
        0xEB => '\u{00CE}',
        0xEC => '\u{00CF}',
        0xED => '\u{00CC}',
        0xEE => '\u{00D3}',
        0xEF => '\u{00D4}',
        0xF0 => '\u{F8FF}',
        0xF1 => '\u{00D2}',
        0xF2 => '\u{00DA}',
        0xF3 => '\u{00DB}',
        0xF4 => '\u{00D9}',
        0xF5 => '\u{0131}',
        0xF6 => '\u{02C6}',
        0xF7 => '\u{02DC}',
        0xF8 => '\u{00AF}',
        0xF9 => '\u{02D8}',
        0xFA => '\u{02D9}',
        0xFB => '\u{02DA}',
        0xFC => '\u{00B8}',
        0xFD => '\u{02DD}',
        0xFE => '\u{02DB}',
        0xFF => '\u{02C7}',
        _ => '\u{0000}',
    }
}

/// The legacy byte a Unicode scalar decodes from, for scalars in the image
/// of the codepage; `0` elsewhere. Witness that the codepage is injective.
pub open spec fn spec_mac_roman_byte(c: char) -> u8 {
    match c {
        '\u{0000}' => 0x00,
        '\u{0001}' => 0x01,
        '\u{0002}' => 0x02,
        '\u{0003}' => 0x03,
        '\u{0004}' => 0x04,
        '\u{0005}' => 0x05,
        '\u{0006}' => 0x06,
        '\u{0007}' => 0x07,
        '\u{0008}' => 0x08,
        '\u{0009}' => 0x09,
        '\u{000A}' => 0x0A,
        '\u{000B}' => 0x0B,
        '\u{000C}' => 0x0C,
        '\u{000D}' => 0x0D,
        '\u{000E}' => 0x0E,
        '\u{000F}' => 0x0F,
        '\u{0010}' => 0x10,
        '\u{2318}' => 0x11,
        '\u{21E7}' => 0x12,
        '\u{2325}' => 0x13,
        '\u{2303}' => 0x14,
        '\u{0015}' => 0x15,
        '\u{0016}' => 0x16,
        '\u{0017}' => 0x17,
        '\u{0018}' => 0x18,
        '\u{0019}' => 0x19,
        '\u{001A}' => 0x1A,
        '\u{001B}' => 0x1B,
        '\u{001C}' => 0x1C,
        '\u{001D}' => 0x1D,
        '\u{001E}' => 0x1E,
        '\u{001F}' => 0x1F,
        '\u{0020}' => 0x20,
        '\u{0021}' => 0x21,
        '\u{0022}' => 0x22,
        '\u{0023}' => 0x23,
        '\u{0024}' => 0x24,
        '\u{0025}' => 0x25,
        '\u{0026}' => 0x26,
        '\u{0027}' => 0x27,
        '\u{0028}' => 0x28,
        '\u{0029}' => 0x29,
        '\u{002A}' => 0x2A,
        '\u{002B}' => 0x2B,
        '\u{002C}' => 0x2C,
        '\u{002D}' => 0x2D,
        '\u{002E}' => 0x2E,
        '\u{002F}' => 0x2F,
        '\u{0030}' => 0x30,
        '\u{0031}' => 0x31,
        '\u{0032}' => 0x32,
        '\u{0033}' => 0x33,
        '\u{0034}' => 0x34,
        '\u{0035}' => 0x35,
        '\u{0036}' => 0x36,
        '\u{0037}' => 0x37,
        '\u{0038}' => 0x38,
        '\u{0039}' => 0x39,
        '\u{003A}' => 0x3A,
        '\u{003B}' => 0x3B,
        '\u{003C}' => 0x3C,
        '\u{003D}' => 0x3D,
        '\u{003E}' => 0x3E,
        '\u{003F}' => 0x3F,
        '\u{0040}' => 0x40,
        '\u{0041}' => 0x41,
        '\u{0042}' => 0x42,
        '\u{0043}' => 0x43,
        '\u{0044}' => 0x44,
        '\u{0045}' => 0x45,
        '\u{0046}' => 0x46,
        '\u{0047}' => 0x47,
        '\u{0048}' => 0x48,
        '\u{0049}' => 0x49,
        '\u{004A}' => 0x4A,
        '\u{004B}' => 0x4B,
        '\u{004C}' => 0x4C,
        '\u{004D}' => 0x4D,
        '\u{004E}' => 0x4E,
        '\u{004F}' => 0x4F,
        '\u{0050}' => 0x50,
        '\u{0051}' => 0x51,
        '\u{0052}' => 0x52,
        '\u{0053}' => 0x53,
        '\u{0054}' => 0x54,
        '\u{0055}' => 0x55,
        '\u{0056}' => 0x56,
        '\u{0057}' => 0x57,
        '\u{0058}' => 0x58,
        '\u{0059}' => 0x59,
        '\u{005A}' => 0x5A,
        '\u{005B}' => 0x5B,
        '\u{005C}' => 0x5C,
        '\u{005D}' => 0x5D,
        '\u{005E}' => 0x5E,
        '\u{005F}' => 0x5F,
        '\u{0060}' => 0x60,
        '\u{0061}' => 0x61,
        '\u{0062}' => 0x62,
        '\u{0063}' => 0x63,
        '\u{0064}' => 0x64,
        '\u{0065}' => 0x65,
        '\u{0066}' => 0x66,
        '\u{0067}' => 0x67,
        '\u{0068}' => 0x68,
        '\u{0069}' => 0x69,
        '\u{006A}' => 0x6A,
        '\u{006B}' => 0x6B,
        '\u{006C}' => 0x6C,
        '\u{006D}' => 0x6D,
        '\u{006E}' => 0x6E,
        '\u{006F}' => 0x6F,
        '\u{0070}' => 0x70,
        '\u{0071}' => 0x71,
        '\u{0072}' => 0x72,
        '\u{0073}' => 0x73,
        '\u{0074}' => 0x74,
        '\u{0075}' => 0x75,
        '\u{0076}' => 0x76,
        '\u{0077}' => 0x77,
        '\u{0078}' => 0x78,
        '\u{0079}' => 0x79,
        '\u{007A}' => 0x7A,
        '\u{007B}' => 0x7B,
        '\u{007C}' => 0x7C,
        '\u{007D}' => 0x7D,
        '\u{007E}' => 0x7E,
        '\u{007F}' => 0x7F,
        '\u{00C4}' => 0x80,
        '\u{00C5}' => 0x81,
        '\u{00C7}' => 0x82,
        '\u{00C9}' => 0x83,
        '\u{00D1}' => 0x84,
        '\u{00D6}' => 0x85,
        '\u{00DC}' => 0x86,
        '\u{00E1}' => 0x87,
        '\u{00E0}' => 0x88,
        '\u{00E2}' => 0x89,
        '\u{00E4}' => 0x8A,
        '\u{00E3}' => 0x8B,
        '\u{00E5}' => 0x8C,
        '\u{00E7}' => 0x8D,
        '\u{00E9}' => 0x8E,
        '\u{00E8}' => 0x8F,
        '\u{00EA}' => 0x90,
        '\u{00EB}' => 0x91,
        '\u{00ED}' => 0x92,
        '\u{00EC}' => 0x93,
        '\u{00EE}' => 0x94,
        '\u{00EF}' => 0x95,
        '\u{00F1}' => 0x96,
        '\u{00F3}' => 0x97,
        '\u{00F2}' => 0x98,
        '\u{00F4}' => 0x99,
        '\u{00F6}' => 0x9A,
        '\u{00F5}' => 0x9B,
        '\u{00FA}' => 0x9C,
        '\u{00F9}' => 0x9D,
        '\u{00FB}' => 0x9E,
        '\u{00FC}' => 0x9F,
        '\u{2020}' => 0xA0,
        '\u{00B0}' => 0xA1,
        '\u{00A2}' => 0xA2,
        '\u{00A3}' => 0xA3,
        '\u{00A7}' => 0xA4,
        '\u{2022}' => 0xA5,
        '\u{00B6}' => 0xA6,
        '\u{00DF}' => 0xA7,
        '\u{00AE}' => 0xA8,
        '\u{00A9}' => 0xA9,
        '\u{2122}' => 0xAA,
        '\u{00B4}' => 0xAB,
        '\u{00A8}' => 0xAC,
        '\u{2260}' => 0xAD,
        '\u{00C6}' => 0xAE,
        '\u{00D8}' => 0xAF,
        '\u{221E}' => 0xB0,
        '\u{00B1}' => 0xB1,
        '\u{2264}' => 0xB2,
        '\u{2265}' => 0xB3,
        '\u{00A5}' => 0xB4,
        '\u{00B5}' => 0xB5,
        '\u{2202}' => 0xB6,
        '\u{2211}' => 0xB7,
        '\u{220F}' => 0xB8,
        '\u{03C0}' => 0xB9,
        '\u{222B}' => 0xBA,
        '\u{00AA}' => 0xBB,
        '\u{00BA}' => 0xBC,
        '\u{03A9}' => 0xBD,
        '\u{00E6}' => 0xBE,
        '\u{00F8}' => 0xBF,
        '\u{00BF}' => 0xC0,
        '\u{00A1}' => 0xC1,
        '\u{00AC}' => 0xC2,
        '\u{221A}' => 0xC3,
        '\u{0192}' => 0xC4,
        '\u{2248}' => 0xC5,
        '\u{2206}' => 0xC6,
        '\u{00AB}' => 0xC7,
        '\u{00BB}' => 0xC8,
        '\u{2026}' => 0xC9,
        '\u{00A0}' => 0xCA,
        '\u{00C0}' => 0xCB,
        '\u{00C3}' => 0xCC,
        '\u{00D5}' => 0xCD,
        '\u{0152}' => 0xCE,
        '\u{0153}' => 0xCF,
        '\u{2013}' => 0xD0,
        '\u{2014}' => 0xD1,
        '\u{201C}' => 0xD2,
        '\u{201D}' => 0xD3,
        '\u{2018}' => 0xD4,
        '\u{2019}' => 0xD5,
        '\u{00F7}' => 0xD6,
        '\u{25CA}' => 0xD7,
        '\u{00FF}' => 0xD8,
        '\u{0178}' => 0xD9,
        '\u{2044}' => 0xDA,
        '\u{20AC}' => 0xDB,
        '\u{2039}' => 0xDC,
        '\u{203A}' => 0xDD,
        '\u{FB01}' => 0xDE,
        '\u{FB02}' => 0xDF,
        '\u{2021}' => 0xE0,
        '\u{00B7}' => 0xE1,
        '\u{201A}' => 0xE2,
        '\u{201E}' => 0xE3,
        '\u{2030}' => 0xE4,
        '\u{00C2}' => 0xE5,
        '\u{00CA}' => 0xE6,
        '\u{00C1}' => 0xE7,
        '\u{00CB}' => 0xE8,
        '\u{00C8}' => 0xE9,
        '\u{00CD}' => 0xEA,
        '\u{00CE}' => 0xEB,
        '\u{00CF}' => 0xEC,
        '\u{00CC}' => 0xED,
        '\u{00D3}' => 0xEE,
        '\u{00D4}' => 0xEF,
        '\u{F8FF}' => 0xF0,
        '\u{00D2}' => 0xF1,
        '\u{00DA}' => 0xF2,
        '\u{00DB}' => 0xF3,
        '\u{00D9}' => 0xF4,
        '\u{0131}' => 0xF5,
        '\u{02C6}' => 0xF6,
        '\u{02DC}' => 0xF7,
        '\u{00AF}' => 0xF8,
        '\u{02D8}' => 0xF9,
        '\u{02D9}' => 0xFA,
        '\u{02DA}' => 0xFB,
        '\u{00B8}' => 0xFC,
        '\u{02DD}' => 0xFD,
        '\u{02DB}' => 0xFE,
        '\u{02C7}' => 0xFF,
        _ => 0,
    }
}

/// Translates one legacy byte to its Unicode scalar.
pub fn mac_roman_char(b: u8) -> (c: char)
    ensures
        c == spec_mac_roman_char(b),
{
    if b == 0x11 {
        '\u{2318}'
    } else if b == 0x12 {
        '\u{21E7}'
    } else if b == 0x13 {
        '\u{2325}'
    } else if b == 0x14 {
        '\u{2303}'
    } else if b < 0x80 {
        b as char
    } else {
        match b {
        0x80 => '\u{00C4}',
        0x81 => '\u{00C5}',
        0x82 => '\u{00C7}',
        0x83 => '\u{00C9}',
        0x84 => '\u{00D1}',
        0x85 => '\u{00D6}',
        0x86 => '\u{00DC}',
        0x87 => '\u{00E1}',
        0x88 => '\u{00E0}',
        0x89 => '\u{00E2}',
        0x8A => '\u{00E4}',
        0x8B => '\u{00E3}',
        0x8C => '\u{00E5}',
        0x8D => '\u{00E7}',
        0x8E => '\u{00E9}',
        0x8F => '\u{00E8}',
        0x90 => '\u{00EA}',
        0x91 => '\u{00EB}',
        0x92 => '\u{00ED}',
        0x93 => '\u{00EC}',
        0x94 => '\u{00EE}',
        0x95 => '\u{00EF}',
        0x96 => '\u{00F1}',
        0x97 => '\u{00F3}',
        0x98 => '\u{00F2}',
        0x99 => '\u{00F4}',
        0x9A => '\u{00F6}',
        0x9B => '\u{00F5}',
        0x9C => '\u{00FA}',
        0x9D => '\u{00F9}',
        0x9E => '\u{00FB}',
        0x9F => '\u{00FC}',
        0xA0 => '\u{2020}',
        0xA1 => '\u{00B0}',
        0xA2 => '\u{00A2}',
        0xA3 => '\u{00A3}',
        0xA4 => '\u{00A7}',
        0xA5 => '\u{2022}',
        0xA6 => '\u{00B6}',
        0xA7 => '\u{00DF}',
        0xA8 => '\u{00AE}',
        0xA9 => '\u{00A9}',
        0xAA => '\u{2122}',
        0xAB => '\u{00B4}',
        0xAC => '\u{00A8}',
        0xAD => '\u{2260}',
        0xAE => '\u{00C6}',
        0xAF => '\u{00D8}',
        0xB0 => '\u{221E}',
        0xB1 => '\u{00B1}',
        0xB2 => '\u{2264}',
        0xB3 => '\u{2265}',
        0xB4 => '\u{00A5}',
        0xB5 => '\u{00B5}',
        0xB6 => '\u{2202}',
        0xB7 => '\u{2211}',
        0xB8 => '\u{220F}',
        0xB9 => '\u{03C0}',
        0xBA => '\u{222B}',
        0xBB => '\u{00AA}',
        0xBC => '\u{00BA}',
        0xBD => '\u{03A9}',
        0xBE => '\u{00E6}',
        0xBF => '\u{00F8}',
        0xC0 => '\u{00BF}',
        0xC1 => '\u{00A1}',
        0xC2 => '\u{00AC}',
        0xC3 => '\u{221A}',
        0xC4 => '\u{0192}',
        0xC5 => '\u{2248}',
        0xC6 => '\u{2206}',
        0xC7 => '\u{00AB}',
        0xC8 => '\u{00BB}',
        0xC9 => '\u{2026}',
        0xCA => '\u{00A0}',
        0xCB => '\u{00C0}',
        0xCC => '\u{00C3}',
        0xCD => '\u{00D5}',
        0xCE => '\u{0152}',
        0xCF => '\u{0153}',
        0xD0 => '\u{2013}',
        0xD1 => '\u{2014}',
        0xD2 => '\u{201C}',
        0xD3 => '\u{201D}',
        0xD4 => '\u{2018}',
        0xD5 => '\u{2019}',
        0xD6 => '\u{00F7}',
        0xD7 => '\u{25CA}',
        0xD8 => '\u{00FF}',
        0xD9 => '\u{0178}',
        0xDA => '\u{2044}',
        0xDB => '\u{20AC}',
        0xDC => '\u{2039}',
        0xDD => '\u{203A}',
        0xDE => '\u{FB01}',
        0xDF => '\u{FB02}',
        0xE0 => '\u{2021}',
        0xE1 => '\u{00B7}',
        0xE2 => '\u{201A}',
        0xE3 => '\u{201E}',
        0xE4 => '\u{2030}',
        0xE5 => '\u{00C2}',
        0xE6 => '\u{00CA}',
        0xE7 => '\u{00C1}',
        0xE8 => '\u{00CB}',
        0xE9 => '\u{00C8}',
        0xEA => '\u{00CD}',
        0xEB => '\u{00CE}',
        0xEC => '\u{00CF}',
        0xED => '\u{00CC}',
        0xEE => '\u{00D3}',
        0xEF => '\u{00D4}',
        0xF0 => '\u{F8FF}',
        0xF1 => '\u{00D2}',
        0xF2 => '\u{00DA}',
        0xF3 => '\u{00DB}',
        0xF4 => '\u{00D9}',
        0xF5 => '\u{0131}',
        0xF6 => '\u{02C6}',
        0xF7 => '\u{02DC}',
        0xF8 => '\u{00AF}',
        0xF9 => '\u{02D8}',
        0xFA => '\u{02D9}',
        0xFB => '\u{02DA}',
        0xFC => '\u{00B8}',
        0xFD => '\u{02DD}',
        0xFE => '\u{02DB}',
        0xFF => '\u{02C7}',
            _ => '\u{0000}',
        }
    }
}

/// Decoding a legacy byte and reading the byte back off the scalar returns
/// the byte: the codepage has a two-sided inverse on its image.
pub proof fn lemma_mac_roman_byte_inverts(b: u8)
    ensures
        spec_mac_roman_byte(spec_mac_roman_char(b)) == b,
{
}

/// The codepage maps distinct bytes to distinct Unicode scalars.
pub proof fn lemma_mac_roman_injective()
    ensures
        forall|b1: u8, b2: u8|
            b1 != b2 ==> spec_mac_roman_char(b1) != spec_mac_roman_char(b2),
{
    assert forall|b1: u8, b2: u8| b1 != b2 implies spec_mac_roman_char(b1)
        != spec_mac_roman_char(b2) by {
        lemma_mac_roman_byte_inverts(b1);
        lemma_mac_roman_byte_inverts(b2);
    }
}

/// The decoding of every byte of `s`, in order.
pub open spec fn spec_fixed_decoded(s: Seq<u8>) -> Seq<char> {
    s.map_values(|b: u8| spec_mac_roman_char(b))
}

/// The decoding of a length-prefixed legacy string: byte 0 holds the length
/// `n`, bytes `1..=n` hold the content.
pub open spec fn spec_pascal_decoded(s: Seq<u8>) -> Seq<char>
    recommends
        s.len() > 0,
        s[0] + 1 <= s.len(),
{
    spec_fixed_decoded(s.subrange(1, 1 + s[0]))
}

/// Relies on std's `String::push`: appends one character to the string.
#[verifier::external_body]
fn push_char(s: &mut String, c: char)
    ensures
        final(s)@ == old(s)@.push(c),
{
    s.push(c);
}

/// Translates a legacy string to Unicode, one scalar per byte.
pub fn read_fixed_string(string: &[u8]) -> (r: String)
    ensures
        r@ == spec_fixed_decoded(string@),
{
    let n = string.len();
    let mut out = String::new();
    let mut i: usize = 0;
    while i < n
        invariant
            i <= n,
            n == string@.len(),
            out@ =~= spec_fixed_decoded(string@.subrange(0, i as int)),
        decreases n - i,
    {
        let c = mac_roman_char(string[i]);
        push_char(&mut out, c);
        proof {
            assert(string@.subrange(0, i + 1) =~= string@.subrange(0, i as int).push(string@[
                i as int
            ]));
        }
        i += 1;
    }
    proof {
        assert(string@.subrange(0, n as int) =~= string@);
    }
    out
}

/// Translates a length-prefixed legacy string to Unicode: byte 0 holds the
/// length `n`, bytes `1..=n` hold the content.
pub fn read_pascal_string(pstring: &[u8]) -> (r: String)
    requires
        pstring@.len() > 0,
        pstring@[0] + 1 <= pstring@.len(),
    ensures
        r@ == spec_pascal_decoded(pstring@),
{
    let length = pstring[0] as usize;
    read_fixed_string(&pstring[1..1 + length])
}

/// Decoding a length-prefixed string reads exactly its first `n` content
/// bytes: for a header byte `n` and content `c` of at least `n` bytes,
/// decoding `[n] + c` length-prefixed equals decoding the first `n` bytes of
/// `c` fixed.
pub proof fn lemma_pascal_decodes_prefix(n: u8, c: Seq<u8>)
    requires
        n <= c.len(),
    ensures
        spec_pascal_decoded(seq![n] + c) == spec_fixed_decoded(c.subrange(0, n as int)),
{
    let s = seq![n] + c;
    assert(s[0] == n);
    assert(s.subrange(1, 1 + n as int) =~= c.subrange(0, n as int));
}

/// Strict lexicographic order on character sequences, by Unicode scalar
/// value: the order Rust's own string comparison uses.
pub open spec fn spec_lex_lt(a: Seq<char>, b: Seq<char>) -> bool
    decreases a.len(),
{
    if b.len() == 0 {
        false
    } else if a.len() == 0 {
        true
    } else if a[0] < b[0] {
        true
    } else if a[0] == b[0] {
        spec_lex_lt(a.subrange(1, a.len() as int), b.subrange(1, b.len() as int))
    } else {
        false
    }
}

/// Two distinct character sequences compare strictly one way or the other.
pub proof fn lemma_lex_lt_trichotomy(a: Seq<char>, b: Seq<char>)
    ensures
        a == b || spec_lex_lt(a, b) || spec_lex_lt(b, a),
        spec_lex_lt(a, b) ==> !spec_lex_lt(b, a),
        !(a == b && spec_lex_lt(a, b)),
    decreases a.len(),
{
    if b.len() == 0 || a.len() == 0 {
        if a.len() == 0 && b.len() == 0 {
            assert(a =~= b);
        }
    } else if a[0] == b[0] {
        let a1 = a.subrange(1, a.len() as int);
        let b1 = b.subrange(1, b.len() as int);
        lemma_lex_lt_trichotomy(a1, b1);
        if a1 == b1 {
            assert(a =~= b) by {
                assert(a.len() == b.len());
                assert forall|k: int| 0 <= k < a.len() implies a[k] == b[k] by {
                    if k >= 1 {
                        assert(a[k] == a1[k - 1]);
                        assert(b[k] == b1[k - 1]);
                    }
                }
            }
        }
        if a == b {
            assert(a1 =~= b1);
        }
    }
}

/// Strict lexicographic order is transitive.
pub proof fn lemma_lex_lt_transitive(a: Seq<char>, b: Seq<char>, c: Seq<char>)
    requires
        spec_lex_lt(a, b),
        spec_lex_lt(b, c),
    ensures
        spec_lex_lt(a, c),
    decreases a.len(),
{
    if a.len() == 0 {
        assert(b.len() > 0 && c.len() > 0);
    } else if a[0] == b[0] && b[0] == c[0] {
        lemma_lex_lt_transitive(
            a.subrange(1, a.len() as int),
            b.subrange(1, b.len() as int),
            c.subrange(1, c.len() as int),
        );
    }
}

/// Compares two strings in strict lexicographic order by Unicode scalar.
pub fn str_lt(a: &str, b: &str) -> (r: bool)
    ensures
        r == spec_lex_lt(a@, b@),
{
    let na = a.unicode_len();
    let nb = b.unicode_len();
    proof {
        assert(a@.subrange(0, na as int) =~= a@);
        assert(b@.subrange(0, nb as int) =~= b@);
    }
    let mut i: usize = 0;
    while i < na && i < nb
        invariant
            i <= na,
            i <= nb,
            na == a@.len(),
            nb == b@.len(),
            spec_lex_lt(a@, b@) == spec_lex_lt(
                a@.subrange(i as int, na as int),
                b@.subrange(i as int, nb as int),
            ),
        decreases na - i,
    {
        let ca = a.get_char(i);
        let cb = b.get_char(i);
        let ghost asuf = a@.subrange(i as int, na as int);
        let ghost bsuf = b@.subrange(i as int, nb as int);
        if ca < cb {
            proof {
                assert(spec_lex_lt(asuf, bsuf));
            }
            return true;
        }
        if cb < ca {
            proof {
                assert(!spec_lex_lt(asuf, bsuf));
            }
            return false;
        }
        proof {
            assert(ca == cb);
            assert(asuf.subrange(1, asuf.len() as int) =~= a@.subrange(i + 1, na as int));
            assert(bsuf.subrange(1, bsuf.len() as int) =~= b@.subrange(i + 1, nb as int));
        }
        i += 1;
    }
    proof {
        let asuf = a@.subrange(i as int, na as int);
        let bsuf = b@.subrange(i as int, nb as int);
        if i == nb {
            assert(bsuf.len() == 0);
            assert(!spec_lex_lt(asuf, bsuf));
        } else {
            assert(asuf.len() == 0 && bsuf.len() > 0);
            assert(spec_lex_lt(asuf, bsuf));
        }
    }
    na < nb
}

} // verus!
