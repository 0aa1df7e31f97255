//! Decoder of the 62-byte window metadata records in the store's view block.

use crate::bytes::{be_u16, spec_be_u16};
use crate::store_error::Error;
use crate::string_utils::{read_pascal_string, spec_pascal_decoded};
use vstd::prelude::*;

verus! {

/// Number of bytes one window metadata record occupies on disk.
pub const WINDOW_INFO_SIZE: u32 = 62;

/// A pixel rectangle: top, left, bottom, right.
#[derive(Debug, Clone, Copy, PartialEq, Eq, Structural)]
pub struct Rect {
    pub top: u16,
    pub left: u16,
    pub bottom: u16,
    pub right: u16,
}

/// Decoded window metadata: the window's pixel rectangle, its font (name,
/// size, style bits) and the hidden/unused flags.
#[derive(Debug)]
pub struct WindowInfo {
    pub window_rect: Rect,
    pub font_string: String,
    pub font_number: u16,
    pub font_size: u16,
    pub font_style: u16,
    pub is_hidden: bool,
    pub is_unused: bool,
}

/// The mathematical content of a window record, with the font name as a
/// character sequence.
pub struct WindowInfoModel {
    pub window_rect: Rect,
    pub font_string: Seq<char>,
    pub font_number: u16,
    pub font_size: u16,
    pub font_style: u16,
    pub is_hidden: bool,
    pub is_unused: bool,
}

impl View for WindowInfo {
    type V = WindowInfoModel;

    open spec fn view(&self) -> WindowInfoModel {
        WindowInfoModel {
            window_rect: self.window_rect,
            font_string: self.font_string@,
            font_number: self.font_number,
            font_size: self.font_size,
            font_style: self.font_style,
            is_hidden: self.is_hidden,
            is_unused: self.is_unused,
        }
    }
}

/// The window record encoded by a 62-byte buffer: rectangle at bytes 0..8, a
/// 33-byte length-prefixed font name at 8..41, font size at 44..46, style
/// bits at 46..48, hidden and unused flags at 52 and 53. A name length over
/// 32 cannot fit its field and fails the decode.
pub open spec fn spec_window_info(buf: Seq<u8>) -> Result<WindowInfoModel, Error>
    recommends
        buf.len() == 62,
{
    if buf[8] > 32 {
        Err(Error::TryFromSlice)
    } else {
        Ok(
            WindowInfoModel {
                window_rect: Rect {
                    top: spec_be_u16(buf, 0) as u16,
                    left: spec_be_u16(buf, 2) as u16,
                    bottom: spec_be_u16(buf, 4) as u16,
                    right: spec_be_u16(buf, 6) as u16,
                },
                font_string: spec_pascal_decoded(buf.subrange(8, 41)),
                font_number: 0,
                font_size: spec_be_u16(buf, 44) as u16,
                font_style: spec_be_u16(buf, 46) as u16,
                is_hidden: buf[52] != 0,
                is_unused: buf[53] != 0,
            },
        )
    }
}

impl WindowInfo {
    /// Decodes one 62-byte window metadata record.
    pub fn new(buffer: &[u8]) -> (r: Result<WindowInfo, Error>)
        requires
            buffer@.len() == 62,
        ensures
            match (r, spec_window_info(buffer@)) {
                (Ok(w), Ok(m)) => w@ == m,
                (Err(e), Err(se)) => e == se,
                _ => false,
            },
    {
        let top = be_u16(buffer, 0);
        let left = be_u16(buffer, 2);
        let bottom = be_u16(buffer, 4);
        let right = be_u16(buffer, 6);

        // 33-byte length-prefixed font name starting at byte 8
        if buffer[8] > 32 {
            return Err(Error::TryFromSlice);
        }
        let name_slice = &buffer[8..41];
        let font_string = read_pascal_string(name_slice);

        // bytes 41..44 are reserved
        let font_number: u16 = 0;
        let font_size = be_u16(buffer, 44);
        let font_style = be_u16(buffer, 46);
        // bytes 48..52 are reserved
        let is_hidden = buffer[52] != 0;
        let is_unused = buffer[53] != 0;

        Ok(
            WindowInfo {
                window_rect: Rect { top, left, bottom, right },
                font_string,
                font_number,
                font_size,
                font_style,
                is_hidden,
                is_unused,
            },
        )
    }
}

} // verus!
