//! Color themes: thirteen RGB entries in a fixed-layout file.

use crate::reader::{M8Result, Reader};
use vstd::prelude::*;

verus! {

broadcast use crate::reader::lemma_reader_pos_nonneg, crate::reader::lemma_reader_data_bound;

/// On-disk size of the theme payload.
pub const THEME_SIZE: usize = 39;

/// One 24-bit color.
#[derive(PartialEq, Eq, Structural, Debug, Copy, Clone)]
pub struct RGB {
    pub r: u8,
    pub g: u8,
    pub b: u8,
}

/// The three bytes at `p` hold exactly this color.
pub open spec fn rgb_matches(b: Seq<u8>, p: int, c: RGB) -> bool {
    &&& c.r == b[p]
    &&& c.g == b[p + 1]
    &&& c.b == b[p + 2]
}

impl RGB {
    /// Parse one color.
    pub fn from_reader(reader: &mut Reader) -> (r: M8Result<Self>)
        requires
            old(reader).spec_pos() + 3 <= old(reader).data().len(),
        ensures
            final(reader).data() == old(reader).data(),
            final(reader).spec_pos() == old(reader).spec_pos() + 3,
            r matches Ok(c) && rgb_matches(old(reader).data(), old(reader).spec_pos(), c),
    {
        Ok(Self { r: reader.read(), g: reader.read(), b: reader.read() })
    }
}

/// The screen colors of one theme.
#[derive(PartialEq, Debug, Clone, Copy)]
pub struct Theme {
    pub background: RGB,
    pub text_empty: RGB,
    pub text_info: RGB,
    pub text_default: RGB,
    pub text_value: RGB,
    pub text_title: RGB,
    pub play_marker: RGB,
    pub cursor: RGB,
    pub selection: RGB,
    pub scope_slider: RGB,
    pub meter_low: RGB,
    pub meter_mid: RGB,
    pub meter_peak: RGB,
}

/// The thirty-nine bytes at `p` hold exactly this theme.
pub open spec fn theme_matches(b: Seq<u8>, p: int, t: Theme) -> bool {
    &&& rgb_matches(b, p, t.background)
    &&& rgb_matches(b, p + 3, t.text_empty)
    &&& rgb_matches(b, p + 6, t.text_info)
    &&& rgb_matches(b, p + 9, t.text_default)
    &&& rgb_matches(b, p + 12, t.text_value)
    &&& rgb_matches(b, p + 15, t.text_title)
    &&& rgb_matches(b, p + 18, t.play_marker)
    &&& rgb_matches(b, p + 21, t.cursor)
    &&& rgb_matches(b, p + 24, t.selection)
    &&& rgb_matches(b, p + 27, t.scope_slider)
    &&& rgb_matches(b, p + 30, t.meter_low)
    &&& rgb_matches(b, p + 33, t.meter_mid)
    &&& rgb_matches(b, p + 36, t.meter_peak)
}

impl Theme {
    /// Parse the theme payload at the cursor.
    pub fn from_reader(reader: &mut Reader) -> (r: M8Result<Self>)
        requires
            old(reader).spec_pos() + 39 <= old(reader).data().len(),
        ensures
            final(reader).data() == old(reader).data(),
            final(reader).spec_pos() == old(reader).spec_pos() + 39,
            r matches Ok(t) && theme_matches(old(reader).data(), old(reader).spec_pos(), t),
    {
        let background = match RGB::from_reader(reader) {
            Ok(c) => c,
            Err(e) => {
                return Err(e);
            },
        };
        let text_empty = match RGB::from_reader(reader) {
            Ok(c) => c,
            Err(e) => {
                return Err(e);
            },
        };
        let text_info = match RGB::from_reader(reader) {
            Ok(c) => c,
            Err(e) => {
                return Err(e);
            },
        };
        let text_default = match RGB::from_reader(reader) {
            Ok(c) => c,
            Err(e) => {
                return Err(e);
            },
        };
        let text_value = match RGB::from_reader(reader) {
            Ok(c) => c,
            Err(e) => {
                return Err(e);
            },
        };
        let text_title = match RGB::from_reader(reader) {
            Ok(c) => c,
            Err(e) => {
                return Err(e);
            },
        };
        let play_marker = match RGB::from_reader(reader) {
            Ok(c) => c,
            Err(e) => {
                return Err(e);
            },
        };
        let cursor = match RGB::from_reader(reader) {
            Ok(c) => c,
            Err(e) => {
                return Err(e);
            },
        };
        let selection = match RGB::from_reader(reader) {
            Ok(c) => c,
            Err(e) => {
                return Err(e);
            },
        };
        let scope_slider = match RGB::from_reader(reader) {
            Ok(c) => c,
            Err(e) => {
                return Err(e);
            },
        };
        let meter_low = match RGB::from_reader(reader) {
            Ok(c) => c,
            Err(e) => {
                return Err(e);
            },
        };
        let meter_mid = match RGB::from_reader(reader) {
            Ok(c) => c,
            Err(e) => {
                return Err(e);
            },
        };
        let meter_peak = match RGB::from_reader(reader) {
            Ok(c) => c,
            Err(e) => {
                return Err(e);
            },
        };
        Ok(Self {
            background,
            text_empty,
            text_info,
            text_default,
            text_value,
            text_title,
            play_marker,
            cursor,
            selection,
            scope_slider,
            meter_low,
            meter_mid,
            meter_peak,
        })
    }
}

} // verus!
