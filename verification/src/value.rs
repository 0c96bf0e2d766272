//! Widths and number formats of decoded values.
use vstd::prelude::*;
use crate::ValueType;
use crate::text::{decimal_text, digits, push_decimal, push_twos_complement, twos_complement, zero_pad};

verus! {

/// The width of a field in the byte stream.
#[derive(Clone, Copy, Debug, PartialEq, Eq, Structural)]
pub enum DataType {
    U8,
    U16,
    U24,
    U32,
    U64,
    I8,
    I16,
    I32,
    I64,
    /// No field at all: zero bytes.
    NoData,
}

impl Default for DataType {
    fn default() -> (r: DataType)
        ensures
            r == DataType::NoData,
    {
        DataType::NoData
    }
}

impl DataType {
    /// The number of bytes a field of this width occupies.
    pub open spec fn spec_data_len(self) -> usize {
        match self {
            DataType::U8 | DataType::I8 => 1,
            DataType::U16 | DataType::I16 => 2,
            DataType::U24 => 3,
            DataType::U32 | DataType::I32 => 4,
            DataType::U64 | DataType::I64 => 8,
            DataType::NoData => 0,
        }
    }

    /// The bit mask under which address arithmetic of this width wraps.
    pub open spec fn spec_mask(self) -> ValueType {
        match self {
            DataType::U8 | DataType::I8 => 0xFF,
            DataType::U16 | DataType::I16 => 0xFFFF,
            DataType::U32 | DataType::I32 => 0xFFFF_FFFF,
            DataType::U64 | DataType::I64 => -1i64,
            DataType::U24 => 0xFF_FFFF,
            DataType::NoData => 0,
        }
    }

    /// The number of bytes a field of this width occupies.
    pub fn data_len(&self) -> (r: usize)
        ensures
            r == self.spec_data_len(),
            r <= 8,
    {
        match self {
            DataType::U8 => 1,
            DataType::U16 => 2,
            DataType::U24 => 3,
            DataType::U32 => 4,
            DataType::U64 => 8,
            DataType::I8 => 1,
            DataType::I16 => 2,
            DataType::I32 => 4,
            DataType::I64 => 8,
            DataType::NoData => 0,
        }
    }

    /// The bit mask under which address arithmetic of this width wraps.
    pub fn mask(&self) -> (r: ValueType)
        ensures
            r == self.spec_mask(),
    {
        match self {
            DataType::U8 | DataType::I8 => 0xFF,
            DataType::U16 | DataType::I16 => 0xFFFF,
            DataType::U32 | DataType::I32 => 0xFFFF_FFFF,
            DataType::U64 | DataType::I64 => -1,
            DataType::U24 => 0xFF_FFFF,
            DataType::NoData => 0,
        }
    }
}

/// A radix together with the width to which a number is zero-padded.
#[derive(Clone, Copy, Debug, PartialEq, Eq, Structural)]
pub enum ValueTypeFmt {
    Binary(usize),
    Decimal(usize),
    LowerHex(usize),
    Octal(usize),
    UpperHex(usize),
}

impl Default for ValueTypeFmt {
    fn default() -> (r: ValueTypeFmt)
        ensures
            r == ValueTypeFmt::LowerHex(0),
    {
        ValueTypeFmt::LowerHex(0)
    }
}

impl ValueTypeFmt {
    /// The key under which an architecture files the suffix for this radix.
    pub open spec fn spec_post(self) -> Seq<char> {
        match self {
            ValueTypeFmt::Binary(_) => "fmt_bin_post"@,
            ValueTypeFmt::Decimal(_) => "fmt_dec_post"@,
            ValueTypeFmt::LowerHex(_) => "fmt_hex_post"@,
            ValueTypeFmt::Octal(_) => "fmt_oct_post"@,
            ValueTypeFmt::UpperHex(_) => "fmt_HEX_post"@,
        }
    }

    /// The key under which an architecture files the prefix for this radix.
    pub open spec fn spec_pre(self) -> Seq<char> {
        match self {
            ValueTypeFmt::Binary(_) => "fmt_bin_pre"@,
            ValueTypeFmt::Decimal(_) => "fmt_dec_pre"@,
            ValueTypeFmt::LowerHex(_) => "fmt_hex_pre"@,
            ValueTypeFmt::Octal(_) => "fmt_oct_pre"@,
            ValueTypeFmt::UpperHex(_) => "fmt_HEX_pre"@,
        }
    }

    /// The digits of `v` in this radix, zero-padded to this format's width.
    /// Decimal is signed; the other radices show the two's-complement pattern.
    pub open spec fn spec_render(self, v: ValueType) -> Seq<char> {
        match self {
            ValueTypeFmt::Binary(w) => zero_pad(digits(twos_complement(v), 2, false), w as nat),
            ValueTypeFmt::Decimal(w) => decimal_text(v as int, w as nat),
            ValueTypeFmt::LowerHex(w) => zero_pad(digits(twos_complement(v), 16, false), w as nat),
            ValueTypeFmt::Octal(w) => zero_pad(digits(twos_complement(v), 8, false), w as nat),
            ValueTypeFmt::UpperHex(w) => zero_pad(digits(twos_complement(v), 16, true), w as nat),
        }
    }

    /// The key under which an architecture files the suffix for this radix.
    pub fn post(&self) -> (r: &'static str)
        ensures
            r@ == self.spec_post(),
    {
        match self {
            ValueTypeFmt::Binary(_) => "fmt_bin_post",
            ValueTypeFmt::Decimal(_) => "fmt_dec_post",
            ValueTypeFmt::LowerHex(_) => "fmt_hex_post",
            ValueTypeFmt::Octal(_) => "fmt_oct_post",
            ValueTypeFmt::UpperHex(_) => "fmt_HEX_post",
        }
    }

    /// The key under which an architecture files the prefix for this radix.
    pub fn pre(&self) -> (r: &'static str)
        ensures
            r@ == self.spec_pre(),
    {
        match self {
            ValueTypeFmt::Binary(_) => "fmt_bin_pre",
            ValueTypeFmt::Decimal(_) => "fmt_dec_pre",
            ValueTypeFmt::LowerHex(_) => "fmt_hex_pre",
            ValueTypeFmt::Octal(_) => "fmt_oct_pre",
            ValueTypeFmt::UpperHex(_) => "fmt_HEX_pre",
        }
    }

    /// The short name of the radix.
    pub fn name(&self) -> (r: &'static str)
        ensures
            r@ == match self {
                ValueTypeFmt::Binary(_) => "bin"@,
                ValueTypeFmt::Decimal(_) => "dec"@,
                ValueTypeFmt::LowerHex(_) => "hex"@,
                ValueTypeFmt::Octal(_) => "oct"@,
                ValueTypeFmt::UpperHex(_) => "HEX"@,
            },
    {
        match self {
            ValueTypeFmt::Binary(_) => "bin",
            ValueTypeFmt::Decimal(_) => "dec",
            ValueTypeFmt::LowerHex(_) => "hex",
            ValueTypeFmt::Octal(_) => "oct",
            ValueTypeFmt::UpperHex(_) => "HEX",
        }
    }

    /// Appends the rendering of `v` in this format.
    pub fn render_into(&self, out: &mut String, v: ValueType)
        ensures
            final(out)@ == old(out)@ + self.spec_render(v),
    {
        match self {
            ValueTypeFmt::Binary(w) => push_twos_complement(out, v, 2, false, *w),
            ValueTypeFmt::Decimal(w) => push_decimal(out, v as i128, *w),
            ValueTypeFmt::LowerHex(w) => push_twos_complement(out, v, 16, false, *w),
            ValueTypeFmt::Octal(w) => push_twos_complement(out, v, 8, false, *w),
            ValueTypeFmt::UpperHex(w) => push_twos_complement(out, v, 16, true, *w),
        }
    }
}

} // verus!
