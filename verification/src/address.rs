use crate::hex::{hex_address, push_hex_address};
use vstd::prelude::*;

verus! {

/// A byte offset into a text pool.
#[derive(Debug, Clone, Copy, PartialEq, Eq, Structural)]
pub struct Address(pub u32);

/// The half-open byte span `[base, base + range)` of a text pool.
#[derive(Debug, Clone, Copy, PartialEq, Eq, Structural)]
pub struct AddressRange {
    pub base: Address,
    pub range: u32,
}

impl Address {
    /// How an address is written: `0x` and at least four hexadecimal digits.
    pub open spec fn as_text(self) -> Seq<char> {
        hex_address(self.0 as nat)
    }

    /// The address `offset` bytes further on (or back, for a negative `offset`).
    pub fn offset(&self, offset: i32) -> (moved: Address)
        requires
            0 <= self.0 + offset <= u32::MAX,
        ensures
            moved.0 == self.0 + offset,
    {
        let sum: i64 = self.0 as i64 + offset as i64;
        Address(sum as u32)
    }

    /// The address in hexadecimal, as in `0x002a`.
    pub fn to_string(&self) -> (text: String)
        ensures
            text@ == self.as_text(),
    {
        let mut text = String::new();
        push_hex_address(&mut text, self.0 as u64);
        text
    }
}

impl AddressRange {
    /// The offset one past the last byte of the span.
    pub open spec fn end(self) -> int {
        self.base.0 + self.range
    }

    /// True when the span is not empty and its last byte has a 32-bit address.
    pub open spec fn has_last(self) -> bool {
        self.range > 0 && self.end() - 1 <= u32::MAX
    }

    /// True when the span is not empty and lies inside a pool of `len` bytes.
    pub open spec fn within(self, len: nat) -> bool {
        self.range > 0 && self.end() <= len
    }

    /// How a span is written: its first and its last address, with `..` between.
    pub open spec fn as_text(self) -> Seq<char> {
        self.base.as_text() + ".."@ + hex_address((self.end() - 1) as nat)
    }

    /// Whether `has_last` holds.
    pub fn can_show(&self) -> (yes: bool)
        ensures
            yes == self.has_last(),
    {
        self.range > 0 && self.range - 1 <= u32::MAX - self.base.0
    }

    /// The span as `first..last`, both in hexadecimal: `0x0000..0x0004`.
    pub fn to_string(&self) -> (text: String)
        requires
            self.has_last(),
        ensures
            text@ == self.as_text(),
    {
        let mut text = self.base.to_string();
        text.append("..");
        push_hex_address(&mut text, (self.base.0 + (self.range - 1)) as u64);
        text
    }
}

} // verus!
