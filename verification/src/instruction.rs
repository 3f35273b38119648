use crate::address::{Address, AddressRange};
use crate::error::Error;
use crate::hex::{hex_plain, hex_right_aligned, push_hex_plain, push_hex_right_aligned};
use vstd::bytes::{
    lemma_auto_spec_u64_to_from_le_bytes, spec_u64_from_le_bytes, spec_u64_to_le_bytes,
    u64_from_le_bytes, u64_to_le_bytes,
};
use vstd::prelude::*;
use vstd::slice::slice_subrange;

verus! {

/// A style that text can be drawn in. Each is switched on and off on its own.
#[derive(Debug, Clone, Copy, PartialEq, Eq, Structural)]
pub enum StyleVar {
    Bold,
    Italic,
}

/// One step of a compiled program.
#[derive(Debug, Clone, Copy, PartialEq, Eq, Structural)]
pub enum Instruction {
    /// The end of the program.
    Stop,
    /// Draw the bytes of the text pool that the span names.
    Text(AddressRange),
    /// Switch a style on.
    Push(StyleVar),
    /// Switch a style off.
    Pop(StyleVar),
    /// Go to the next line.
    Endl,
}

/// An instruction as it is written to a buffer: a type tag and a 64-bit argument.
///
/// - Text: the low 32 bits of the argument are the base address, the high 32 bits the range.
/// - Push, pop: the argument is the style's tag.
/// - Endl, stop: the argument is zero.
#[derive(Debug, Clone, Copy, PartialEq, Eq, Structural)]
pub struct BinaryInstruction {
    pub ty: u8,
    pub arg: u64,
}

/// What has a binary form.
pub trait ToBinary {
    type Output;

    fn to_binary(&self) -> Self::Output;
}

/// Two 32-bit halves as one 64-bit number.
pub open spec fn packed(lower: u32, upper: u32) -> int {
    lower + upper * 0x1_0000_0000
}

/// The style whose tag is `value`, or the error that names `value`.
pub open spec fn style_of(value: u64) -> Result<StyleVar, Error> {
    if value == 1 {
        Ok(StyleVar::Bold)
    } else if value == 2 {
        Ok(StyleVar::Italic)
    } else {
        Err(Error::InvalidStyleVarEncoding(value))
    }
}

/// The span that a text record's argument holds.
pub open spec fn range_of(value: u64) -> AddressRange {
    AddressRange {
        base: Address((value % 0x1_0000_0000) as u32),
        range: (value / 0x1_0000_0000) as u32,
    }
}

/// The instruction that a record stands for, or why it stands for none.
pub open spec fn decoded(record: BinaryInstruction) -> Result<Instruction, Error> {
    if record.ty == 0 {
        Ok(Instruction::Stop)
    } else if record.ty == 1 {
        Ok(Instruction::Text(range_of(record.arg)))
    } else if record.ty == 2 {
        match style_of(record.arg) {
            Ok(style) => Ok(Instruction::Push(style)),
            Err(e) => Err(e),
        }
    } else if record.ty == 3 {
        match style_of(record.arg) {
            Ok(style) => Ok(Instruction::Pop(style)),
            Err(e) => Err(e),
        }
    } else if record.ty == 4 {
        Ok(Instruction::Endl)
    } else {
        Err(Error::UnknownOpcode(record.ty))
    }
}

impl StyleVar {
    /// The number that stands for the style in a buffer.
    pub open spec fn tag(self) -> u8 {
        match self {
            StyleVar::Bold => 1,
            StyleVar::Italic => 2,
        }
    }

    /// The style's name in a listing.
    pub open spec fn as_text(self) -> Seq<char> {
        match self {
            StyleVar::Bold => "bold"@,
            StyleVar::Italic => "italic"@,
        }
    }

    /// `bold` or `italic`.
    pub fn to_string(&self) -> (text: String)
        ensures
            text@ == self.as_text(),
    {
        match self {
            StyleVar::Bold => String::from_str("bold"),
            StyleVar::Italic => String::from_str("italic"),
        }
    }
}

impl ToBinary for StyleVar {
    type Output = u8;

    fn to_binary(&self) -> (tag: u8)
        ensures
            tag == self.tag(),
    {
        match self {
            StyleVar::Bold => 1,
            StyleVar::Italic => 2,
        }
    }
}

impl Instruction {
    /// The type tag of the instruction's record.
    pub open spec fn tag(self) -> u8 {
        match self {
            Instruction::Stop => 0,
            Instruction::Text(_) => 1,
            Instruction::Push(_) => 2,
            Instruction::Pop(_) => 3,
            Instruction::Endl => 4,
        }
    }

    /// The argument of the instruction's record.
    pub open spec fn arg(self) -> u64 {
        match self {
            Instruction::Text(span) => packed(span.base.0, span.range) as u64,
            Instruction::Push(style) => style.tag() as u64,
            Instruction::Pop(style) => style.tag() as u64,
            Instruction::Endl => 0,
            Instruction::Stop => 0,
        }
    }

    /// The instruction's record.
    pub open spec fn encoded(self) -> BinaryInstruction {
        BinaryInstruction { ty: self.tag(), arg: self.arg() }
    }

    /// True unless the instruction is a text whose span has no last address.
    pub open spec fn can_show(self) -> bool {
        self matches Instruction::Text(span) ==> span.has_last()
    }

    /// The instruction's line in a listing.
    pub open spec fn as_text(self) -> Seq<char> {
        match self {
            Instruction::Text(span) => "text "@ + span.as_text(),
            Instruction::Push(style) => "push "@ + style.as_text(),
            Instruction::Pop(style) => "pop "@ + style.as_text(),
            Instruction::Stop => "stop"@,
            Instruction::Endl => "endl"@,
        }
    }

    fn discriminant(&self) -> (tag: u8)
        ensures
            tag == self.tag(),
    {
        match self {
            Instruction::Stop => 0,
            Instruction::Text(_) => 1,
            Instruction::Push(_) => 2,
            Instruction::Pop(_) => 3,
            Instruction::Endl => 4,
        }
    }

    /// Reads a record back into the instruction it stands for.
    ///
    /// A tag above four gives `UnknownOpcode`; a push or pop whose argument is neither
    /// one nor two gives `InvalidStyleVarEncoding`. Nothing else fails.
    pub fn try_from(value: BinaryInstruction) -> (read: Result<Instruction, Error>)
        ensures
            read == decoded(value),
            value.ty > 4 <==> read == Err::<Instruction, Error>(Error::UnknownOpcode(value.ty)),
    {
        match value.ty {
            0 => Ok(Instruction::Stop),
            1 => Ok(Instruction::Text(parse_address_range(value.arg))),
            2 => match parse_style_var(value.arg) {
                Ok(style) => Ok(Instruction::Push(style)),
                Err(e) => Err(e),
            },
            3 => match parse_style_var(value.arg) {
                Ok(style) => Ok(Instruction::Pop(style)),
                Err(e) => Err(e),
            },
            4 => Ok(Instruction::Endl),
            _ => Err(Error::UnknownOpcode(value.ty)),
        }
    }

    /// The mnemonic and its operand: `text 0x0000..0x0004`, `push bold`, `pop italic`,
    /// `endl`, `stop`.
    pub fn to_string(&self) -> (text: String)
        requires
            self.can_show(),
        ensures
            text@ == self.as_text(),
    {
        match self {
            Instruction::Text(span) => {
                let mut text = String::from_str("text ");
                let operand = span.to_string();
                text.append(operand.as_str());
                text
            },
            Instruction::Push(style) => {
                let mut text = String::from_str("push ");
                let operand = style.to_string();
                text.append(operand.as_str());
                text
            },
            Instruction::Pop(style) => {
                let mut text = String::from_str("pop ");
                let operand = style.to_string();
                text.append(operand.as_str());
                text
            },
            Instruction::Stop => String::from_str("stop"),
            Instruction::Endl => String::from_str("endl"),
        }
    }
}

impl ToBinary for Instruction {
    type Output = BinaryInstruction;

    fn to_binary(&self) -> (record: BinaryInstruction)
        ensures
            record == self.encoded(),
    {
        let ty = self.discriminant();
        match self {
            Instruction::Text(span) => {
                let arg = pack_u32_into_u64(span.base.0, span.range);
                BinaryInstruction { ty, arg }
            },
            Instruction::Push(style) => {
                let arg = style.to_binary() as u64;
                BinaryInstruction { ty, arg }
            },
            Instruction::Pop(style) => {
                let arg = style.to_binary() as u64;
                BinaryInstruction { ty, arg }
            },
            Instruction::Endl => BinaryInstruction { ty, arg: 0 },
            Instruction::Stop => BinaryInstruction { ty, arg: 0 },
        }
    }
}

impl BinaryInstruction {
    /// The nine bytes of the record: the tag, then the argument, least significant
    /// byte first.
    pub open spec fn bytes(self) -> Seq<u8> {
        seq![self.ty] + spec_u64_to_le_bytes(self.arg)
    }

    /// The record that nine bytes hold.
    pub open spec fn of_bytes(bytes: Seq<u8>) -> BinaryInstruction
        recommends
            bytes.len() == 9,
    {
        BinaryInstruction { ty: bytes[0], arg: spec_u64_from_le_bytes(bytes.subrange(1, 9)) }
    }

    /// How a record is written: tag and argument in hexadecimal, the argument
    /// right-aligned in sixteen characters.
    pub open spec fn as_text(self) -> Seq<char> {
        hex_plain(self.ty as nat) + ":"@ + hex_right_aligned(self.arg as nat, 16)
    }

    /// The record as nine bytes.
    pub fn into_bytes(self) -> (bytes: [u8; 9])
        ensures
            bytes@ == self.bytes(),
    {
        let arg = u64_to_le_bytes(self.arg);
        let bytes = [self.ty, arg[0], arg[1], arg[2], arg[3], arg[4], arg[5], arg[6], arg[7]];
        assert(bytes@ =~= self.bytes());
        bytes
    }

    /// The record in nine bytes. Every nine bytes hold one.
    pub fn try_from(value: [u8; 9]) -> (read: Result<BinaryInstruction, Error>)
        ensures
            read == Ok::<BinaryInstruction, Error>(BinaryInstruction::of_bytes(value@)),
    {
        let ty = value[0];
        let arg = u64_from_le_bytes(slice_subrange(value.as_slice(), 1, 9));
        Ok(BinaryInstruction { ty, arg })
    }

    /// The record as `0x2:             0x1`.
    pub fn to_string(&self) -> (text: String)
        ensures
            text@ == self.as_text(),
    {
        let mut text = String::new();
        push_hex_plain(&mut text, self.ty as u64);
        text.append(":");
        push_hex_right_aligned(&mut text, self.arg, 16);
        text
    }
}

/// `lower` in the low 32 bits and `upper` in the high 32 bits.
pub fn pack_u32_into_u64(lower: u32, upper: u32) -> (value: u64)
    ensures
        value == packed(lower, upper),
{
    assert((lower as u64 | ((upper as u64) << 32)) == lower as u64 + (upper as u64)
        * 0x1_0000_0000) by (bit_vector);
    lower as u64 | ((upper as u64) << 32)
}

/// The high 32 bits and the low 32 bits of `value`, in this order.
pub fn unpack_u64(value: u64) -> (halves: (u32, u32))
    ensures
        halves.0 == value / 0x1_0000_0000,
        halves.1 == value % 0x1_0000_0000,
{
    assert(value >> 32 == value / 0x1_0000_0000) by (bit_vector);
    assert(value & 0xffffffff == value % 0x1_0000_0000) by (bit_vector);
    let higher = (value >> 32) as u32;
    let lower = (value & 0xffffffff) as u32;
    (higher, lower)
}

/// The span in a text record's argument: the base from the low half, the range from
/// the high half.
pub fn parse_address_range(value: u64) -> (span: AddressRange)
    ensures
        span == range_of(value),
        span.base.0 == value % 0x1_0000_0000,
        span.range == value / 0x1_0000_0000,
{
    let (higher, lower) = unpack_u64(value);
    AddressRange { base: Address(lower), range: higher }
}

/// The style with tag `value`: one is bold, two is italic, anything else is an error.
pub fn parse_style_var(value: u64) -> (read: Result<StyleVar, Error>)
    ensures
        read == style_of(value),
{
    match value {
        1 => Ok(StyleVar::Bold),
        2 => Ok(StyleVar::Italic),
        _ => Err(Error::InvalidStyleVarEncoding(value)),
    }
}

/// A record's nine bytes hold the record again.
pub proof fn lemma_record_bytes(record: BinaryInstruction)
    ensures
        record.bytes().len() == 9,
        BinaryInstruction::of_bytes(record.bytes()) == record,
{
    lemma_auto_spec_u64_to_from_le_bytes();
    assert(record.bytes().subrange(1, 9) =~= spec_u64_to_le_bytes(record.arg));
}

/// An instruction's record stands for the instruction again.
pub proof fn lemma_decoded_encoded(instruction: Instruction)
    ensures
        decoded(instruction.encoded()) == Ok::<Instruction, Error>(instruction),
{
    match instruction {
        Instruction::Text(span) => {
            let value = packed(span.base.0, span.range) as u64;
            assert(range_of(value) == span);
        },
        _ => {},
    }
}

} // verus!
