use crate::address::AddressRange;
use crate::error::Error;
use crate::instruction::{decoded, BinaryInstruction, Instruction, ToBinary};
use crate::pool::{is_ascii_bytes, pool_as_bytes, pool_bytes, pool_from_bytes};
use vstd::bytes::{
    lemma_auto_spec_u64_to_from_le_bytes, spec_u64_from_le_bytes, spec_u64_to_le_bytes,
    u64_from_le_bytes, u64_to_le_bytes,
};
use vstd::prelude::*;
use vstd::slice::{slice_subrange, slice_to_vec};

verus! {

/// A compiled program: a pool of ASCII text and the instructions that draw from it.
#[derive(Debug, Clone, PartialEq, Eq)]
pub struct Program {
    pub text: ascii::AsciiString,
    pub code: Vec<Instruction>,
}

/// A program whose instructions are records, ready to be written out.
#[derive(Debug, Clone, PartialEq, Eq)]
pub struct BinaryProgram {
    pub text: ascii::AsciiString,
    pub code: Vec<BinaryInstruction>,
}

/// What a program is: the bytes of its text pool and its instructions in order.
pub struct ProgramModel {
    pub text: Seq<u8>,
    pub code: Seq<Instruction>,
}

/// What a binary program is: the bytes of its text pool and its records in order.
pub struct BinaryProgramModel {
    pub text: Seq<u8>,
    pub code: Seq<BinaryInstruction>,
}

impl View for Program {
    type V = ProgramModel;

    open spec fn view(&self) -> ProgramModel {
        ProgramModel { text: pool_bytes(self.text), code: self.code@ }
    }
}

impl View for BinaryProgram {
    type V = BinaryProgramModel;

    open spec fn view(&self) -> BinaryProgramModel {
        BinaryProgramModel { text: pool_bytes(self.text), code: self.code@ }
    }
}

impl ProgramModel {
    /// True when the last instruction is `Stop`.
    pub open spec fn ends_in_stop(self) -> bool {
        self.code.len() > 0 && self.code.last() == Instruction::Stop
    }

    /// True when every text instruction names a span that is not empty and lies
    /// inside the text pool.
    pub open spec fn spans_in_pool(self) -> bool {
        forall|i: int|
            0 <= i < self.code.len() ==> (#[trigger] self.code[i] matches Instruction::Text(span)
                ==> span.within(self.text.len()))
    }

    /// True when the program keeps what a program promises: the text is ASCII, the
    /// code ends in `Stop`, and every span lies inside the text.
    pub open spec fn well_formed(self) -> bool {
        &&& is_ascii_bytes(self.text)
        &&& self.ends_in_stop()
        &&& self.spans_in_pool()
    }

    /// The bytes of the text pool that `span` names, where it lies inside the pool.
    pub open spec fn span_bytes(self, span: AddressRange) -> Option<Seq<u8>> {
        if span.end() <= self.text.len() {
            Some(self.text.subrange(span.base.0 as int, span.end()))
        } else {
            None
        }
    }

    /// The program with its instructions as records.
    pub open spec fn to_binary(self) -> BinaryProgramModel {
        BinaryProgramModel {
            text: self.text,
            code: self.code.map_values(|i: Instruction| i.encoded()),
        }
    }

    /// The bytes that the program is written as.
    pub open spec fn encoded(self) -> Seq<u8> {
        self.to_binary().bytes()
    }
}

/// The records' bytes, nine for each, one record after the other.
pub open spec fn record_bytes(code: Seq<BinaryInstruction>) -> Seq<u8>
    decreases code.len(),
{
    if code.len() == 0 {
        Seq::empty()
    } else {
        record_bytes(code.drop_last()) + code.last().bytes()
    }
}

impl BinaryProgramModel {
    /// The buffer of a binary program: the text's length as eight bytes, least
    /// significant first; the text; the records.
    pub open spec fn bytes(self) -> Seq<u8> {
        spec_u64_to_le_bytes(self.text.len() as u64) + self.text + record_bytes(self.code)
    }
}

/// The records of `n` instructions fill `9 * n` bytes.
pub proof fn lemma_record_bytes_len(code: Seq<BinaryInstruction>)
    ensures
        record_bytes(code).len() == 9 * code.len(),
    decreases code.len(),
{
    if code.len() > 0 {
        lemma_record_bytes_len(code.drop_last());
        crate::instruction::lemma_record_bytes(code.last());
    }
}

/// The text length that a buffer announces in its first eight bytes.
pub open spec fn announced_len(bytes: Seq<u8>) -> u64
    recommends
        bytes.len() >= 8,
{
    spec_u64_from_le_bytes(bytes.subrange(0, 8))
}

/// True when the buffer holds its header and all the text that the header announces.
pub open spec fn has_text(bytes: Seq<u8>) -> bool {
    bytes.len() >= 8 && announced_len(bytes) <= bytes.len() - 8
}

/// The text of a buffer: the announced number of bytes behind the header.
pub open spec fn text_section(bytes: Seq<u8>) -> Seq<u8>
    recommends
        has_text(bytes),
{
    bytes.subrange(8, 8 + announced_len(bytes))
}

/// What follows the text of a buffer.
pub open spec fn record_section(bytes: Seq<u8>) -> Seq<u8>
    recommends
        has_text(bytes),
{
    bytes.subrange(8 + announced_len(bytes), bytes.len() as int)
}

/// The instructions that a run of nine-byte records stands for, or the error of the
/// first record that stands for none.
pub open spec fn decoded_records(bytes: Seq<u8>) -> Result<Seq<Instruction>, Error>
    recommends
        bytes.len() % 9 == 0,
    decreases bytes.len(),
{
    if bytes.len() < 9 {
        Ok(Seq::empty())
    } else {
        let before = bytes.subrange(0, bytes.len() - 9);
        let last = bytes.subrange(bytes.len() - 9, bytes.len() as int);
        match decoded_records(before) {
            Err(e) => Err(e),
            Ok(code) => match decoded(BinaryInstruction::of_bytes(last)) {
                Err(e) => Err(e),
                Ok(instruction) => Ok(code.push(instruction)),
            },
        }
    }
}

/// The program that a buffer holds, or why it holds none. The checks come in this
/// order: the header, the text, the length of what follows, then each record in turn.
pub open spec fn decoded_program(bytes: Seq<u8>) -> Result<ProgramModel, Error> {
    if bytes.len() < 8 {
        Err(Error::TruncatedHeader)
    } else if announced_len(bytes) > bytes.len() - 8 {
        Err(Error::TruncatedText)
    } else if record_section(bytes).len() % 9 != 0 {
        Err(Error::MisalignedInstructionStream)
    } else {
        match decoded_records(record_section(bytes)) {
            Err(e) => Err(e),
            Ok(code) => Ok(ProgramModel { text: text_section(bytes), code }),
        }
    }
}

/// Once a record fails, the records behind it do not change the error.
pub proof fn lemma_first_error_stays(bytes: Seq<u8>, n: int)
    requires
        0 <= n <= bytes.len(),
        n % 9 == 0,
        bytes.len() % 9 == 0,
        decoded_records(bytes.take(n)) is Err,
    ensures
        decoded_records(bytes) == decoded_records(bytes.take(n)),
    decreases bytes.len(),
{
    if n < bytes.len() {
        let before = bytes.subrange(0, bytes.len() - 9);
        assert(before.take(n) =~= bytes.take(n));
        lemma_first_error_stays(before, n);
    } else {
        assert(bytes.take(n) =~= bytes);
    }
}

/// The records of a run of instructions stand for these instructions again.
pub proof fn lemma_records_round_trip(code: Seq<Instruction>)
    ensures
        decoded_records(record_bytes(code.map_values(|i: Instruction| i.encoded()))) == Ok::<
            Seq<Instruction>,
            Error,
        >(code),
    decreases code.len(),
{
    let records = code.map_values(|i: Instruction| i.encoded());
    let bytes = record_bytes(records);
    lemma_record_bytes_len(records);
    if code.len() == 0 {
        assert(code =~= Seq::<Instruction>::empty());
    } else {
        let before = bytes.subrange(0, bytes.len() - 9);
        let last = bytes.subrange(bytes.len() - 9, bytes.len() as int);
        lemma_record_bytes_len(records.drop_last());
        crate::instruction::lemma_record_bytes(records.last());
        assert(before =~= record_bytes(records.drop_last()));
        assert(last =~= records.last().bytes());
        assert(records.drop_last() =~= code.drop_last().map_values(|i: Instruction| i.encoded()));
        lemma_records_round_trip(code.drop_last());
        crate::instruction::lemma_decoded_encoded(code.last());
        assert(code.drop_last().push(code.last()) =~= code);
    }
}

/// A program that is written out and read back is the same program: for every
/// program whose text is ASCII and whose code ends in `Stop`, decoding its buffer
/// succeeds and gives the text and the instructions that were encoded.
pub proof fn lemma_round_trip(program: Program)
    requires
        is_ascii_bytes(program@.text),
        program@.ends_in_stop(),
        program@.text.len() <= usize::MAX,
    ensures
        decoded_program(program@.encoded()) == Ok::<ProgramModel, Error>(program@),
{
    let model = program@;
    let records = model.to_binary().code;
    let bytes = model.encoded();
    let len = model.text.len() as u64;
    lemma_auto_spec_u64_to_from_le_bytes();
    lemma_record_bytes_len(records);
    assert(bytes.subrange(0, 8) =~= spec_u64_to_le_bytes(len));
    assert(announced_len(bytes) == len);
    assert(text_section(bytes) =~= model.text);
    assert(record_section(bytes) =~= record_bytes(records));
    lemma_records_round_trip(model.code);
}

impl Program {
    /// The bytes that a text instruction draws: those of the text pool from the
    /// span's base on, as many as its range says; `None` where the span reaches
    /// beyond the pool.
    pub fn span_bytes(&self, span: &AddressRange) -> (bytes: Option<&[u8]>)
        ensures
            match bytes {
                Some(found) => self@.span_bytes(*span) == Some(found@),
                None => self@.span_bytes(*span) is None,
            },
    {
        let pool = pool_as_bytes(&self.text);
        let base = span.base.0 as u64;
        let range = span.range as u64;
        if base + range <= pool.len() as u64 {
            Some(slice_subrange(pool, base as usize, (base + range) as usize))
        } else {
            None
        }
    }

    /// Whether a buffer can be handed to `try_from`: true unless it holds its header
    /// and all of its text, and some byte of that text is not ASCII.
    pub fn has_ascii_text(value: &[u8]) -> (yes: bool)
        ensures
            yes == (has_text(value@) ==> is_ascii_bytes(text_section(value@))),
    {
        if value.len() < 8 {
            return true;
        }
        let announced = u64_from_le_bytes(slice_subrange(value, 0, 8));
        if announced > (value.len() - 8) as u64 {
            return true;
        }
        let text = slice_subrange(value, 8, 8 + announced as usize);
        let mut i: usize = 0;
        while i < text.len()
            invariant
                i <= text.len(),
                has_text(value@),
                text@ == text_section(value@),
                is_ascii_bytes(text@.take(i as int)),
            decreases text.len() - i,
        {
            if text[i] >= 128 {
                assert(text_section(value@)[i as int] >= 128);
                return false;
            }
            i += 1;
            assert forall|j: int| 0 <= j < i implies text@.take(i as int)[j] < 128 by {
                if j < i - 1 {
                    assert(text@.take(i - 1)[j] < 128);
                }
            }
        }
        assert(text@.take(text.len() as int) =~= text@);
        true
    }

    /// Reads a program back from the buffer that `into_byte_buffer` wrote.
    ///
    /// The first eight bytes are the length of the text, least significant byte
    /// first; the text follows; the rest is one nine-byte record for each
    /// instruction. The result is `TruncatedHeader` for fewer than eight bytes,
    /// `TruncatedText` where the text is cut short, `MisalignedInstructionStream`
    /// where the rest is no whole number of records, and otherwise the error of the
    /// first record that stands for no instruction. A span is taken as it stands,
    /// whether or not it lies inside the text. The text itself has to be ASCII,
    /// which `has_ascii_text` tells of a buffer.
    pub fn try_from(value: &[u8]) -> (read: Result<Program, Error>)
        requires
            has_text(value@) ==> is_ascii_bytes(text_section(value@)),
        ensures
            match read {
                Ok(program) => decoded_program(value@) == Ok::<ProgramModel, Error>(program@),
                Err(e) => decoded_program(value@) == Err::<ProgramModel, Error>(e),
            },
            value@.len() < 8 <==> read == Err::<Program, Error>(Error::TruncatedHeader),
            has_text(value@) && record_section(value@).len() % 9 != 0 ==> read == Err::<
                Program,
                Error,
            >(Error::MisalignedInstructionStream),
    {
        if value.len() < 8 {
            return Err(Error::TruncatedHeader);
        }
        let announced = u64_from_le_bytes(slice_subrange(value, 0, 8));
        if announced > (value.len() - 8) as u64 {
            return Err(Error::TruncatedText);
        }
        let text_len = announced as usize;
        let text_bytes = slice_to_vec(slice_subrange(value, 8, 8 + text_len));
        let records = slice_subrange(value, 8 + text_len, value.len());
        if records.len() % 9 != 0 {
            return Err(Error::MisalignedInstructionStream);
        }
        let count = records.len() / 9;
        let mut code: Vec<Instruction> = Vec::new();
        let mut k: usize = 0;
        while k < count
            invariant
                k <= count,
                records@.len() == 9 * count,
                9 * count <= usize::MAX,
                records@ == record_section(value@),
                has_text(value@),
                decoded_records(records@.take(9 * k)) == Ok::<Seq<Instruction>, Error>(code@),
            decreases count - k,
        {
            let r = slice_subrange(records, 9 * k, 9 * k + 9);
            let bytes = [r[0], r[1], r[2], r[3], r[4], r[5], r[6], r[7], r[8]];
            proof {
                let upto = records@.take(9 * (k + 1));
                assert(upto.subrange(0, upto.len() - 9) =~= records@.take(9 * k));
                assert(upto.subrange(upto.len() - 9, upto.len() as int) =~= bytes@);
            }
            let record = match BinaryInstruction::try_from(bytes) {
                Ok(record) => record,
                Err(e) => {
                    return Err(e);
                },
            };
            match Instruction::try_from(record) {
                Ok(instruction) => {
                    code.push(instruction);
                },
                Err(e) => {
                    proof {
                        let upto = records@.take(9 * (k + 1));
                        assert(decoded_records(upto) == Err::<Seq<Instruction>, Error>(e));
                        lemma_first_error_stays(records@, 9 * (k + 1));
                    }
                    return Err(e);
                },
            }
            k += 1;
        }
        assert(records@.take(9 * k) =~= records@);
        match pool_from_bytes(text_bytes) {
            Ok(text) => Ok(Program { text, code }),
            Err(_) => vstd::pervasive::unreached(),
        }
    }

    /// The program with each instruction as its record; the text is carried over.
    pub fn to_binary(self) -> (binary: BinaryProgram)
        ensures
            binary@ == self@.to_binary(),
    {
        let Program { text, code } = self;
        let mut records: Vec<BinaryInstruction> = Vec::new();
        let mut i: usize = 0;
        while i < code.len()
            invariant
                i <= code.len(),
                records@ == code@.take(i as int).map_values(|i: Instruction| i.encoded()),
            decreases code.len() - i,
        {
            records.push(code[i].to_binary());
            i += 1;
            assert(records@ =~= code@.take(i as int).map_values(|i: Instruction| i.encoded()));
        }
        assert(code@.take(code.len() as int) =~= code@);
        BinaryProgram { text, code: records }
    }
}

impl BinaryProgram {
    /// The program as one buffer: eight bytes with the length of the text, the text,
    /// then nine bytes for each record. Nothing stands between or behind them.
    pub fn into_byte_buffer(self) -> (buffer: Vec<u8>)
        ensures
            buffer@ == self@.bytes(),
            buffer@.len() == 8 + self@.text.len() + 9 * self@.code.len(),
    {
        let text = pool_as_bytes(&self.text);
        let mut buffer = u64_to_le_bytes(text.len() as u64);
        buffer.extend_from_slice(text);
        let ghost head = buffer@;
        let mut i: usize = 0;
        while i < self.code.len()
            invariant
                i <= self.code.len(),
                buffer@ == head + record_bytes(self.code@.take(i as int)),
            decreases self.code.len() - i,
        {
            let bytes = self.code[i].into_bytes();
            buffer.extend_from_slice(bytes.as_slice());
            i += 1;
            proof {
                let upto = self.code@.take(i as int);
                assert(upto.drop_last() =~= self.code@.take(i - 1));
                assert(buffer@ =~= head + record_bytes(upto));
            }
        }
        proof {
            assert(self.code@.take(self.code.len() as int) =~= self.code@);
            lemma_record_bytes_len(self.code@);
        }
        buffer
    }
}

} // verus!
