use crate::hex::{hex_address, push_char, push_hex_address};
use crate::instruction::{BinaryInstruction, Instruction};
use crate::pool::pool_as_bytes;
use crate::program::{BinaryProgram, BinaryProgramModel, Program, ProgramModel};
use vstd::prelude::*;
use vstd::slice::slice_subrange;

verus! {

/// Each byte as the character with its number.
pub open spec fn as_chars(bytes: Seq<u8>) -> Seq<char> {
    bytes.map_values(|b: u8| b as char)
}

/// The number of rows that `len` bytes fill when a row holds sixteen.
pub open spec fn row_count(len: nat) -> nat {
    if len % 16 == 0 {
        len / 16
    } else {
        len / 16 + 1
    }
}

/// Row `row` of the text pool: a tab, the offset of the row's first byte, a tab,
/// the row's bytes (sixteen, or what is left of the pool), a line feed.
pub open spec fn data_row(text: Seq<u8>, row: nat) -> Seq<char> {
    let first = 16 * row;
    let end = if first + 16 <= text.len() {
        first + 16
    } else {
        text.len()
    };
    "\t"@ + hex_address(first) + "\t"@ + as_chars(text.subrange(first as int, end as int))
        + "\n"@
}

/// The first `rows` rows of the text pool.
pub open spec fn data_rows(text: Seq<u8>, rows: nat) -> Seq<char>
    decreases rows,
{
    if rows == 0 {
        Seq::empty()
    } else {
        data_rows(text, (rows - 1) as nat) + data_row(text, (rows - 1) as nat)
    }
}

/// One line for each instruction: a tab, the instruction, a line feed.
pub open spec fn code_lines(code: Seq<Instruction>) -> Seq<char>
    decreases code.len(),
{
    if code.len() == 0 {
        Seq::empty()
    } else {
        code_lines(code.drop_last()) + "\t"@ + code.last().as_text() + "\n"@
    }
}

/// One line for each record: the record, a line feed.
pub open spec fn record_lines(code: Seq<BinaryInstruction>) -> Seq<char>
    decreases code.len(),
{
    if code.len() == 0 {
        Seq::empty()
    } else {
        record_lines(code.drop_last()) + code.last().as_text() + "\n"@
    }
}

impl ProgramModel {
    /// True when every text instruction's span can be written as `first..last`.
    pub open spec fn can_list(self) -> bool {
        forall|i: int| 0 <= i < self.code.len() ==> (#[trigger] self.code[i]).can_show()
    }

    /// The listing of a program: `.data` and the rows of the text pool, then
    /// `.text` and the lines of the code.
    pub open spec fn listing(self) -> Seq<char> {
        ".data\n"@ + data_rows(self.text, row_count(self.text.len())) + ".text\n"@ + code_lines(
            self.code,
        )
    }
}

impl BinaryProgramModel {
    /// The listing of a binary program: the lines of its records.
    pub open spec fn listing(self) -> Seq<char> {
        record_lines(self.code)
    }
}

/// A well-formed program can be listed.
pub proof fn lemma_well_formed_can_list(program: ProgramModel)
    requires
        program.spans_in_pool(),
        program.text.len() <= u32::MAX,
    ensures
        program.can_list(),
{
    assert forall|i: int| 0 <= i < program.code.len() implies (
    #[trigger] program.code[i]).can_show() by {
        if let Instruction::Text(span) = program.code[i] {
            assert(span.within(program.text.len()));
        }
    }
}

fn push_bytes(out: &mut String, bytes: &[u8])
    ensures
        final(out)@ == old(out)@ + as_chars(bytes@),
{
    let mut i: usize = 0;
    while i < bytes.len()
        invariant
            i <= bytes.len(),
            out@ == old(out)@ + as_chars(bytes@.take(i as int)),
        decreases bytes.len() - i,
    {
        push_char(out, bytes[i] as char);
        i += 1;
        assert(out@ =~= old(out)@ + as_chars(bytes@.take(i as int)));
    }
    assert(bytes@.take(bytes.len() as int) =~= bytes@);
}

impl Program {
    /// Whether every span of the program can be written: whether `to_string` can
    /// be called.
    pub fn can_list(&self) -> (yes: bool)
        ensures
            yes == self@.can_list(),
    {
        let mut i: usize = 0;
        while i < self.code.len()
            invariant
                i <= self.code.len(),
                forall|j: int| 0 <= j < i ==> (#[trigger] self.code@[j]).can_show(),
            decreases self.code.len() - i,
        {
            let showable = match self.code[i] {
                Instruction::Text(span) => span.can_show(),
                _ => true,
            };
            if !showable {
                assert(!self@.code[i as int].can_show());
                return false;
            }
            i += 1;
        }
        true
    }

    /// The program as a listing for the eye.
    ///
    /// Under `.data` the text pool stands in rows of sixteen bytes, each behind the
    /// offset of its first byte; under `.text` each instruction stands on a line of
    /// its own, with spans as `first..last` in hexadecimal.
    pub fn to_string(&self) -> (text: String)
        requires
            self@.can_list(),
        ensures
            text@ == self@.listing(),
    {
        let pool = pool_as_bytes(&self.text);
        let mut out = String::from_str(".data\n");
        let mut cur: usize = 0;
        let ghost mut row: nat = 0;
        while cur < pool.len()
            invariant
                cur <= pool.len(),
                cur < pool.len() ==> cur == 16 * row,
                cur == pool.len() ==> row == row_count(pool@.len()),
                out@ == ".data\n"@ + data_rows(pool@, row),
            decreases pool.len() - cur,
        {
            let remaining = if pool.len() - cur < 16 {
                pool.len() - cur
            } else {
                16
            };
            let ghost before = out@;
            out.append("\t");
            push_hex_address(&mut out, cur as u64);
            out.append("\t");
            push_bytes(&mut out, slice_subrange(pool, cur, cur + remaining));
            out.append("\n");
            proof {
                assert(out@ =~= before + data_row(pool@, row));
                row = row + 1;
            }
            cur += remaining;
        }
        out.append(".text\n");
        let ghost head = out@;
        let mut i: usize = 0;
        while i < self.code.len()
            invariant
                i <= self.code.len(),
                self@.can_list(),
                out@ == head + code_lines(self.code@.take(i as int)),
            decreases self.code.len() - i,
        {
            let ghost before = out@;
            assert(self@.code[i as int].can_show());
            let line = self.code[i].to_string();
            out.append("\t");
            out.append(line.as_str());
            out.append("\n");
            i += 1;
            proof {
                let upto = self.code@.take(i as int);
                assert(upto.drop_last() =~= self.code@.take(i - 1));
                assert(out@ =~= head + code_lines(upto));
            }
        }
        proof {
            assert(self.code@.take(self.code.len() as int) =~= self.code@);
            assert(out@ =~= self@.listing());
        }
        out
    }
}

impl BinaryProgram {
    /// The records, one on each line, as `BinaryInstruction::to_string` writes them.
    pub fn to_string(&self) -> (text: String)
        ensures
            text@ == self@.listing(),
    {
        let mut out = String::new();
        let mut i: usize = 0;
        while i < self.code.len()
            invariant
                i <= self.code.len(),
                out@ == record_lines(self.code@.take(i as int)),
            decreases self.code.len() - i,
        {
            let line = self.code[i].to_string();
            out.append(line.as_str());
            out.append("\n");
            i += 1;
            proof {
                let upto = self.code@.take(i as int);
                assert(upto.drop_last() =~= self.code@.take(i - 1));
                assert(out@ =~= record_lines(upto));
            }
        }
        assert(self.code@.take(self.code.len() as int) =~= self.code@);
        out
    }
}

} // verus!
